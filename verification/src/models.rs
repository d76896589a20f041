//! How the gateway asks a provider for its live model list: the request URL,
//! where the credentials go, and which list is shown once the answer is in.

use vstd::prelude::*;
use vstd::string::*;
use crate::gateway::Provider;
use crate::json::{get, items_of, member, str_of, text_in, JsonValue};
use crate::text::{chars_of, occurs_at, occurs_at_exec, str_eq, string_from_chars};

verus! {

/// `s` with every occurrence of `pat` removed, scanning from the left
/// (`str::replace(pat, "")`).
pub open spec fn remove_all(s: Seq<char>, pat: Seq<char>) -> Seq<char>
    decreases s.len(),
{
    if s.len() == 0 {
        s
    } else if pat.len() > 0 && occurs_at(s, pat, 0) {
        remove_all(s.subrange(pat.len() as int, s.len() as int), pat)
    } else {
        seq![s[0]] + remove_all(s.drop_first(), pat)
    }
}

/// `s` with every occurrence of the non-empty `pat` removed.
pub fn remove_all_chars(s: &[char], pat: &[char]) -> (r: Vec<char>)
    requires
        pat.len() > 0,
    ensures
        r@ == remove_all(s@, pat@),
{
    let mut r: Vec<char> = Vec::new();
    let mut i: usize = 0;
    assert(s@.subrange(0, s@.len() as int) =~= s@);
    assert(r@ + remove_all(s@, pat@) =~= remove_all(s@, pat@));
    while i < s.len()
        invariant
            i <= s.len(),
            pat@.len() > 0,
            r@ + remove_all(s@.subrange(i as int, s.len() as int), pat@) == remove_all(s@, pat@),
        decreases s.len() - i,
    {
        let ghost rest = s@.subrange(i as int, s.len() as int);
        if pat.len() <= s.len() - i && occurs_at_exec(s, pat, i) {
            assert(rest.subrange(0, pat@.len() as int) =~= s@.subrange(i as int, i + pat@.len()));
            assert(occurs_at(rest, pat@, 0));
            assert(rest.subrange(pat@.len() as int, rest.len() as int)
                =~= s@.subrange(i + pat@.len(), s.len() as int));
            i = i + pat.len();
        } else {
            proof {
                if occurs_at(rest, pat@, 0) {
                    assert(rest.subrange(0, pat@.len() as int) =~= s@.subrange(i as int, i + pat@.len()));
                    assert(occurs_at(s@, pat@, i as int));
                }
                assert(rest.drop_first() =~= s@.subrange(i + 1, s.len() as int));
            }
            let ghost before = r@;
            r.push(s[i]);
            proof {
                let tail = remove_all(s@.subrange(i + 1, s.len() as int), pat@);
                assert(before + (seq![s@[i as int]] + tail) =~= r@ + tail);
            }
            i = i + 1;
        }
    }
    assert(s@.subrange(s.len() as int, s.len() as int) =~= Seq::<char>::empty());
    assert(r@ + Seq::<char>::empty() =~= r@);
    r
}

/// Number of trailing '/' characters.
pub open spec fn trail_slashes(s: Seq<char>) -> nat
    decreases s.len(),
{
    if s.len() == 0 { 0 } else if s.last() == '/' { 1 + trail_slashes(s.drop_last()) } else { 0 }
}

/// `s` without trailing '/' characters (`str::trim_end_matches('/')`).
pub open spec fn trim_slashes(s: Seq<char>) -> Seq<char> {
    s.subrange(0, s.len() - trail_slashes(s))
}

proof fn lemma_trail_slashes(s: Seq<char>, k: int)
    requires
        0 <= k <= s.len(),
        forall|j: int| s.len() - k <= j < s.len() ==> s[j] == '/',
        k == s.len() || s[s.len() - k - 1] != '/',
    ensures
        trail_slashes(s) == k,
    decreases s.len(),
{
    if s.len() > 0 && k > 0 {
        let t = s.drop_last();
        assert forall|j: int| t.len() - (k - 1) <= j < t.len() implies t[j] == '/' by {
            assert(t[j] == s[j]);
        }
        if k < s.len() {
            assert(t[t.len() - (k - 1) - 1] == s[s.len() - k - 1]);
        }
        lemma_trail_slashes(t, k - 1);
    }
}

/// `s` without trailing '/' characters.
pub fn trim_slashes_chars(s: &[char]) -> (r: Vec<char>)
    ensures
        r@ == trim_slashes(s@),
{
    let mut b: usize = s.len();
    while b > 0 && s[b - 1] == '/'
        invariant
            b <= s.len(),
            forall|j: int| b <= j < s.len() ==> s@[j] == '/',
        decreases b,
    {
        b = b - 1;
    }
    proof {
        lemma_trail_slashes(s@, (s.len() - b) as int);
    }
    let mut r: Vec<char> = Vec::new();
    let mut i: usize = 0;
    while i < b
        invariant
            i <= b <= s.len(),
            r@ == s@.subrange(0, i as int),
        decreases b - i,
    {
        r.push(s[i]);
        assert(s@.subrange(0, i + 1) =~= s@.subrange(0, i as int).push(s@[i as int]));
        i = i + 1;
    }
    r
}

/// The first value that is set, or nothing.
pub open spec fn first_set(vals: Seq<Option<String>>) -> Seq<char>
    decreases vals.len(),
{
    if vals.len() == 0 {
        Seq::empty()
    } else {
        match vals[0] {
            Some(v) => v@,
            None => first_set(vals.drop_first()),
        }
    }
}

/// The API key used for a provider: the stored one, else the value of the
/// first of its environment variables that is set.
pub open spec fn chosen_key(stored: Seq<char>, env: Seq<Option<String>>) -> Seq<char> {
    if stored.len() > 0 { stored } else { first_set(env) }
}

/// The API key for a provider, from the stored key and the values of its
/// environment variables in order (`None` where a variable is unset).
pub fn api_key_for(stored: &str, env: &[Option<String>]) -> (r: String)
    ensures
        r@ == chosen_key(stored@, env@),
{
    if !stored.is_empty() {
        return String::from_str(stored);
    }
    let mut i: usize = 0;
    assert(env@.subrange(0, env@.len() as int) =~= env@);
    while i < env.len() && env[i].is_none()
        invariant
            i <= env.len(),
            first_set(env@.subrange(i as int, env.len() as int)) == first_set(env@),
        decreases env.len() - i,
    {
        proof {
            let sub = env@.subrange(i as int, env.len() as int);
            assert(sub.drop_first() =~= env@.subrange(i + 1, env.len() as int));
        }
        i = i + 1;
    }
    if i == env.len() {
        assert(env@.subrange(i as int, env.len() as int) =~= Seq::<Option<String>>::empty());
        String::new()
    } else {
        match &env[i] {
            Some(v) => {
                assert(env@.subrange(i as int, env.len() as int)[0] == env@[i as int]);
                v.clone()
            },
            None => String::new(),
        }
    }
}

/// How to obtain a provider's model list.
#[derive(Debug)]
pub enum ModelsPlan {
    /// GET this URL from a local Ollama server.
    Ollama { url: String },
    /// Scan the model directories for GGUF files.
    ScanFiles,
    /// The provider has no base URL or no models path.
    Unconfigured,
    /// GET this URL from an OpenAI-compatible API, with these headers.
    Http { url: String, headers: Vec<(String, String)> },
}

/// Header pairs as character sequences.
pub open spec fn headers_view(h: Seq<(String, String)>) -> Seq<(Seq<char>, Seq<char>)> {
    h.map_values(|x: (String, String)| (x.0@, x.1@))
}

/// The Ollama tag-list URL of a base URL: "/v1" removed, trailing '/'
/// removed, then "/api/tags".
pub open spec fn ollama_tags_url(base: Seq<char>) -> Seq<char> {
    trim_slashes(remove_all(base, "/v1"@)) + "/api/tags"@
}

/// The models URL of an OpenAI-compatible provider.
pub open spec fn models_url(base: Seq<char>, path: Seq<char>) -> Seq<char> {
    trim_slashes(base) + path
}

/// The request to an OpenAI-compatible provider: Anthropic takes the key
/// in "x-api-key" with an API version, Gemini in the "key" query
/// parameter, the others as a bearer token where their auth style is
/// "bearer". No key, no credentials.
pub open spec fn http_plan_of(name: Seq<char>, p: Provider, env: Seq<Option<String>>, plan: ModelsPlan) -> bool {
    let key = chosen_key(p.api_key@, env);
    let url = models_url(p.base_url@, p.models_path@);
    if p.base_url@.len() == 0 || p.models_path@.len() == 0 {
        plan is Unconfigured
    } else if name == "anthropic"@ {
        &&& plan matches ModelsPlan::Http { url: u, headers: h }
        &&& u@ == url
        &&& headers_view(h@) == (if key.len() > 0 {
                seq![("x-api-key"@, key), ("anthropic-version"@, "2023-06-01"@)]
            } else {
                Seq::empty()
            })
    } else if name == "gemini"@ {
        &&& plan matches ModelsPlan::Http { url: u, headers: h }
        &&& u@ == (if key.len() > 0 { url + "?key="@ + key } else { url })
        &&& h@.len() == 0
    } else {
        &&& plan matches ModelsPlan::Http { url: u, headers: h }
        &&& u@ == url
        &&& headers_view(h@) == (if p.auth_style@ == "bearer"@ && key.len() > 0 {
                seq![("Authorization"@, "Bearer "@ + key)]
            } else {
                Seq::empty()
            })
    }
}

/// The plan for a provider: Ollama lists its tags, "brain" scans files,
/// the others go through `http_plan_of`.
pub open spec fn plan_of(name: Seq<char>, p: Provider, env: Seq<Option<String>>, plan: ModelsPlan) -> bool {
    if name == "ollama"@ {
        plan matches ModelsPlan::Ollama { url: u } && u@ == ollama_tags_url(p.base_url@)
    } else if name == "brain"@ {
        plan is ScanFiles
    } else {
        http_plan_of(name, p, env, plan)
    }
}

/// The request to an OpenAI-compatible provider, given the values of its
/// environment variables in order.
pub fn http_plan(name: &str, p: &Provider, env: &[Option<String>]) -> (r: ModelsPlan)
    ensures
        http_plan_of(name@, *p, env@, r),
{
    if p.base_url.as_str().is_empty() || p.models_path.as_str().is_empty() {
        return ModelsPlan::Unconfigured;
    }
    let key = api_key_for(p.api_key.as_str(), env);
    let base = chars_of(p.base_url.as_str());
    let trimmed = trim_slashes_chars(base.as_slice());
    let mut url = string_from_chars(trimmed.as_slice());
    url.append(p.models_path.as_str());
    let has_key = !key.as_str().is_empty();
    if str_eq(name, "anthropic") {
        let mut headers: Vec<(String, String)> = Vec::new();
        if has_key {
            headers.push((String::from_str("x-api-key"), key));
            headers.push((String::from_str("anthropic-version"), String::from_str("2023-06-01")));
        }
        assert(headers_view(headers@) =~= (if has_key {
            seq![("x-api-key"@, chosen_key(p.api_key@, env@)), ("anthropic-version"@, "2023-06-01"@)]
        } else {
            Seq::<(Seq<char>, Seq<char>)>::empty()
        }));
        ModelsPlan::Http { url, headers }
    } else if str_eq(name, "gemini") {
        if has_key {
            url.append("?key=");
            url.append(key.as_str());
        }
        ModelsPlan::Http { url, headers: Vec::new() }
    } else {
        let mut headers: Vec<(String, String)> = Vec::new();
        if str_eq(p.auth_style.as_str(), "bearer") && has_key {
            let mut v = String::from_str("Bearer ");
            v.append(key.as_str());
            headers.push((String::from_str("Authorization"), v));
        }
        assert(headers_view(headers@) =~= (if p.auth_style@ == "bearer"@ && chosen_key(p.api_key@, env@).len() > 0 {
            seq![("Authorization"@, "Bearer "@ + chosen_key(p.api_key@, env@))]
        } else {
            Seq::<(Seq<char>, Seq<char>)>::empty()
        }));
        ModelsPlan::Http { url, headers }
    }
}

/// How to obtain the model list of the provider `name`, given the values of
/// its environment variables in order.
pub fn models_plan(name: &str, p: &Provider, env: &[Option<String>]) -> (r: ModelsPlan)
    ensures
        plan_of(name@, *p, env@, r),
{
    if str_eq(name, "ollama") {
        let base = chars_of(p.base_url.as_str());
        let pat = chars_of("/v1");
        proof {
            reveal_strlit("/v1");
        }
        let without = remove_all_chars(base.as_slice(), pat.as_slice());
        let trimmed = trim_slashes_chars(without.as_slice());
        let mut url = string_from_chars(trimmed.as_slice());
        url.append("/api/tags");
        ModelsPlan::Ollama { url }
    } else if str_eq(name, "brain") {
        ModelsPlan::ScanFiles
    } else {
        http_plan(name, p, env)
    }
}

/// The list shown after an answer was read: the fetched models where there
/// are any (then the list is live), else the cached ones.
pub fn shown_models(fetched: Vec<String>, cached: Vec<String>) -> (r: (Vec<String>, bool))
    ensures
        fetched@.len() > 0 ==> r.0@ == fetched@ && r.1,
        fetched@.len() == 0 ==> r.0@ == cached@ && !r.1,
{
    if fetched.len() > 0 {
        (fetched, true)
    } else {
        (cached, false)
    }
}

/// The first `n` characters of `s`, or all of them.
pub open spec fn first_chars(s: Seq<char>, n: nat) -> Seq<char> {
    if s.len() <= n { s } else { s.take(n as int) }
}

/// The error shown when a provider answers with an HTTP error: the status
/// and the first 200 characters of the body.
pub fn http_error_text(status: &str, body: &str) -> (r: String)
    ensures
        r@ == "API returned HTTP "@ + status@ + ": "@ + first_chars(body@, 200),
{
    let cs = chars_of(body);
    let n: usize = if cs.len() <= 200 { cs.len() } else { 200 };
    let mut head: Vec<char> = Vec::new();
    let mut i: usize = 0;
    while i < n
        invariant
            i <= n <= cs.len(),
            head@ == cs@.take(i as int),
        decreases n - i,
    {
        head.push(cs[i]);
        assert(cs@.take(i + 1) =~= cs@.take(i as int).push(cs@[i as int]));
        i = i + 1;
    }
    assert(cs@.len() <= 200 ==> cs@.take(n as int) =~= cs@);
    let mut r = String::from_str("API returned HTTP ");
    r.append(status);
    r.append(": ");
    let tail = string_from_chars(head.as_slice());
    r.append(tail.as_str());
    r
}


/// The `field` texts of the elements of `items`, in order, skipping the
/// elements that have none.
pub open spec fn field_texts(items: Seq<JsonValue>, field: Seq<char>) -> Seq<Seq<char>>
    decreases items.len(),
{
    if items.len() == 0 {
        Seq::empty()
    } else {
        let rest = field_texts(items.drop_last(), field);
        match str_of(member(items.last(), field)) {
            Some(t) => rest.push(t),
            None => rest,
        }
    }
}

/// The model IDs of a provider's answer: the `field` text of each element
/// of its array `list`; none where there is no such array.
pub open spec fn listed_ids(v: JsonValue, list: Seq<char>, field: Seq<char>) -> Seq<Seq<char>> {
    field_texts(items_of(member(v, list)), field)
}

/// The model IDs of a provider's answer (`"data"`/`"id"` for an
/// OpenAI-style API, `"models"`/`"name"` for Ollama).
pub fn model_ids(v: &JsonValue, list: &str, field: &str) -> (r: Vec<String>)
    ensures
        r@.map_values(|s: String| s@) == listed_ids(*v, list@, field@),
{
    let mut r: Vec<String> = Vec::new();
    let items: &Vec<JsonValue> = match get(v, list) {
        Some(JsonValue::Array(a)) => a,
        _ => {
            assert(r@.map_values(|s: String| s@) =~= Seq::<Seq<char>>::empty());
            return r;
        },
    };
    let ghost all = items@;
    assert(all == items_of(member(*v, list@)));
    let mut i: usize = 0;
    assert(all.take(0) =~= Seq::<JsonValue>::empty());
    assert(r@.map_values(|s: String| s@) =~= field_texts(all.take(0), field@));
    while i < items.len()
        invariant
            i <= items.len(),
            all == items@,
            r@.map_values(|s: String| s@) == field_texts(all.take(i as int), field@),
        decreases items.len() - i,
    {
        let item = &items[i];
        assert(all.take(i as int + 1).drop_last() =~= all.take(i as int));
        assert(all.take(i as int + 1).last() == *item);
        match text_in(get(item, field)) {
            Some(t) => {
                let ghost before = r@;
                r.push(String::from_str(t));
                assert(r@.map_values(|s: String| s@) =~= before.map_values(|s: String| s@).push(t@));
            },
            None => {},
        }
        i = i + 1;
    }
    assert(all.take(all.len() as int) =~= all);
    r
}

/// What the gateway makes of an answer to a model-list request.
#[derive(Debug)]
pub enum ModelsAnswer {
    /// The live list.
    Live(Vec<String>),
    /// Ollama's answer did not read as JSON: ask the OpenAI-style API.
    TryHttp,
    /// Show the stored list, with this error.
    Cached(String),
}

/// A status code of success.
pub open spec fn is_success(code: u16) -> bool {
    200 <= code < 300
}

/// Ollama's answer to the model-list request: a connection error, or the
/// status code, the status text and the body read as JSON (`None` where it
/// does not read).  A successful answer gives the names of its "models";
/// an unreadable one sends the gateway to the OpenAI-style API.
pub fn ollama_answer(reply: Result<(u16, String, Option<JsonValue>), String>) -> (r: ModelsAnswer)
    ensures
        match reply {
            Err(e) => r matches ModelsAnswer::Cached(m) && m@ == "Ollama not reachable: "@ + e@,
            Ok((code, status, body)) => if !is_success(code) {
                r matches ModelsAnswer::Cached(m) && m@ == "Ollama returned HTTP "@ + status@
            } else {
                match body {
                    Some(v) => r matches ModelsAnswer::Live(ids)
                        && ids@.map_values(|s: String| s@) == listed_ids(v, "models"@, "name"@),
                    None => r is TryHttp,
                }
            },
        },
{
    match reply {
        Err(e) => {
            let mut m = String::from_str("Ollama not reachable: ");
            m.append(e.as_str());
            ModelsAnswer::Cached(m)
        },
        Ok((code, status, body)) => {
            if code < 200 || code >= 300 {
                let mut m = String::from_str("Ollama returned HTTP ");
                m.append(status.as_str());
                return ModelsAnswer::Cached(m);
            }
            match body {
                Some(v) => ModelsAnswer::Live(model_ids(&v, "models", "name")),
                None => ModelsAnswer::TryHttp,
            }
        },
    }
}

/// An OpenAI-style API's answer to the model-list request, read as for
/// `ollama_answer`: a successful answer gives the IDs of its "data", an
/// unreadable one is an error, and a failed one is reported with the start
/// of its body.
pub fn http_answer(reply: Result<(u16, String, String, Option<JsonValue>), String>) -> (r: ModelsAnswer)
    ensures
        match reply {
            Err(e) => r matches ModelsAnswer::Cached(m) && m@ == "Connection failed: "@ + e@,
            Ok((code, status, text, body)) => if !is_success(code) {
                r matches ModelsAnswer::Cached(m)
                    && m@ == "API returned HTTP "@ + status@ + ": "@ + first_chars(text@, 200)
            } else {
                match body {
                    Some(v) => r matches ModelsAnswer::Live(ids)
                        && ids@.map_values(|s: String| s@) == listed_ids(v, "data"@, "id"@),
                    None => r matches ModelsAnswer::Cached(m) && m@ == "Failed to parse models response"@,
                }
            },
        },
{
    match reply {
        Err(e) => {
            let mut m = String::from_str("Connection failed: ");
            m.append(e.as_str());
            ModelsAnswer::Cached(m)
        },
        Ok((code, status, text, body)) => {
            if code < 200 || code >= 300 {
                return ModelsAnswer::Cached(http_error_text(status.as_str(), text.as_str()));
            }
            match body {
                Some(v) => ModelsAnswer::Live(model_ids(&v, "data", "id")),
                None => ModelsAnswer::Cached(String::from_str("Failed to parse models response")),
            }
        },
    }
}

} // verus!
