//! Brain personalization from the dashboard: the request read from its
//! JSON, the JSON object cut out of the agent's answer, and the brain files
//! taken from that object.

use vstd::prelude::*;
use vstd::string::*;
use crate::json::{get, member, str_of, text_in, JsonValue};
use crate::text::{chars_of, occurs_at_exec, starts_with, starts_with_chars, string_from_chars, trim, trim_chars};

verus! {

/// What the user asked for.
#[derive(Debug, Clone)]
pub struct PersonalizeRequest {
    pub about_user: String,
    pub agent_vibe: String,
    pub agent_name: String,
    pub language: String,
    /// The tenant whose workspace receives the files; empty for the default.
    pub tenant: String,
}

/// A text member, or a default where it is missing or not text.
pub open spec fn text_or(v: JsonValue, key: Seq<char>, default: Seq<char>) -> Seq<char> {
    match str_of(member(v, key)) {
        Some(s) => s,
        None => default,
    }
}

fn member_text_or(v: &JsonValue, key: &str, default: &str) -> (r: String)
    ensures
        r@ == text_or(*v, key@, default@),
{
    match text_in(get(v, key)) {
        Some(s) => String::from_str(s),
        None => String::from_str(default),
    }
}

/// The request of a personalization call: "about_user" must be given; the
/// vibe defaults to "helpful and professional", the name to
/// "BizClaw Agent", the language to "vi" and the tenant to none.
pub fn personalize_request(body: &JsonValue) -> (r: Result<PersonalizeRequest, String>)
    ensures
        text_or(*body, "about_user"@, Seq::empty()).len() == 0
            ==> (r matches Err(e) && e@ == "Please describe yourself (about_user)"@),
        text_or(*body, "about_user"@, Seq::empty()).len() > 0 ==> (r matches Ok(q)
            && q.about_user@ == text_or(*body, "about_user"@, Seq::empty())
            && q.agent_vibe@ == text_or(*body, "agent_vibe"@, "helpful and professional"@)
            && q.agent_name@ == text_or(*body, "agent_name"@, "BizClaw Agent"@)
            && q.language@ == text_or(*body, "language"@, "vi"@)
            && q.tenant@ == text_or(*body, "tenant"@, Seq::empty())),
{
    proof {
        reveal_strlit("");
    }
    let about_user = member_text_or(body, "about_user", "");
    if about_user.as_str().is_empty() {
        return Err(String::from_str("Please describe yourself (about_user)"));
    }
    Ok(PersonalizeRequest {
        about_user,
        agent_vibe: member_text_or(body, "agent_vibe", "helpful and professional"),
        agent_name: member_text_or(body, "agent_name", "BizClaw Agent"),
        language: member_text_or(body, "language", "vi"),
        tenant: member_text_or(body, "tenant", ""),
    })
}

/// The request to the agent for the three brain files.
pub open spec fn personalize_prompt_text(q: PersonalizeRequest) -> Seq<char> {
    "You are a configuration assistant. Based on the user's description below, generate personalized brain files for an AI agent.\n\nUser describes themselves: \""@
        + q.about_user@ + "\"\nDesired agent personality/vibe: \""@
        + q.agent_vibe@ + "\"\nAgent name: \""@
        + q.agent_name@ + "\"\nLanguage: \""@
        + q.language@ + "\"\n\nGenerate EXACTLY these 3 files. Output as JSON with keys \"soul\", \"identity\", \"user\". Each value is the markdown content for that file.\n\nSOUL.md should define the agent's personality, tone, and behavioral rules based on the desired vibe.\nIDENTITY.md should define the agent's name, role, and style.\nUSER.md should capture key facts about the user for personalization.\n\nOutput ONLY valid JSON, no markdown fences."@
}

/// The request to the agent for the three brain files.
pub fn personalize_prompt(q: &PersonalizeRequest) -> (r: String)
    ensures
        r@ == personalize_prompt_text(*q),
{
    let mut r = String::from_str("You are a configuration assistant. Based on the user's description below, generate personalized brain files for an AI agent.\n\nUser describes themselves: \"");
    r.append(q.about_user.as_str());
    r.append("\"\nDesired agent personality/vibe: \"");
    r.append(q.agent_vibe.as_str());
    r.append("\"\nAgent name: \"");
    r.append(q.agent_name.as_str());
    r.append("\"\nLanguage: \"");
    r.append(q.language.as_str());
    r.append("\"\n\nGenerate EXACTLY these 3 files. Output as JSON with keys \"soul\", \"identity\", \"user\". Each value is the markdown content for that file.\n\nSOUL.md should define the agent's personality, tone, and behavioral rules based on the desired vibe.\nIDENTITY.md should define the agent's name, role, and style.\nUSER.md should capture key facts about the user for personalization.\n\nOutput ONLY valid JSON, no markdown fences.");
    r
}

/// `s` with `p` removed from its front as often as it stands there
/// (`str::trim_start_matches`).
pub open spec fn strip_prefixes(s: Seq<char>, p: Seq<char>) -> Seq<char>
    decreases s.len(),
{
    if p.len() > 0 && starts_with(s, p) {
        strip_prefixes(s.subrange(p.len() as int, s.len() as int), p)
    } else {
        s
    }
}

/// `s` with `p` removed from its end as often as it stands there
/// (`str::trim_end_matches`).
pub open spec fn strip_suffixes(s: Seq<char>, p: Seq<char>) -> Seq<char>
    decreases s.len(),
{
    if p.len() > 0 && p.len() <= s.len() && s.subrange(s.len() - p.len(), s.len() as int) == p {
        strip_suffixes(s.subrange(0, s.len() - p.len()), p)
    } else {
        s
    }
}

fn strip_prefixes_chars(s: &[char], p: &[char]) -> (r: Vec<char>)
    requires
        p.len() > 0,
    ensures
        r@ == strip_prefixes(s@, p@),
{
    let mut i: usize = 0;
    assert(s@.subrange(0, s@.len() as int) =~= s@);
    loop
        invariant
            i <= s.len(),
            p.len() > 0,
            strip_prefixes(s@.subrange(i as int, s.len() as int), p@) == strip_prefixes(s@, p@),
        decreases s.len() - i,
    {
        let ghost rest = s@.subrange(i as int, s.len() as int);
        let rest_vec = crate::text::skip_chars(s, i);
        if starts_with_chars(rest_vec.as_slice(), p) {
            assert(rest.subrange(p@.len() as int, rest.len() as int)
                =~= s@.subrange(i + p@.len(), s.len() as int));
            i = i + p.len();
        } else {
            return rest_vec;
        }
    }
}

fn strip_suffixes_chars(s: &[char], p: &[char]) -> (r: Vec<char>)
    requires
        p.len() > 0,
    ensures
        r@ == strip_suffixes(s@, p@),
{
    let mut e: usize = s.len();
    assert(s@.subrange(0, s@.len() as int) =~= s@);
    loop
        invariant
            e <= s.len(),
            p.len() > 0,
            strip_suffixes(s@.subrange(0, e as int), p@) == strip_suffixes(s@, p@),
        decreases e,
    {
        let ghost head = s@.subrange(0, e as int);
        let ends = p.len() <= e && occurs_at_exec(s, p, e - p.len());
        proof {
            if p.len() <= e {
                assert(head.subrange(head.len() - p@.len(), head.len() as int)
                    =~= s@.subrange(e - p@.len(), e as int));
            }
        }
        if ends {
            assert(head.subrange(0, head.len() - p@.len()) =~= s@.subrange(0, e - p.len()));
            e = e - p.len();
        } else {
            let mut r: Vec<char> = Vec::new();
            let mut i: usize = 0;
            while i < e
                invariant
                    i <= e <= s.len(),
                    r@ == s@.subrange(0, i as int),
                decreases e - i,
            {
                r.push(s[i]);
                assert(s@.subrange(0, i + 1) =~= s@.subrange(0, i as int).push(s@[i as int]));
                i = i + 1;
            }
            return r;
        }
    }
}

/// The answer without the Markdown fence that may wrap it: trimmed, every
/// leading "```json", then every leading "```" and every trailing "```"
/// removed, trimmed again.
pub open spec fn unfenced(s: Seq<char>) -> Seq<char> {
    trim(strip_suffixes(strip_prefixes(strip_prefixes(trim(s), "```json"@), "```"@), "```"@))
}

/// The agent's answer without its Markdown fence.
pub fn strip_code_fence(response: &str) -> (r: String)
    ensures
        r@ == unfenced(response@),
{
    proof {
        reveal_strlit("```json");
        reveal_strlit("```");
    }
    let cs = chars_of(response);
    let t = trim_chars(cs.as_slice());
    let json_fence = chars_of("```json");
    let fence = chars_of("```");
    let a = strip_prefixes_chars(t.as_slice(), json_fence.as_slice());
    let b = strip_prefixes_chars(a.as_slice(), fence.as_slice());
    let c = strip_suffixes_chars(b.as_slice(), fence.as_slice());
    let d = trim_chars(c.as_slice());
    string_from_chars(d.as_slice())
}

/// The position of the first `c` in `s`.
pub open spec fn first_pos(s: Seq<char>, c: char) -> Option<int>
    decreases s.len(),
{
    if s.len() == 0 {
        None
    } else if s[0] == c {
        Some(0)
    } else {
        match first_pos(s.drop_first(), c) {
            Some(i) => Some(i + 1),
            None => None,
        }
    }
}

/// The position of the last `c` in `s`.
pub open spec fn last_pos(s: Seq<char>, c: char) -> Option<int>
    decreases s.len(),
{
    if s.len() == 0 {
        None
    } else if s.last() == c {
        Some(s.len() - 1)
    } else {
        last_pos(s.drop_last(), c)
    }
}

proof fn lemma_first_pos(s: Seq<char>, c: char, i: int)
    requires
        0 <= i <= s.len(),
        forall|j: int| 0 <= j < i ==> s[j] != c,
        i < s.len() ==> s[i] == c,
    ensures
        first_pos(s, c) == (if i < s.len() { Some(i) } else { None::<int> }),
    decreases i,
{
    if i > 0 {
        let t = s.drop_first();
        assert forall|j: int| 0 <= j < i - 1 implies t[j] != c by {
            assert(t[j] == s[j + 1]);
        }
        lemma_first_pos(t, c, i - 1);
    }
}

proof fn lemma_last_pos(s: Seq<char>, c: char, k: int)
    requires
        0 <= k <= s.len(),
        forall|j: int| k <= j < s.len() ==> s[j] != c,
        k > 0 ==> s[k - 1] == c,
    ensures
        last_pos(s, c) == (if k > 0 { Some(k - 1) } else { None::<int> }),
    decreases s.len(),
{
    if s.len() > 0 && k < s.len() {
        let t = s.drop_last();
        assert forall|j: int| k <= j < t.len() implies t[j] != c by {
            assert(t[j] == s[j]);
        }
        lemma_last_pos(t, c, k);
    }
}

/// Where the JSON object of an answer starts: its first '{', or the start.
pub open spec fn object_start(s: Seq<char>) -> int {
    match first_pos(s, '{') {
        Some(i) => i,
        None => 0,
    }
}

/// Where the JSON object of an answer ends: after its last '}', or the end.
pub open spec fn object_end(s: Seq<char>) -> int {
    match last_pos(s, '}') {
        Some(i) => i + 1,
        None => s.len() as int,
    }
}

/// The part of an answer from its first '{' through its last '}', tried
/// when the whole answer is not JSON. The start must not lie after the
/// end.
pub fn object_candidate(s: &str) -> (r: String)
    requires
        object_start(s@) <= object_end(s@),
    ensures
        r@ == s@.subrange(object_start(s@), object_end(s@)),
{
    let cs = chars_of(s);
    let mut a: usize = 0;
    while a < cs.len() && cs[a] != '{'
        invariant
            a <= cs.len(),
            forall|j: int| 0 <= j < a ==> cs@[j] != '{',
        decreases cs.len() - a,
    {
        a = a + 1;
    }
    proof {
        lemma_first_pos(cs@, '{', a as int);
    }
    let start = if a < cs.len() { a } else { 0 };
    let mut k: usize = cs.len();
    while k > 0 && cs[k - 1] != '}'
        invariant
            k <= cs.len(),
            forall|j: int| k <= j < cs.len() ==> cs@[j] != '}',
        decreases k,
    {
        k = k - 1;
    }
    proof {
        lemma_last_pos(cs@, '}', k as int);
    }
    let end = if k > 0 { k } else { cs.len() };
    let mut r: Vec<char> = Vec::new();
    let mut i = start;
    while i < end
        invariant
            start <= i <= end <= cs.len(),
            r@ == cs@.subrange(start as int, i as int),
        decreases end - i,
    {
        r.push(cs[i]);
        assert(cs@.subrange(start as int, i + 1) =~= cs@.subrange(start as int, i as int).push(cs@[i as int]));
        i = i + 1;
    }
    string_from_chars(r.as_slice())
}

/// The brain files that the answer's JSON holds, as (file name, content):
/// SOUL.md from "soul", IDENTITY.md from "identity", USER.md from "user",
/// each where it is text.
pub open spec fn brain_files_of(parsed: JsonValue) -> Seq<(Seq<char>, Seq<char>)> {
    let one = |key: Seq<char>, file: Seq<char>| match str_of(member(parsed, key)) {
        Some(c) => seq![(file, c)],
        None => Seq::<(Seq<char>, Seq<char>)>::empty(),
    };
    one("soul"@, "SOUL.md"@) + one("identity"@, "IDENTITY.md"@) + one("user"@, "USER.md"@)
}

pub open spec fn file_views(fs: Seq<(String, String)>) -> Seq<(Seq<char>, Seq<char>)> {
    fs.map_values(|f: (String, String)| (f.0@, f.1@))
}

fn push_file(files: &mut Vec<(String, String)>, parsed: &JsonValue, key: &str, file: &str)
    ensures
        file_views(final(files)@) == file_views(old(files)@) + (match str_of(member(*parsed, key@)) {
            Some(c) => seq![(file@, c)],
            None => Seq::<(Seq<char>, Seq<char>)>::empty(),
        }),
{
    match text_in(get(parsed, key)) {
        Some(c) => {
            let ghost before = files@;
            files.push((String::from_str(file), String::from_str(c)));
            assert(file_views(files@) =~= file_views(before).push((file@, c@)));
            assert(file_views(before) + seq![(file@, c@)] =~= file_views(before).push((file@, c@)));
        },
        None => {
            assert(file_views(files@) + Seq::<(Seq<char>, Seq<char>)>::empty() =~= file_views(files@));
        },
    }
}

/// The brain files to write from the answer's JSON.
pub fn brain_files(parsed: &JsonValue) -> (r: Vec<(String, String)>)
    ensures
        file_views(r@) == brain_files_of(*parsed),
{
    let mut files: Vec<(String, String)> = Vec::new();
    assert(file_views(files@) =~= Seq::<(Seq<char>, Seq<char>)>::empty());
    push_file(&mut files, parsed, "soul", "SOUL.md");
    push_file(&mut files, parsed, "identity", "IDENTITY.md");
    push_file(&mut files, parsed, "user", "USER.md");
    assert(file_views(files@) =~= brain_files_of(*parsed));
    files
}

} // verus!
