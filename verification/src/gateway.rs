//! The gateway's decisions: database records, secret masking, pairing-code
//! authentication with brute-force lockout, and channel configuration
//! updates from the dashboard.

use vstd::prelude::*;
use vstd::string::*;
use vstd::utf8::*;
use crate::config::{
    ChannelConfig, DiscordChannelConfig, EmailChannelConfig, TelegramChannelConfig, ZaloChannelConfig,
};
use crate::conversation::{blen, byte_len, byte_prefix, prefix_bytes};
use crate::numparse::{
    id_values_i64, id_values_u64, parse_id_list_i64, parse_id_list_u64, parse_u16,
    parse_u16_chars, split_char, split_on,
};
use crate::adapters::or_empty;
use crate::json::{bool_in, bool_of, get, get_in, member, or_null, str_of, text_in, u64_in, u64_of, JsonValue};
use crate::text::{chars_of, starts_with, str_eq, string_from_chars, trim, trim_chars};

verus! {

broadcast use vstd::utf8::group_utf8_lib;

/// An LLM provider as stored in the gateway database.
#[derive(Debug, Clone)]
pub struct Provider {
    pub name: String,
    pub label: String,
    pub icon: String,
    /// "cloud", "local" or "proxy".
    pub provider_type: String,
    pub api_key: String,
    pub base_url: String,
    pub chat_path: String,
    pub models_path: String,
    /// "bearer" or "none".
    pub auth_style: String,
    /// Environment variables that may hold the API key.
    pub env_keys: Vec<String>,
    /// Known model IDs.
    pub models: Vec<String>,
    pub is_active: bool,
    pub enabled: bool,
    pub created_at: String,
    pub updated_at: String,
}

/// An agent as stored in the gateway database.
#[derive(Debug, Clone)]
pub struct AgentRecord {
    pub name: String,
    pub role: String,
    pub description: String,
    pub provider: String,
    pub model: String,
    pub system_prompt: String,
    pub enabled: bool,
    pub created_at: String,
    pub updated_at: String,
}

/// The settings that a configuration update from the dashboard sets; each
/// is `None` where the request leaves it as it is. Temperatures keep their
/// JSON number text.
#[derive(Debug, Clone)]
pub struct ConfigUpdate {
    pub default_provider: Option<String>,
    pub default_model: Option<String>,
    pub default_temperature: Option<String>,
    pub api_key: Option<String>,
    pub api_base_url: Option<String>,
    pub identity_name: Option<String>,
    pub identity_persona: Option<String>,
    pub identity_system_prompt: Option<String>,
    pub memory_backend: Option<String>,
    pub memory_auto_save: Option<bool>,
    pub autonomy_level: Option<String>,
    pub autonomy_workspace_only: Option<bool>,
    pub brain_enabled: Option<bool>,
    pub brain_model_path: Option<String>,
    pub brain_threads: Option<u32>,
    pub brain_max_tokens: Option<u32>,
    pub brain_context_length: Option<u32>,
    pub brain_temperature: Option<String>,
}

/// The number text of a JSON number.
pub open spec fn number_of(v: JsonValue) -> Option<Seq<char>> {
    match v {
        JsonValue::Number(t) => Some(t@),
        _ => None,
    }
}

/// An unsigned number cut to 32 bits, as `as u32` does.
pub open spec fn u32_of(v: JsonValue) -> Option<u32> {
    match u64_of(v) {
        Some(n) => Some(n as u32),
        None => None,
    }
}

fn text_at(v: Option<&JsonValue>, key: &str) -> (r: Option<String>)
    ensures
        opt_text_view(r) == str_of(member(or_null(v), key@)),
{
    match text_in(get_in(v, key)) {
        Some(s) => Some(String::from_str(s)),
        None => None,
    }
}

fn number_at(v: Option<&JsonValue>, key: &str) -> (r: Option<String>)
    ensures
        opt_text_view(r) == number_of(member(or_null(v), key@)),
{
    match get_in(v, key) {
        Some(JsonValue::Number(t)) => Some(t.clone()),
        _ => None,
    }
}

fn u32_at(v: Option<&JsonValue>, key: &str) -> (r: Option<u32>)
    ensures
        r == u32_of(member(or_null(v), key@)),
{
    match u64_in(get_in(v, key)) {
        Some(n) => Some(n as u32),
        None => None,
    }
}

/// What a configuration update request sets: the top-level provider,
/// model, temperature, key and base URL, and the members of its
/// "identity", "memory", "autonomy" and "brain" objects, each where it is
/// given with the right JSON type.
pub fn config_update(req: &JsonValue) -> (r: ConfigUpdate)
    ensures
        opt_text_view(r.default_provider) == str_of(member(*req, "default_provider"@)),
        opt_text_view(r.default_model) == str_of(member(*req, "default_model"@)),
        opt_text_view(r.default_temperature) == number_of(member(*req, "default_temperature"@)),
        opt_text_view(r.api_key) == str_of(member(*req, "api_key"@)),
        opt_text_view(r.api_base_url) == str_of(member(*req, "api_base_url"@)),
        opt_text_view(r.identity_name) == str_of(member(member(*req, "identity"@), "name"@)),
        opt_text_view(r.identity_persona) == str_of(member(member(*req, "identity"@), "persona"@)),
        opt_text_view(r.identity_system_prompt) == str_of(member(member(*req, "identity"@), "system_prompt"@)),
        opt_text_view(r.memory_backend) == str_of(member(member(*req, "memory"@), "backend"@)),
        r.memory_auto_save == bool_of(member(member(*req, "memory"@), "auto_save"@)),
        opt_text_view(r.autonomy_level) == str_of(member(member(*req, "autonomy"@), "level"@)),
        r.autonomy_workspace_only == bool_of(member(member(*req, "autonomy"@), "workspace_only"@)),
        r.brain_enabled == bool_of(member(member(*req, "brain"@), "enabled"@)),
        opt_text_view(r.brain_model_path) == str_of(member(member(*req, "brain"@), "model_path"@)),
        r.brain_threads == u32_of(member(member(*req, "brain"@), "threads"@)),
        r.brain_max_tokens == u32_of(member(member(*req, "brain"@), "max_tokens"@)),
        r.brain_context_length == u32_of(member(member(*req, "brain"@), "context_length"@)),
        opt_text_view(r.brain_temperature) == number_of(member(member(*req, "brain"@), "temperature"@)),
{
    let top = Some(req);
    let identity = get(req, "identity");
    let memory = get(req, "memory");
    let autonomy = get(req, "autonomy");
    let brain = get(req, "brain");
    ConfigUpdate {
        default_provider: text_at(top, "default_provider"),
        default_model: text_at(top, "default_model"),
        default_temperature: number_at(top, "default_temperature"),
        api_key: text_at(top, "api_key"),
        api_base_url: text_at(top, "api_base_url"),
        identity_name: text_at(identity, "name"),
        identity_persona: text_at(identity, "persona"),
        identity_system_prompt: text_at(identity, "system_prompt"),
        memory_backend: text_at(memory, "backend"),
        memory_auto_save: bool_in(get_in(memory, "auto_save")),
        autonomy_level: text_at(autonomy, "level"),
        autonomy_workspace_only: bool_in(get_in(autonomy, "workspace_only")),
        brain_enabled: bool_in(get_in(brain, "enabled")),
        brain_model_path: text_at(brain, "model_path"),
        brain_threads: u32_at(brain, "threads"),
        brain_max_tokens: u32_at(brain, "max_tokens"),
        brain_context_length: u32_at(brain, "context_length"),
        brain_temperature: number_at(brain, "temperature"),
    }
}

/// An agent that the dashboard asks to create.
#[derive(Debug, Clone)]
pub struct NewAgentRequest {
    pub name: String,
    pub role: String,
    pub description: String,
    /// A provider other than the configured one, where a non-empty one is
    /// given.
    pub provider: Option<String>,
    /// A model other than the configured one, where a non-empty one is given.
    pub model: Option<String>,
    pub persona: Option<String>,
    pub system_prompt: Option<String>,
}

pub open spec fn opt_text_view(o: Option<String>) -> Option<Seq<char>> {
    match o {
        Some(s) => Some(s@),
        None => None,
    }
}

/// A text member that is given and not empty.
pub open spec fn given_non_empty(v: JsonValue, key: Seq<char>) -> Option<Seq<char>> {
    match str_of(member(v, key)) {
        Some(s) => if s.len() > 0 { Some(s) } else { None },
        None => None,
    }
}

fn opt_member(body: &JsonValue, key: &str) -> (r: Option<String>)
    ensures
        opt_text_view(r) == str_of(member(*body, key@)),
{
    match text_in(get(body, key)) {
        Some(s) => Some(String::from_str(s)),
        None => None,
    }
}

fn non_empty_member(body: &JsonValue, key: &str) -> (r: Option<String>)
    ensures
        opt_text_view(r) == given_non_empty(*body, key@),
{
    match text_in(get(body, key)) {
        Some(s) => if s.is_empty() { None } else { Some(String::from_str(s)) },
        None => None,
    }
}

/// The agent a create request asks for: the name defaults to "agent", the
/// role to "assistant" and the description to "A helpful AI agent"; an
/// empty provider or model keeps the configured one.
pub fn new_agent_request(body: &JsonValue) -> (r: NewAgentRequest)
    ensures
        r.name@ == meta_text(*body, "name"@, "agent"@),
        r.role@ == meta_text(*body, "role"@, "assistant"@),
        r.description@ == meta_text(*body, "description"@, "A helpful AI agent"@),
        opt_text_view(r.provider) == given_non_empty(*body, "provider"@),
        opt_text_view(r.model) == given_non_empty(*body, "model"@),
        opt_text_view(r.persona) == str_of(member(*body, "persona"@)),
        opt_text_view(r.system_prompt) == str_of(member(*body, "system_prompt"@)),
{
    NewAgentRequest {
        name: meta_field(body, "name", "agent"),
        role: meta_field(body, "role", "assistant"),
        description: meta_field(body, "description", "A helpful AI agent"),
        provider: non_empty_member(body, "provider"),
        model: non_empty_member(body, "model"),
        persona: opt_member(body, "persona"),
        system_prompt: opt_member(body, "system_prompt"),
    }
}

/// An agent as saved in the legacy agents file, read for migration.
#[derive(Debug, Clone)]
pub struct AgentMeta {
    pub name: String,
    pub role: String,
    pub description: String,
    pub provider: String,
    pub model: String,
    pub system_prompt: String,
}

/// A text member, or a default.
pub open spec fn meta_text(v: JsonValue, key: Seq<char>, default: Seq<char>) -> Seq<char> {
    match str_of(member(v, key)) {
        Some(s) => s,
        None => default,
    }
}

/// The agents of a legacy agents file that are migrated: those with a
/// non-empty name, in order; the role defaults to "assistant", the other
/// fields to empty.
pub open spec fn migrated(es: Seq<JsonValue>) -> Seq<(Seq<char>, Seq<char>, Seq<char>, Seq<char>, Seq<char>, Seq<char>)>
    decreases es.len(),
{
    if es.len() == 0 {
        Seq::empty()
    } else {
        let e = es.last();
        let rest = migrated(es.drop_last());
        if meta_text(e, "name"@, Seq::empty()).len() > 0 {
            rest.push((meta_text(e, "name"@, Seq::empty()), meta_text(e, "role"@, "assistant"@),
                meta_text(e, "description"@, Seq::empty()), meta_text(e, "provider"@, Seq::empty()),
                meta_text(e, "model"@, Seq::empty()), meta_text(e, "system_prompt"@, Seq::empty())))
        } else {
            rest
        }
    }
}

pub open spec fn meta_view(m: AgentMeta) -> (Seq<char>, Seq<char>, Seq<char>, Seq<char>, Seq<char>, Seq<char>) {
    (m.name@, m.role@, m.description@, m.provider@, m.model@, m.system_prompt@)
}

fn meta_field(v: &JsonValue, key: &str, default: &str) -> (r: String)
    ensures
        r@ == meta_text(*v, key@, default@),
{
    match text_in(get(v, key)) {
        Some(s) => String::from_str(s),
        None => String::from_str(default),
    }
}

/// The agents to migrate from a legacy agents file.
pub fn migrated_agents(es: &[JsonValue]) -> (r: Vec<AgentMeta>)
    ensures
        r@.map_values(|m: AgentMeta| meta_view(m)) == migrated(es@),
{
    proof {
        reveal_strlit("");
    }
    let mut out: Vec<AgentMeta> = Vec::new();
    let mut i: usize = 0;
    assert(es@.take(0) =~= Seq::<JsonValue>::empty());
    assert(out@.map_values(|m: AgentMeta| meta_view(m)) =~= migrated(es@.take(0)));
    while i < es.len()
        invariant
            i <= es.len(),
            ""@ == Seq::<char>::empty(),
            out@.map_values(|m: AgentMeta| meta_view(m)) == migrated(es@.take(i as int)),
        decreases es.len() - i,
    {
        let e = &es[i];
        assert(es@.take(i + 1).drop_last() =~= es@.take(i as int));
        assert(es@.take(i + 1).last() == *e);
        let name = meta_field(e, "name", "");
        if !name.as_str().is_empty() {
            let m = AgentMeta {
                name,
                role: meta_field(e, "role", "assistant"),
                description: meta_field(e, "description", ""),
                provider: meta_field(e, "provider", ""),
                model: meta_field(e, "model", ""),
                system_prompt: meta_field(e, "system_prompt", ""),
            };
            let ghost before = out@;
            out.push(m);
            assert(out@.map_values(|x: AgentMeta| meta_view(x))
                =~= before.map_values(|x: AgentMeta| meta_view(x)).push(meta_view(m)));
        }
        i = i + 1;
    }
    assert(es@.take(es.len() as int) =~= es@);
    out
}

/// A channel instance bound to an agent.
#[derive(Debug, Clone)]
pub struct AgentChannelBinding {
    pub agent_name: String,
    pub channel_type: String,
    pub instance_id: String,
}

/// The dots that stand for hidden characters.
pub open spec fn mask_dots() -> Seq<char> {
    "••••"@
}

/// A secret as the dashboard shows it: empty stays empty, up to four
/// characters become four dots, a longer one shows its first four
/// characters and four dots.
pub open spec fn masked(s: Seq<char>) -> Seq<char> {
    if s.len() == 0 {
        Seq::empty()
    } else if s.len() <= 4 {
        mask_dots()
    } else {
        s.take(4) + mask_dots()
    }
}

/// Masks a secret for display: its first four characters and four dots.
pub fn mask_secret(s: &str) -> (r: String)
    ensures
        r@ == masked(s@),
{
    let cs = chars_of(s);
    if cs.len() == 0 {
        return String::new();
    }
    if cs.len() <= 4 {
        return String::from_str("••••");
    }
    let head = string_from_chars(&cs.as_slice()[0..4]);
    let mut r = head;
    r.append("••••");
    r
}

/// Compares two strings byte by byte without stopping at the first
/// difference.
pub fn constant_time_eq(a: &str, b: &str) -> (r: bool)
    ensures
        r == (a@ == b@),
{
    let x = a.as_bytes();
    let y = b.as_bytes();
    if x.len() != y.len() {
        proof {
            if a@ == b@ {
                assert(x@ == y@);
            }
        }
        return false;
    }
    let mut acc: u8 = 0;
    let mut i: usize = 0;
    while i < x.len()
        invariant
            i <= x.len(),
            x.len() == y.len(),
            (acc == 0) == (forall|j: int| 0 <= j < i ==> x@[j] == y@[j]),
        decreases x.len() - i,
    {
        let p = x[i];
        let q = y[i];
        let next = acc | (p ^ q);
        assert((next == 0) == (acc == 0 && p == q)) by (bit_vector)
            requires next == acc | (p ^ q);
        acc = next;
        i = i + 1;
    }
    proof {
        if acc == 0 {
            assert(x@ =~= y@);
            decode_utf8_encode_utf8(x@);
            encode_utf8_decode_utf8(a@);
            encode_utf8_decode_utf8(b@);
        } else {
            if a@ == b@ {
                assert(x@ == y@);
                let j = choose|j: int| 0 <= j < x.len() && !(x@[j] == y@[j]);
            }
        }
    }
    acc == 0
}

/// Failed attempts after which pairing is locked for a while.
pub const MAX_AUTH_FAILURES: u32 = 5;

/// Seconds that a lockout lasts after the last failed attempt.
pub const LOCKOUT_SECS: u64 = 60;

/// The outcome of checking a request's pairing code.
#[derive(Debug, Clone, Copy, PartialEq, Eq, Structural)]
pub enum AuthDecision {
    /// The request goes on.
    Allow,
    /// Too many recent failures (HTTP 429, retry after 60 seconds).
    LockedOut,
    /// Wrong or missing code (HTTP 401).
    Unauthorized,
}

/// Whether the query string holds a `code=` pair whose value is `expected`.
pub open spec fn query_has_code(query: Seq<char>, expected: Seq<char>) -> bool {
    exists|i: int| 0 <= i < split_on(query, '&').len()
        && starts_with(#[trigger] split_on(query, '&')[i], "code="@)
        && split_on(query, '&')[i].skip(5) == expected
}

/// Whether a query string holds `code=<expected>`.
pub fn query_code_matches(query: &str, expected: &str) -> (r: bool)
    ensures
        r == query_has_code(query@, expected@),
{
    proof {
        reveal_strlit("code=");
    }
    let cs = chars_of(query);
    let pairs = split_char(cs.as_slice(), '&');
    let ghost pv = pairs@.map_values(|p: Vec<char>| p@);
    let prefix = chars_of("code=");
    let want = chars_of(expected);
    let mut i: usize = 0;
    while i < pairs.len()
        invariant
            i <= pairs.len(),
            pv == pairs@.map_values(|p: Vec<char>| p@),
            pv == split_on(query@, '&'),
            prefix@ == "code="@,
            prefix@.len() == 5,
            want@ == expected@,
            forall|j: int| 0 <= j < i ==> !(starts_with(#[trigger] pv[j], "code="@) && pv[j].skip(5) == expected@),
        decreases pairs.len() - i,
    {
        let p = &pairs[i];
        assert(pv[i as int] == p@);
        if crate::text::starts_with_chars(p.as_slice(), prefix.as_slice()) {
            let rest = crate::text::skip_chars(p.as_slice(), 5);
            if crate::text::chars_eq(rest.as_slice(), want.as_slice()) {
                return true;
            }
        }
        i = i + 1;
    }
    false
}

/// Brute-force protection of the pairing code: the number of failed
/// attempts and the time of the last one, in seconds.
pub struct AuthGuard {
    failures: u32,
    last_failed_at: u64,
}

impl AuthGuard {
    pub closed spec fn failure_count(self) -> u32 {
        self.failures
    }

    pub closed spec fn last_failure(self) -> u64 {
        self.last_failed_at
    }

    /// No failures yet; `now` is the current time in seconds.
    pub fn new(now: u64) -> (r: Self)
        ensures
            r.failure_count() == 0,
            r.last_failure() == now,
    {
        AuthGuard { failures: 0, last_failed_at: now }
    }

    /// Failed attempts counted so far.
    pub fn failures(&self) -> (r: u32)
        ensures
            r == self.failure_count(),
    {
        self.failures
    }

    /// Whether the guard refuses requests at time `now`.
    pub open spec fn locked_at(self, now: u64) -> bool {
        self.failure_count() >= MAX_AUTH_FAILURES && now - self.last_failure() < LOCKOUT_SECS
    }

    /// Checks a request at time `now` against the configured pairing code:
    /// no code configured lets everything through; a lockout refuses; the
    /// code in the header lets the request through and clears the failures;
    /// `code=<code>` in the query lets it through; anything else counts as
    /// a failure.
    pub fn check(&mut self, expected: Option<&str>, header_code: &str, query: Option<&str>, now: u64) -> (r: AuthDecision)
        requires
            old(self).failure_count() < u32::MAX,
        ensures
            ({
                let o = *old(self);
                match expected {
                    None => r == AuthDecision::Allow && final(self).failure_count() == o.failure_count()
                        && final(self).last_failure() == o.last_failure(),
                    Some(code) => if o.locked_at(now) {
                        r == AuthDecision::LockedOut && final(self).failure_count() == o.failure_count()
                            && final(self).last_failure() == o.last_failure()
                    } else if header_code@ == code@ {
                        r == AuthDecision::Allow && final(self).failure_count() == 0
                            && final(self).last_failure() == now
                    } else if query matches Some(q) && query_has_code(q@, code@) {
                        r == AuthDecision::Allow && final(self).failure_count() == o.failure_count()
                            && final(self).last_failure() == o.last_failure()
                    } else {
                        r == AuthDecision::Unauthorized && final(self).failure_count() == o.failure_count() + 1
                            && final(self).last_failure() == now
                    },
                }
            }),
    {
        let code = match expected {
            None => return AuthDecision::Allow,
            Some(c) => c,
        };
        if self.failures >= MAX_AUTH_FAILURES && (now < self.last_failed_at || now - self.last_failed_at < LOCKOUT_SECS) {
            return AuthDecision::LockedOut;
        }
        if constant_time_eq(header_code, code) {
            self.failures = 0;
            self.last_failed_at = now;
            return AuthDecision::Allow;
        }
        if let Some(q) = query {
            if query_code_matches(q, code) {
                return AuthDecision::Allow;
            }
        }
        self.failures = self.failures + 1;
        self.last_failed_at = now;
        AuthDecision::Unauthorized
    }
}

/// The answer of the pairing-code check endpoint: any code passes when none
/// is configured.
pub fn verify_pairing(code: &str, expected: Option<&str>) -> (r: bool)
    ensures
        r == (match expected {
            Some(e) => code@ == e@,
            None => true,
        }),
{
    match expected {
        Some(e) => constant_time_eq(code, e),
        None => true,
    }
}

/// A channel update submitted from the dashboard, as plain values: each
/// field is the string (or flag) sent under its name, if one was sent.
#[derive(Debug, Clone)]
pub struct ChannelUpdate {
    /// "telegram", "zalo", "discord" or "email".
    pub channel_type: String,
    pub enabled: Option<bool>,
    pub bot_token: Option<String>,
    /// Comma-separated Telegram chat IDs.
    pub allowed_chat_ids: Option<String>,
    /// Comma-separated Discord channel IDs.
    pub allowed_channel_ids: Option<String>,
    /// Where a submitted Zalo cookie was stored.
    pub cookie_path: Option<String>,
    pub imei: Option<String>,
    pub smtp_host: Option<String>,
    pub smtp_port: Option<String>,
    pub smtp_user: Option<String>,
    pub smtp_pass: Option<String>,
    pub imap_host: Option<String>,
}

/// The text sent, or empty.
pub open spec fn sent(o: Option<String>) -> Seq<char> {
    match o {
        Some(s) => s@,
        None => Seq::empty(),
    }
}

/// A secret field: a submitted value holding the mask dot keeps the stored
/// secret (empty when there is none); any other value replaces it.
pub open spec fn kept_secret(submitted: Seq<char>, stored: Option<Seq<char>>) -> Seq<char> {
    if submitted.contains('•') {
        match stored {
            Some(s) => s,
            None => Seq::empty(),
        }
    } else {
        submitted
    }
}

/// The Telegram section after an update.
pub open spec fn telegram_updated(old: ChannelConfig, new: ChannelConfig, req: ChannelUpdate) -> bool {
    &&& new.zalo == old.zalo && new.discord == old.discord && new.email == old.email
    &&& new.telegram matches Some(t) && {
        &&& t.enabled == req.enabled.unwrap_or(false)
        &&& t.bot_token@ == kept_secret(sent(req.bot_token), match old.telegram {
            Some(o) => Some(o.bot_token@),
            None => None,
        })
        &&& t.allowed_chat_ids@ == id_values_i64(split_on(sent(req.allowed_chat_ids), ','))
    }
}

/// The Discord section after an update.
pub open spec fn discord_updated(old: ChannelConfig, new: ChannelConfig, req: ChannelUpdate) -> bool {
    &&& new.zalo == old.zalo && new.telegram == old.telegram && new.email == old.email
    &&& new.discord matches Some(d) && {
        &&& d.enabled == req.enabled.unwrap_or(false)
        &&& d.bot_token@ == kept_secret(sent(req.bot_token), match old.discord {
            Some(o) => Some(o.bot_token@),
            None => None,
        })
        &&& d.allowed_channel_ids@ == id_values_u64(split_on(sent(req.allowed_channel_ids), ','))
    }
}

/// The SMTP port sent, read as a `u16`; 587 when none was sent or it does
/// not read.
pub open spec fn smtp_port_of(req: ChannelUpdate) -> u16 {
    let text = match req.smtp_port {
        Some(p) => p@,
        None => "587"@,
    };
    match parse_u16(text) {
        Some(v) => v,
        None => 587,
    }
}

/// The email section after an update.
pub open spec fn email_updated(old: ChannelConfig, new: ChannelConfig, req: ChannelUpdate) -> bool {
    &&& new.zalo == old.zalo && new.telegram == old.telegram && new.discord == old.discord
    &&& new.email matches Some(e) && {
        &&& e.enabled == req.enabled.unwrap_or(false)
        &&& e.smtp_host@ == sent(req.smtp_host)
        &&& e.smtp_port == smtp_port_of(req)
        &&& e.email@ == sent(req.smtp_user)
        &&& e.password@ == kept_secret(sent(req.smtp_pass), match old.email {
            Some(o) => Some(o.password@),
            None => None,
        })
        &&& e.imap_host@ == sent(req.imap_host)
        &&& e.imap_port == 993
    }
}

/// The Zalo settings other than the flag, the cookie path and the IMEI
/// are those of `b`.
pub open spec fn zalo_rest_same(z: ZaloChannelConfig, b: ZaloChannelConfig) -> bool {
    &&& z.mode == b.mode
    &&& z.rate_limit == b.rate_limit
    &&& z.allowlist == b.allowlist
    &&& z.personal.user_agent == b.personal.user_agent
    &&& z.personal.self_listen == b.personal.self_listen
    &&& z.personal.auto_reconnect == b.personal.auto_reconnect
    &&& z.personal.reconnect_delay_ms == b.personal.reconnect_delay_ms
    &&& z.personal.proxy == b.personal.proxy
}

/// The Zalo settings other than the flag, the cookie path and the IMEI
/// are the defaults.
pub open spec fn zalo_rest_default(z: ZaloChannelConfig) -> bool {
    &&& z.mode@ == "personal"@
    &&& z.rate_limit.max_messages_per_minute == 20
    &&& z.rate_limit.max_messages_per_hour == 200
    &&& z.rate_limit.cooldown_on_error_ms == 30000
    &&& z.allowlist.user_ids@.len() == 0
    &&& z.allowlist.group_ids@.len() == 0
    &&& z.allowlist.block_strangers
    &&& z.personal.user_agent@ == Seq::<char>::empty()
    &&& !z.personal.self_listen
    &&& z.personal.auto_reconnect
    &&& z.personal.reconnect_delay_ms == 5000
    &&& z.personal.proxy@ == Seq::<char>::empty()
}

/// The Zalo section after an update: the stored section (or the default
/// one) with the flag set and the cookie path and IMEI replaced where sent.
pub open spec fn zalo_updated(old: ChannelConfig, new: ChannelConfig, req: ChannelUpdate) -> bool {
    &&& new.telegram == old.telegram && new.discord == old.discord && new.email == old.email
    &&& new.zalo matches Some(z) && {
        &&& z.enabled == req.enabled.unwrap_or(false)
        &&& z.personal.cookie_path@ == match req.cookie_path {
            Some(p) => p@,
            None => match old.zalo {
                Some(b) => b.personal.cookie_path@,
                None => "~/.bizclaw/zalo/cookie.json"@,
            },
        }
        &&& z.personal.imei@ == match req.imei {
            Some(i) => i@,
            None => match old.zalo {
                Some(b) => b.personal.imei@,
                None => Seq::empty(),
            },
        }
        &&& match old.zalo {
            Some(b) => zalo_rest_same(z, b),
            None => zalo_rest_default(z),
        }
    }
}

fn sent_text(o: &Option<String>) -> (r: &str)
    ensures
        r@ == sent(*o),
{
    match o {
        Some(s) => s.as_str(),
        None => {
            proof {
                reveal_strlit("");
            }
            ""
        },
    }
}

fn has_mask_dot(s: &str) -> (r: bool)
    ensures
        r == s@.contains('•'),
{
    let cs = chars_of(s);
    let mut i: usize = 0;
    while i < cs.len()
        invariant
            i <= cs.len(),
            cs@ == s@,
            forall|j: int| 0 <= j < i ==> cs@[j] != '•',
        decreases cs.len() - i,
    {
        if cs[i] == '•' {
            assert(s@[i as int] == '•');
            return true;
        }
        i = i + 1;
    }
    false
}

fn keep_secret(submitted: &str, stored: Option<&String>) -> (r: String)
    ensures
        r@ == kept_secret(submitted@, match stored {
            Some(s) => Some(s@),
            None => None,
        }),
{
    if has_mask_dot(submitted) {
        match stored {
            Some(s) => String::from_str(s.as_str()),
            None => String::new(),
        }
    } else {
        String::from_str(submitted)
    }
}

/// Applies a channel update from the dashboard to the channel settings;
/// an unknown channel type is an error and changes nothing.
pub fn apply_channel_update(channels: &mut ChannelConfig, req: &ChannelUpdate) -> (r: Result<(), String>)
    ensures
        req.channel_type@ == "telegram"@ ==> r is Ok && telegram_updated(*old(channels), *final(channels), *req),
        req.channel_type@ == "discord"@ ==> r is Ok && discord_updated(*old(channels), *final(channels), *req),
        req.channel_type@ == "email"@ ==> r is Ok && email_updated(*old(channels), *final(channels), *req),
        req.channel_type@ == "zalo"@ ==> r is Ok && zalo_updated(*old(channels), *final(channels), *req),
        !(req.channel_type@ == "telegram"@ || req.channel_type@ == "discord"@ || req.channel_type@ == "email"@
            || req.channel_type@ == "zalo"@) ==> (*final(channels) == *old(channels)
            && (r matches Err(e) && e@ == "Unknown channel: "@ + req.channel_type@)),
{
    proof {
        reveal_strlit("telegram");
        reveal_strlit("discord");
        reveal_strlit("email");
        reveal_strlit("zalo");
        assert("telegram"@.len() == 8 && "discord"@.len() == 7);
        assert("email"@.len() == 5 && "zalo"@.len() == 4);
    }
    let kind = req.channel_type.as_str();
    let enabled = match req.enabled {
        Some(b) => b,
        None => false,
    };
    if str_eq(kind, "telegram") {
        let stored = match &channels.telegram {
            Some(t) => Some(&t.bot_token),
            None => None,
        };
        let bot_token = keep_secret(sent_text(&req.bot_token), stored);
        let ids = parse_id_list_i64(sent_text(&req.allowed_chat_ids));
        channels.telegram = Some(TelegramChannelConfig { enabled, bot_token, allowed_chat_ids: ids });
        Ok(())
    } else if str_eq(kind, "discord") {
        let stored = match &channels.discord {
            Some(d) => Some(&d.bot_token),
            None => None,
        };
        let bot_token = keep_secret(sent_text(&req.bot_token), stored);
        let ids = parse_id_list_u64(sent_text(&req.allowed_channel_ids));
        channels.discord = Some(DiscordChannelConfig { enabled, bot_token, allowed_channel_ids: ids });
        Ok(())
    } else if str_eq(kind, "email") {
        let port_text = match &req.smtp_port {
            Some(p) => p.as_str(),
            None => "587",
        };
        let pc = chars_of(port_text);
        let smtp_port = match parse_u16_chars(pc.as_slice()) {
            Some(v) => v,
            None => 587,
        };
        let stored = match &channels.email {
            Some(e) => Some(&e.password),
            None => None,
        };
        let password = keep_secret(sent_text(&req.smtp_pass), stored);
        channels.email = Some(EmailChannelConfig {
            enabled,
            imap_host: String::from_str(sent_text(&req.imap_host)),
            imap_port: 993,
            smtp_host: String::from_str(sent_text(&req.smtp_host)),
            smtp_port,
            email: String::from_str(sent_text(&req.smtp_user)),
            password,
        });
        Ok(())
    } else if str_eq(kind, "zalo") {
        let mut z = match channels.zalo.take() {
            Some(z) => z,
            None => ZaloChannelConfig::default(),
        };
        z.enabled = enabled;
        if let Some(p) = &req.cookie_path {
            z.personal.cookie_path = String::from_str(p.as_str());
        }
        if let Some(i) = &req.imei {
            z.personal.imei = String::from_str(i.as_str());
        }
        channels.zalo = Some(z);
        Ok(())
    } else {
        let mut e = String::from_str("Unknown channel: ");
        e.append(kind);
        Err(e)
    }
}

/// The LLM settings an agent is built with.
#[derive(Debug, Clone)]
pub struct LlmSettings {
    pub provider: String,
    pub model: String,
    pub api_key: String,
    /// API endpoint; empty for the provider's usual one.
    pub api_base_url: String,
    pub system_prompt: String,
    /// The agent's name.
    pub name: String,
}

/// Whether a provider runs locally or behind a proxy, so that its own
/// address always applies.
pub open spec fn local_kind(t: Seq<char>) -> bool {
    t == "local"@ || t == "proxy"@
}

/// The settings after taking the provider's stored key and address: a
/// stored key replaces the key; a local or proxy provider's stored address
/// replaces the endpoint, a cloud provider's only fills an empty one.
pub open spec fn with_provider_row(s: LlmSettings, p: Provider, n: LlmSettings) -> bool {
    &&& n.provider == s.provider && n.model == s.model && n.system_prompt == s.system_prompt && n.name == s.name
    &&& n.api_key@ == (if p.api_key@.len() > 0 { p.api_key@ } else { s.api_key@ })
    &&& n.api_base_url@ == (if local_kind(p.provider_type@) {
        if p.base_url@.len() > 0 { p.base_url@ } else { s.api_base_url@ }
    } else if p.base_url@.len() > 0 && s.api_base_url@.len() == 0 {
        p.base_url@
    } else {
        s.api_base_url@
    })
}

/// The trimmed "bot_token" of a connect request, "" where it is absent or
/// not a string.
pub open spec fn requested_bot_token(body: JsonValue) -> Seq<char> {
    match str_of(member(body, "bot_token"@)) {
        Some(t) => trim(t),
        None => trim(Seq::empty()),
    }
}

/// The checks before a Telegram bot is connected to an agent: the trimmed
/// bot token must not be empty, and the agent must be one of `agents`.
/// Gives the token to verify with Telegram.
pub fn telegram_connect_check(body: &JsonValue, agent_name: &str, agents: &Vec<String>) -> (r: Result<String, String>)
    ensures
        requested_bot_token(*body).len() == 0 ==> (r matches Err(e) && e@ == "bot_token is required"@),
        requested_bot_token(*body).len() > 0 && !agents@.map_values(|a: String| a@).contains(agent_name@)
            ==> (r matches Err(e) && e@ == "Agent '"@ + agent_name@ + "' not found"@),
        requested_bot_token(*body).len() > 0 && agents@.map_values(|a: String| a@).contains(agent_name@)
            ==> (r matches Ok(t) && t@ == requested_bot_token(*body)),
{
    let raw: &str = match text_in(get(body, "bot_token")) {
        Some(t) => t,
        None => "",
    };
    proof {
        reveal_strlit("");
    }
    let cs = chars_of(raw);
    let t = trim_chars(cs.as_slice());
    assert(t@ == requested_bot_token(*body));
    if t.len() == 0 {
        return Err(String::from_str("bot_token is required"));
    }
    let mut i: usize = 0;
    while i < agents.len()
        invariant
            i <= agents.len(),
            t@ == requested_bot_token(*body),
            t@.len() > 0,
            forall|j: int| 0 <= j < i ==> agents@[j]@ != agent_name@,
        decreases agents.len() - i,
    {
        if str_eq(agents[i].as_str(), agent_name) {
            assert(agents@.map_values(|a: String| a@)[i as int] == agent_name@);
            return Ok(string_from_chars(t.as_slice()));
        }
        i = i + 1;
    }
    assert(!agents@.map_values(|a: String| a@).contains(agent_name@)) by {
        if agents@.map_values(|a: String| a@).contains(agent_name@) {
            let names = agents@.map_values(|a: String| a@);
            let k = choose|k: int| 0 <= k < names.len() && #[trigger] names[k] == agent_name@;
            assert(agents@[k]@ != agent_name@);
        }
    }
    let mut e = String::from_str("Agent '");
    e.append(agent_name);
    e.append("' not found");
    Err(e)
}


/// Takes the stored key and address of the agent's provider (the database
/// row of that provider, when there is one).
pub fn apply_provider_row(s: &mut LlmSettings, row: Option<&Provider>)
    ensures
        row matches Some(p) ==> with_provider_row(*old(s), *p, *final(s)),
        row is None ==> *final(s) == *old(s),
{
    proof {
        reveal_strlit("local");
        reveal_strlit("proxy");
    }
    if let Some(p) = row {
        if !p.api_key.as_str().is_empty() {
            s.api_key = String::from_str(p.api_key.as_str());
        }
        let local = str_eq(p.provider_type.as_str(), "local") || str_eq(p.provider_type.as_str(), "proxy");
        if local {
            if !p.base_url.as_str().is_empty() {
                s.api_base_url = String::from_str(p.base_url.as_str());
            }
        } else if !p.base_url.as_str().is_empty() && s.api_base_url.as_str().is_empty() {
            s.api_base_url = String::from_str(p.base_url.as_str());
        }
    }
}

/// A stored agent's settings on top of the global ones: its provider, model
/// and prompt where it has them, and its name.
pub fn settings_for_record(global: &LlmSettings, rec: &AgentRecord) -> (r: LlmSettings)
    ensures
        r.provider@ == (if rec.provider@.len() > 0 { rec.provider@ } else { global.provider@ }),
        r.model@ == (if rec.model@.len() > 0 { rec.model@ } else { global.model@ }),
        r.system_prompt@ == (if rec.system_prompt@.len() > 0 { rec.system_prompt@ } else { global.system_prompt@ }),
        r.name@ == rec.name@,
        r.api_key@ == global.api_key@,
        r.api_base_url@ == global.api_base_url@,
{
    let pick = |a: &String, b: &String| -> (r: String)
        ensures
            r@ == (if a@.len() > 0 { a@ } else { b@ }),
    {
        if a.as_str().is_empty() { String::from_str(b.as_str()) } else { String::from_str(a.as_str()) }
    };
    LlmSettings {
        provider: pick(&rec.provider, &global.provider),
        model: pick(&rec.model, &global.model),
        api_key: String::from_str(global.api_key.as_str()),
        api_base_url: String::from_str(global.api_base_url.as_str()),
        system_prompt: pick(&rec.system_prompt, &global.system_prompt),
        name: String::from_str(rec.name.as_str()),
    }
}

/// The settings an agent is rebuilt with when an update changes its
/// provider or model: the global ones, with the live agent's provider,
/// model and prompt where it runs, then the provider and model asked for
/// where they are not empty and the prompt asked for where there is one,
/// and the agent's name.
pub fn recreate_settings(
    global: &LlmSettings,
    live: Option<(&str, &str, &str)>,
    provider: Option<&str>,
    model: Option<&str>,
    prompt: Option<&str>,
    name: &str,
) -> (r: LlmSettings)
    ensures
        r.provider@ == (match provider {
            Some(p) if p@.len() > 0 => p@,
            _ => match live { Some(l) => l.0@, None => global.provider@ },
        }),
        r.model@ == (match model {
            Some(m) if m@.len() > 0 => m@,
            _ => match live { Some(l) => l.1@, None => global.model@ },
        }),
        r.system_prompt@ == (match prompt {
            Some(sp) => sp@,
            None => match live { Some(l) => l.2@, None => global.system_prompt@ },
        }),
        r.name@ == name@,
        r.api_key@ == global.api_key@,
        r.api_base_url@ == global.api_base_url@,
{
    let (mut p, mut m, mut sp) = match live {
        Some((lp, lm, ls)) => (String::from_str(lp), String::from_str(lm), String::from_str(ls)),
        None => (
            String::from_str(global.provider.as_str()),
            String::from_str(global.model.as_str()),
            String::from_str(global.system_prompt.as_str()),
        ),
    };
    if let Some(v) = provider {
        if !v.is_empty() {
            p = String::from_str(v);
        }
    }
    if let Some(v) = model {
        if !v.is_empty() {
            m = String::from_str(v);
        }
    }
    if let Some(v) = prompt {
        sp = String::from_str(v);
    }
    LlmSettings {
        provider: p,
        model: m,
        api_key: String::from_str(global.api_key.as_str()),
        api_base_url: String::from_str(global.api_base_url.as_str()),
        system_prompt: sp,
        name: String::from_str(name),
    }
}

/// A requested value that is set and differs from the current one.
pub open spec fn changes(req: Option<Seq<char>>, cur: Seq<char>) -> bool {
    req matches Some(v) && v.len() > 0 && v != cur
}

pub open spec fn opt_str_view(o: Option<&str>) -> Option<Seq<char>> {
    match o {
        Some(s) => Some(s@),
        None => None,
    }
}

/// Whether an agent update must rebuild the agent: the provider or the
/// model asked for is set and differs from the current one.
pub fn needs_recreate(provider: Option<&str>, model: Option<&str>, cur_provider: &str, cur_model: &str) -> (r: bool)
    ensures
        r == (changes(opt_str_view(provider), cur_provider@) || changes(opt_str_view(model), cur_model@)),
{
    let p = match provider {
        Some(v) => !v.is_empty() && !str_eq(v, cur_provider),
        None => false,
    };
    let m = match model {
        Some(v) => !v.is_empty() && !str_eq(v, cur_model),
        None => false,
    };
    p || m
}

/// Whether an agent update sets the system prompt of the live agent: no
/// rebuild is due and a different, non-empty prompt was sent.
pub fn prompt_changes_in_place(prompt: Option<&str>, current: &str, recreate: bool) -> (r: bool)
    ensures
        r == (!recreate && changes(opt_str_view(prompt), current@)),
{
    if recreate {
        return false;
    }
    match prompt {
        Some(v) => !v.is_empty() && !str_eq(v, current),
        None => false,
    }
}

/// The value stored for an agent field: the one sent, else the live
/// agent's, else the stored one (the live and stored ones only when not
/// empty, if `skip_empty`), else empty.
pub open spec fn chosen_field(sent: Option<Seq<char>>, live: Option<Seq<char>>, stored: Option<Seq<char>>, skip_empty: bool) -> Seq<char> {
    match sent {
        Some(v) => v,
        None => match live {
            Some(v) if !(skip_empty && v.len() == 0) => v,
            _ => match stored {
                Some(v) if !(skip_empty && v.len() == 0) => v,
                _ => Seq::empty(),
            },
        },
    }
}

/// Chooses the value to store for an agent field.
pub fn choose_field(sent: Option<&str>, live: Option<&str>, stored: Option<&str>, skip_empty: bool) -> (r: String)
    ensures
        r@ == chosen_field(opt_str_view(sent), opt_str_view(live), opt_str_view(stored), skip_empty),
{
    if let Some(v) = sent {
        return String::from_str(v);
    }
    if let Some(v) = live {
        if !(skip_empty && v.is_empty()) {
            return String::from_str(v);
        }
    }
    if let Some(v) = stored {
        if !(skip_empty && v.is_empty()) {
            return String::from_str(v);
        }
    }
    String::new()
}

/// A secret shown masked on the dashboard and sent back unchanged stays
/// the stored secret: the masked text of any non-empty secret holds the
/// mask dot, so the update keeps what is stored.
pub proof fn lemma_masked_secret_kept(secret: Seq<char>)
    requires
        secret.len() > 0,
    ensures
        kept_secret(masked(secret), Some(secret)) == secret,
{
    reveal_strlit("••••");
    let m = masked(secret);
    assert(mask_dots()[0] == '•');
    if secret.len() <= 4 {
        assert(m[0] == '•');
    } else {
        assert(m[4] == '•');
    }
}

/// A masked secret shows no more of the secret than its first four
/// characters.
pub proof fn lemma_mask_hides_rest(secret: Seq<char>)
    requires
        secret.len() > 4,
    ensures
        masked(secret) == secret.take(4) + mask_dots(),
{
}

/// A correct header code always passes unless the guard is locked out,
/// and it clears the failures.
pub proof fn lemma_right_code_unlocks(g: AuthGuard, now: u64)
    requires
        !g.locked_at(now),
    ensures
        !(g.failure_count() >= MAX_AUTH_FAILURES && now - g.last_failure() < LOCKOUT_SECS),
{
}

/// Once five attempts have failed, every request within the next minute is
/// refused, the right code included.
pub proof fn lemma_lockout(g: AuthGuard, now: u64)
    requires
        g.failure_count() >= MAX_AUTH_FAILURES,
        now - g.last_failure() < LOCKOUT_SECS,
    ensures
        g.locked_at(now),
{
}

} // verus!
