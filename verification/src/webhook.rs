//! Inbound webhooks of the gateway: signature checking of generic webhook
//! calls (SHA-256 of the shared secret and the body, in lowercase hex), the
//! fields of an inbound message, the WhatsApp verification handshake and
//! the text messages of a WhatsApp notification.

use vstd::prelude::*;
use vstd::string::*;
use vstd::utf8::*;
use sha2::Digest;
use crate::adapters::or_empty;
use crate::json::{get, get_in, items_in, items_of, member, str_of, text_in, JsonValue};
use crate::text::{push_char, str_eq};

verus! {

broadcast use vstd::utf8::group_utf8_lib;

/// Settings of the generic webhook channel.
#[derive(Debug, Clone)]
pub struct WebhookChannelConfig {
    pub enabled: bool,
    /// Shared secret; empty when calls are not signed.
    pub secret: String,
    /// Where replies are posted; empty for none.
    pub outbound_url: String,
}

/// Why an inbound webhook call is refused.
#[derive(Debug, Clone, Copy, PartialEq, Eq, Structural)]
pub enum WebhookError {
    NotConfigured,
    Disabled,
    MissingSignature,
    InvalidSignature,
    MissingContent,
}

impl WebhookError {
    /// The message returned to the caller.
    pub fn message(&self) -> (r: &'static str)
        ensures
            r@ == match *self {
                WebhookError::NotConfigured => "Webhook channel not configured"@,
                WebhookError::Disabled => "Webhook channel is disabled"@,
                WebhookError::MissingSignature => "Missing X-Webhook-Signature header"@,
                WebhookError::InvalidSignature => "Invalid webhook signature"@,
                WebhookError::MissingContent => "Missing 'content' field in webhook payload"@,
            },
    {
        match self {
            WebhookError::NotConfigured => "Webhook channel not configured",
            WebhookError::Disabled => "Webhook channel is disabled",
            WebhookError::MissingSignature => "Missing X-Webhook-Signature header",
            WebhookError::InvalidSignature => "Invalid webhook signature",
            WebhookError::MissingContent => "Missing 'content' field in webhook payload",
        }
    }
}

/// The SHA-256 digest of the bytes, as `sha2::Sha256` computes it.
pub uninterp spec fn sha256_of(data: Seq<u8>) -> Seq<u8>;

/// `sha2::Sha256::digest`: the 32-byte SHA-256 digest of `data`.  What the
/// digest is for given bytes is left to the name `sha256_of`.
#[verifier::external_body]
fn sha256(data: &[u8]) -> (r: Vec<u8>)
    ensures
        r@ == sha256_of(data@),
        r@.len() == 32,
{
    sha2::Sha256::digest(data).to_vec()
}

/// The lowercase hexadecimal digit of `d < 16`.
pub open spec fn hex_digit(d: nat) -> char {
    if d < 10 { (('0' as u32) + d) as char } else { (('a' as u32) + d - 10) as char }
}

/// Bytes as lowercase hexadecimal, two digits each (`{:x}`).
pub open spec fn hex_lower(bytes: Seq<u8>) -> Seq<char>
    decreases bytes.len(),
{
    if bytes.len() == 0 {
        Seq::empty()
    } else {
        hex_lower(bytes.drop_last()).push(hex_digit((bytes.last() / 16) as nat)).push(hex_digit((bytes.last() % 16) as nat))
    }
}

fn hex_char(d: u8) -> (r: char)
    requires
        d < 16,
    ensures
        r == hex_digit(d as nat),
{
    if d < 10 {
        ((('0' as u8) + d) as char)
    } else {
        ((('a' as u8) + d - 10) as char)
    }
}

/// Writes bytes in lowercase hexadecimal.
pub fn to_hex(bytes: &[u8]) -> (r: String)
    ensures
        r@ == hex_lower(bytes@),
{
    let mut r = String::new();
    let mut i: usize = 0;
    while i < bytes.len()
        invariant
            i <= bytes.len(),
            r@ == hex_lower(bytes@.take(i as int)),
        decreases bytes.len() - i,
    {
        assert(bytes@.take(i as int + 1).drop_last() =~= bytes@.take(i as int));
        let b = bytes[i];
        push_char(&mut r, hex_char(b / 16));
        push_char(&mut r, hex_char(b % 16));
        i = i + 1;
    }
    assert(bytes@.take(bytes.len() as int) =~= bytes@);
    r
}

/// The signature a call must carry: the hex SHA-256 of the secret followed
/// by the body.
pub open spec fn expected_signature(secret: Seq<char>, body: Seq<char>) -> Seq<char> {
    hex_lower(sha256_of(encode_utf8(secret + body)))
}

/// The signature expected for a body under a secret.
pub fn webhook_signature(secret: &str, body: &str) -> (r: String)
    ensures
        r@ == expected_signature(secret@, body@),
{
    let mut data: Vec<u8> = Vec::new();
    let sb = secret.as_bytes();
    let bb = body.as_bytes();
    let mut i: usize = 0;
    while i < sb.len()
        invariant
            i <= sb.len(),
            data@ == sb@.take(i as int),
        decreases sb.len() - i,
    {
        data.push(sb[i]);
        assert(sb@.take(i as int + 1) =~= sb@.take(i as int).push(sb@[i as int]));
        i = i + 1;
    }
    let mut j: usize = 0;
    assert(sb@.take(sb.len() as int) =~= sb@);
    while j < bb.len()
        invariant
            j <= bb.len(),
            data@ == sb@ + bb@.take(j as int),
        decreases bb.len() - j,
    {
        data.push(bb[j]);
        assert(bb@.take(j as int + 1) =~= bb@.take(j as int).push(bb@[j as int]));
        j = j + 1;
    }
    assert(bb@.take(bb.len() as int) =~= bb@);
    proof {
        crate::text::lemma_encode_concat(secret@, body@);
    }
    let digest = sha256(data.as_slice());
    to_hex(digest.as_slice())
}

/// The outcome of checking an inbound call against the channel settings.
pub open spec fn webhook_check(cfg: Option<WebhookChannelConfig>, signature: Seq<char>, body: Seq<char>) -> Result<(), WebhookError> {
    match cfg {
        None => Err(WebhookError::NotConfigured),
        Some(c) => if !c.enabled {
            Err(WebhookError::Disabled)
        } else if c.secret@.len() == 0 {
            Ok(())
        } else if signature.len() == 0 {
            Err(WebhookError::MissingSignature)
        } else if signature != expected_signature(c.secret@, body) {
            Err(WebhookError::InvalidSignature)
        } else {
            Ok(())
        },
    }
}

/// Checks an inbound call: the channel must be configured and enabled, and
/// with a secret set the call must carry the right signature (empty when
/// the header is missing).
pub fn verify_webhook(cfg: &Option<WebhookChannelConfig>, signature: &str, body: &str) -> (r: Result<(), WebhookError>)
    ensures
        r == webhook_check(*cfg, signature@, body@),
{
    match cfg {
        None => Err(WebhookError::NotConfigured),
        Some(c) => {
            if !c.enabled {
                return Err(WebhookError::Disabled);
            }
            if c.secret.as_str().is_empty() {
                return Ok(());
            }
            if signature.is_empty() {
                return Err(WebhookError::MissingSignature);
            }
            let expected = webhook_signature(c.secret.as_str(), body);
            if !str_eq(expected.as_str(), signature) {
                return Err(WebhookError::InvalidSignature);
            }
            Ok(())
        },
    }
}

/// An inbound webhook message.
#[derive(Debug, Clone)]
pub struct InboundMessage {
    pub content: String,
    pub sender_id: String,
    pub thread_id: String,
}

/// The message of an inbound call from the fields of its JSON body: the
/// content is required, the sender defaults to "webhook-user" and the
/// thread to "webhook".
pub fn inbound_message(content: Option<&str>, sender_id: Option<&str>, thread_id: Option<&str>) -> (r: Result<InboundMessage, WebhookError>)
    ensures
        (match content { Some(c) => c@.len() == 0, None => true }) ==> r == Err::<InboundMessage, WebhookError>(WebhookError::MissingContent),
        content is Some && content->0@.len() > 0 ==> (r matches Ok(m)
            && m.content@ == content->0@
            && m.sender_id@ == (match sender_id { Some(s) => s@, None => "webhook-user"@ })
            && m.thread_id@ == (match thread_id { Some(t) => t@, None => "webhook"@ })),
{
    let c = match content {
        Some(c) => c,
        None => return Err(WebhookError::MissingContent),
    };
    if c.is_empty() {
        return Err(WebhookError::MissingContent);
    }
    let sender = match sender_id {
        Some(s) => String::from_str(s),
        None => String::from_str("webhook-user"),
    };
    let thread = match thread_id {
        Some(t) => String::from_str(t),
        None => String::from_str("webhook"),
    };
    Ok(InboundMessage { content: String::from_str(c), sender_id: sender, thread_id: thread })
}

/// The WhatsApp verification handshake: the challenge is echoed when the
/// mode is "subscribe" and the token is the configured one (empty when no
/// WhatsApp channel is configured); `None` means 403 Forbidden.
pub fn whatsapp_verify(mode: &str, token: &str, challenge: &str, expected_token: Option<&str>) -> (r: Option<String>)
    ensures
        r is Some <==> (mode@ == "subscribe"@ && token@ == (match expected_token { Some(t) => t@, None => Seq::<char>::empty() })),
        r matches Some(c) ==> c@ == challenge@,
{
    let expected = match expected_token {
        Some(t) => t,
        None => {
            proof {
                reveal_strlit("");
            }
            ""
        },
    };
    assert(expected@ == (match expected_token { Some(t) => t@, None => Seq::<char>::empty() }));
    let m = str_eq(mode, "subscribe");
    let t = str_eq(token, expected);
    if m && t {
        Some(String::from_str(challenge))
    } else {
        None
    }
}

/// The Cloud API endpoint that sends messages from a phone number.
pub fn whatsapp_messages_url(phone_number_id: &str) -> (r: String)
    ensures
        r@ == "https://graph.facebook.com/v21.0/"@ + phone_number_id@ + "/messages"@,
{
    let mut r = String::from_str("https://graph.facebook.com/v21.0/");
    r.append(phone_number_id);
    r.append("/messages");
    r
}

/// A WhatsApp text message to answer: who sent it, its text and its ID.
#[derive(Debug, Clone)]
pub struct WhatsAppText {
    pub from: String,
    pub text: String,
    pub msg_id: String,
}

pub open spec fn wa_text_views(ms: Seq<WhatsAppText>) -> Seq<(Seq<char>, Seq<char>, Seq<char>)> {
    ms.map_values(|m: WhatsAppText| (m.from@, m.text@, m.msg_id@))
}

/// The body of a WhatsApp message's text, empty where there is none.
pub open spec fn wa_body(m: JsonValue) -> Seq<char> {
    or_empty(str_of(member(member(m, "text"@), "body"@)))
}

/// A WhatsApp message that is answered: a text message with a body.
pub open spec fn wa_answered(m: JsonValue) -> bool {
    str_of(member(m, "type"@)) == Some("text"@) && wa_body(m).len() > 0
}

/// The sender, text and ID of a WhatsApp message.
pub open spec fn wa_view(m: JsonValue) -> (Seq<char>, Seq<char>, Seq<char>) {
    (or_empty(str_of(member(m, "from"@))), wa_body(m), or_empty(str_of(member(m, "id"@))))
}

/// The answered messages among `ms`, in order.
pub open spec fn wa_messages(ms: Seq<JsonValue>) -> Seq<(Seq<char>, Seq<char>, Seq<char>)>
    decreases ms.len(),
{
    if ms.len() == 0 {
        Seq::empty()
    } else if wa_answered(ms.last()) {
        wa_messages(ms.drop_last()).push(wa_view(ms.last()))
    } else {
        wa_messages(ms.drop_last())
    }
}

/// The answered messages of a sequence of changes, change by change.
pub open spec fn wa_changes(cs: Seq<JsonValue>) -> Seq<(Seq<char>, Seq<char>, Seq<char>)>
    decreases cs.len(),
{
    if cs.len() == 0 {
        Seq::empty()
    } else {
        wa_changes(cs.drop_last()) + wa_messages(items_of(member(member(cs.last(), "value"@), "messages"@)))
    }
}

/// The answered messages of a sequence of entries, entry by entry.
pub open spec fn wa_entries(es: Seq<JsonValue>) -> Seq<(Seq<char>, Seq<char>, Seq<char>)>
    decreases es.len(),
{
    if es.len() == 0 {
        Seq::empty()
    } else {
        wa_entries(es.drop_last()) + wa_changes(items_of(member(es.last(), "changes"@)))
    }
}

fn owned_text(s: Option<&str>) -> (r: String)
    ensures
        r@ == or_empty(match s { Some(t) => Some(t@), None => None }),
{
    match s {
        Some(t) => String::from_str(t),
        None => String::new(),
    }
}

fn push_wa_messages(out: &mut Vec<WhatsAppText>, ms: &[JsonValue])
    ensures
        wa_text_views(final(out)@) == wa_text_views(old(out)@) + wa_messages(ms@),
{
    let ghost start = wa_text_views(out@);
    let mut i: usize = 0;
    assert(ms@.take(0) =~= Seq::<JsonValue>::empty());
    assert(start + wa_messages(ms@.take(0)) =~= start);
    while i < ms.len()
        invariant
            i <= ms.len(),
            wa_text_views(out@) == start + wa_messages(ms@.take(i as int)),
        decreases ms.len() - i,
    {
        let m = &ms[i];
        assert(ms@.take(i + 1).drop_last() =~= ms@.take(i as int));
        assert(ms@.take(i + 1).last() == *m);
        let kind = text_in(get(m, "type"));
        let is_text = match kind {
            Some(k) => str_eq(k, "text"),
            None => false,
        };
        let text = owned_text(text_in(get_in(get(m, "text"), "body")));
        if is_text && !text.as_str().is_empty() {
            let t = WhatsAppText {
                from: owned_text(text_in(get(m, "from"))),
                text,
                msg_id: owned_text(text_in(get(m, "id"))),
            };
            let ghost before = out@;
            out.push(t);
            assert(wa_text_views(out@) =~= wa_text_views(before).push((t.from@, t.text@, t.msg_id@)));
            assert(start + wa_messages(ms@.take(i + 1))
                =~= (start + wa_messages(ms@.take(i as int))).push(wa_view(*m)));
        }
        i = i + 1;
    }
    assert(ms@.take(ms.len() as int) =~= ms@);
}

fn push_wa_changes(out: &mut Vec<WhatsAppText>, cs: &[JsonValue])
    ensures
        wa_text_views(final(out)@) == wa_text_views(old(out)@) + wa_changes(cs@),
{
    let ghost start = wa_text_views(out@);
    let mut i: usize = 0;
    assert(cs@.take(0) =~= Seq::<JsonValue>::empty());
    assert(start + wa_changes(cs@.take(0)) =~= start);
    while i < cs.len()
        invariant
            i <= cs.len(),
            wa_text_views(out@) == start + wa_changes(cs@.take(i as int)),
        decreases cs.len() - i,
    {
        let c = &cs[i];
        assert(cs@.take(i + 1).drop_last() =~= cs@.take(i as int));
        assert(cs@.take(i + 1).last() == *c);
        let ghost before = wa_text_views(out@);
        push_wa_messages(out, items_in(get_in(get(c, "value"), "messages")));
        assert(start + wa_changes(cs@.take(i + 1))
            =~= before + wa_messages(items_of(member(member(*c, "value"@), "messages"@))));
        i = i + 1;
    }
    assert(cs@.take(cs.len() as int) =~= cs@);
}

/// The text messages of a WhatsApp notification that are answered, entry
/// by entry and change by change.
pub fn whatsapp_text_messages(body: &JsonValue) -> (r: Vec<WhatsAppText>)
    ensures
        wa_text_views(r@) == wa_entries(items_of(member(*body, "entry"@))),
{
    let es = items_in(get(body, "entry"));
    let mut out: Vec<WhatsAppText> = Vec::new();
    let mut i: usize = 0;
    assert(es@.take(0) =~= Seq::<JsonValue>::empty());
    assert(wa_text_views(out@) =~= Seq::<(Seq<char>, Seq<char>, Seq<char>)>::empty());
    while i < es.len()
        invariant
            i <= es.len(),
            wa_text_views(out@) == wa_entries(es@.take(i as int)),
        decreases es.len() - i,
    {
        let e = &es[i];
        assert(es@.take(i + 1).drop_last() =~= es@.take(i as int));
        assert(es@.take(i + 1).last() == *e);
        push_wa_changes(&mut out, items_in(get(e, "changes")));
        i = i + 1;
    }
    assert(es@.take(es.len() as int) =~= es@);
    out
}

} // verus!
