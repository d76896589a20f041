//! Messaging channels: the configurations of the platform adapters, the
//! list of supported channels, and the email channel's state and message
//! handling (IMAP polling bookkeeping, mail parsing, HTML stripping).

use vstd::prelude::*;
use vstd::string::*;
use crate::json::{get, items_in, items_of, member, str_of, text_in, JsonValue};
use crate::text::{
    chars_of, decimal, join, join_strings, string_from_chars, trim, trim_chars,
    u64_to_string,
};

verus! {

/// LINE Messaging API configuration.
#[derive(Debug, Clone)]
pub struct LineConfig {
    pub channel_access_token: String,
    pub channel_secret: String,
    pub enabled: bool,
}

/// Microsoft Teams (Bot Framework) configuration.
#[derive(Debug, Clone)]
pub struct TeamsConfig {
    pub app_id: String,
    pub app_password: String,
    pub enabled: bool,
}

/// Signal configuration (through a signal-cli REST server).
#[derive(Debug, Clone)]
pub struct SignalConfig {
    /// Server address, such as "http://localhost:8080".
    pub api_url: String,
    pub phone_number: String,
    pub enabled: bool,
}

/// Matrix configuration.
#[derive(Debug, Clone)]
pub struct MatrixConfig {
    pub homeserver_url: String,
    pub access_token: String,
    pub user_id: String,
    pub enabled: bool,
}

/// Viber bot configuration.
#[derive(Debug, Clone)]
pub struct ViberConfig {
    pub auth_token: String,
    pub bot_name: String,
    pub enabled: bool,
}

/// Facebook Messenger configuration.
#[derive(Debug, Clone)]
pub struct MessengerConfig {
    pub page_access_token: String,
    pub verify_token: String,
    pub enabled: bool,
}

/// A channel reached through plain HTTP webhooks.
#[derive(Debug, Clone)]
pub struct GenericWebhookConfig {
    pub name: String,
    pub incoming_url: String,
    pub outgoing_url: String,
    pub auth_header: String,
    pub auth_value: String,
    pub enabled: bool,
}

/// Adapters are enabled unless their configuration says otherwise.
pub fn default_true() -> (r: bool)
    ensures
        r,
{
    true
}

/// The names of the supported channels, in their listed order.
pub open spec fn channel_names() -> Seq<Seq<char>> {
    seq![
        "cli"@, "telegram"@, "discord"@, "email"@, "webhook"@, "whatsapp"@, "zalo_personal"@,
        "zalo_official"@, "slack"@, "line"@, "teams"@, "signal"@, "matrix"@, "viber"@,
        "messenger"@, "mattermost"@, "google_chat"@, "dingtalk"@, "feishu"@, "linkedin"@,
        "reddit"@, "mastodon"@, "bluesky"@, "nostr"@, "webex"@, "pumble"@, "flock"@,
        "threema"@, "keybase"@, "twitter"@, "twilio_sms"@, "twilio_voice"@, "xmpp"@,
    ]
}

/// Every supported channel: its name and a short description.
pub fn all_channel_names() -> (r: Vec<(&'static str, &'static str)>)
    ensures
        r@.len() == channel_names().len(),
        forall|i: int| 0 <= i < r@.len() ==> (#[trigger] r@[i]).0@ == channel_names()[i],
{
    let r = vec![
        ("cli", "Command-line interface"),
        ("telegram", "Telegram Bot API"),
        ("discord", "Discord Gateway bot"),
        ("email", "IMAP/SMTP email"),
        ("webhook", "HTTP webhooks"),
        ("whatsapp", "WhatsApp Cloud API"),
        ("zalo_personal", "Zalo Personal API"),
        ("zalo_official", "Zalo Official Account"),
        ("slack", "Slack Bot (Events API + Socket Mode)"),
        ("line", "LINE Messaging API"),
        ("teams", "Microsoft Teams (Bot Framework)"),
        ("signal", "Signal (via signal-cli REST)"),
        ("matrix", "Matrix/Element (Client-Server API)"),
        ("viber", "Viber Bot API"),
        ("messenger", "Facebook Messenger Platform"),
        ("mattermost", "Mattermost webhook"),
        ("google_chat", "Google Chat service account"),
        ("dingtalk", "DingTalk Robot API"),
        ("feishu", "Feishu/Lark Open Platform"),
        ("linkedin", "LinkedIn Messaging API"),
        ("reddit", "Reddit API bot"),
        ("mastodon", "Mastodon Streaming API"),
        ("bluesky", "Bluesky/AT Protocol"),
        ("nostr", "Nostr relay protocol"),
        ("webex", "Cisco Webex bot"),
        ("pumble", "Pumble bot"),
        ("flock", "Flock bot"),
        ("threema", "Threema Gateway"),
        ("keybase", "Keybase chat bot"),
        ("twitter", "Twitter/X DMs"),
        ("twilio_sms", "Twilio SMS"),
        ("twilio_voice", "Twilio Voice"),
        ("xmpp", "XMPP/Jabber"),
    ];
    r
}

/// WhatsApp Business (Cloud API) configuration.
#[derive(Debug, Clone)]
pub struct WhatsAppConfig {
    /// Graph API access token.
    pub access_token: String,
    pub phone_number_id: String,
    /// Token that incoming webhook calls must present.
    pub webhook_verify_token: String,
    /// Business account ID, possibly empty.
    pub business_id: String,
}

impl Default for WhatsAppConfig {
    fn default() -> (r: Self)
        ensures
            r.access_token@ == Seq::<char>::empty(),
            r.phone_number_id@ == Seq::<char>::empty(),
            r.webhook_verify_token@ == Seq::<char>::empty(),
            r.business_id@ == Seq::<char>::empty(),
    {
        WhatsAppConfig {
            access_token: String::new(),
            phone_number_id: String::new(),
            webhook_verify_token: String::new(),
            business_id: String::new(),
        }
    }
}

/// The WhatsApp Business channel: its configuration and whether its token
/// was verified.
pub struct WhatsAppChannel {
    config: WhatsAppConfig,
    connected: bool,
}

/// The ID of the message that a send call's answer reports: the "id" of its
/// first "messages" entry, or "unknown".
pub open spec fn sent_id_of(answer: JsonValue) -> Seq<char> {
    let ms = items_of(member(answer, "messages"@));
    if ms.len() > 0 && str_of(member(ms[0], "id"@)) is Some {
        str_of(member(ms[0], "id"@))->0
    } else {
        "unknown"@
    }
}

impl WhatsAppChannel {
    pub closed spec fn cfg(self) -> WhatsAppConfig {
        self.config
    }

    pub closed spec fn connected_spec(self) -> bool {
        self.connected
    }

    /// A channel whose token is not verified yet.
    pub fn new(config: WhatsAppConfig) -> (r: Self)
        ensures
            r.cfg() == config,
            !r.connected_spec(),
    {
        WhatsAppChannel { config, connected: false }
    }

    pub fn name(&self) -> (r: &'static str)
        ensures
            r@ == "whatsapp"@,
    {
        "whatsapp"
    }

    pub fn is_connected(&self) -> (r: bool)
        ensures
            r == self.connected_spec(),
    {
        self.connected
    }

    /// What connecting needs: an access token, then a phone number ID.
    pub fn check_config(&self) -> (r: Result<(), String>)
        ensures
            self.cfg().access_token@.len() == 0
                ==> (r matches Err(e) && e@ == "WhatsApp access_token not configured"@),
            self.cfg().access_token@.len() > 0 && self.cfg().phone_number_id@.len() == 0
                ==> (r matches Err(e) && e@ == "WhatsApp phone_number_id not configured"@),
            self.cfg().access_token@.len() > 0 && self.cfg().phone_number_id@.len() > 0 ==> r is Ok,
    {
        if self.config.access_token.as_str().is_empty() {
            return Err(String::from_str("WhatsApp access_token not configured"));
        }
        if self.config.phone_number_id.as_str().is_empty() {
            return Err(String::from_str("WhatsApp phone_number_id not configured"));
        }
        Ok(())
    }

    /// The Graph API address of the phone number, asked to verify the token.
    pub fn verify_url(&self) -> (r: String)
        ensures
            r@ == "https://graph.facebook.com/v21.0/"@ + self.cfg().phone_number_id@,
    {
        let mut r = String::from_str("https://graph.facebook.com/v21.0/");
        r.append(self.config.phone_number_id.as_str());
        r
    }

    /// The bearer credential of the Graph API calls.
    pub fn authorization(&self) -> (r: String)
        ensures
            r@ == "Bearer "@ + self.cfg().access_token@,
    {
        let mut r = String::from_str("Bearer ");
        r.append(self.config.access_token.as_str());
        r
    }

    /// Records whether the token was verified.
    pub fn set_connected(&mut self, connected: bool)
        ensures
            final(self).connected_spec() == connected,
            final(self).cfg() == old(self).cfg(),
    {
        self.connected = connected;
    }
}

/// The ID of the message that a send call's answer reports.
pub fn sent_message_id(answer: &JsonValue) -> (r: String)
    ensures
        r@ == sent_id_of(*answer),
{
    let ms = items_in(get(answer, "messages"));
    if ms.len() > 0 {
        match text_in(get(&ms[0], "id")) {
            Some(id) => return String::from_str(id),
            None => {},
        }
    }
    String::from_str("unknown")
}

/// Email channel configuration (IMAP in, SMTP out).
#[derive(Debug, Clone)]
pub struct EmailConfig {
    pub imap_host: String,
    pub imap_port: u16,
    pub smtp_host: String,
    pub smtp_port: u16,
    pub email: String,
    pub password: String,
    pub display_name: Option<String>,
    pub mailbox: String,
    pub poll_interval_secs: u64,
    pub unread_only: bool,
    pub mark_as_read: bool,
    pub smtp_enabled: bool,
}

/// IMAP over TLS.
pub fn default_imap_port() -> (r: u16)
    ensures
        r == 993,
{
    993
}

/// SMTP submission.
pub fn default_smtp_port() -> (r: u16)
    ensures
        r == 587,
{
    587
}

/// The mailbox polled when none is configured.
pub fn default_mailbox() -> (r: String)
    ensures
        r@ == "INBOX"@,
{
    String::from_str("INBOX")
}

/// Seconds between two polls when none is configured.
pub fn default_poll_interval() -> (r: u64)
    ensures
        r == 30,
{
    30
}

impl Default for EmailConfig {
    /// Gmail's servers, no account, INBOX polled every 30 seconds for
    /// unread mail that is then marked read, SMTP on.
    fn default() -> (r: Self)
        ensures
            r.imap_host@ == "imap.gmail.com"@,
            r.imap_port == 993,
            r.smtp_host@ == "smtp.gmail.com"@,
            r.smtp_port == 587,
            r.email@ == Seq::<char>::empty(),
            r.password@ == Seq::<char>::empty(),
            r.display_name is None,
            r.mailbox@ == "INBOX"@,
            r.poll_interval_secs == 30,
            r.unread_only,
            r.mark_as_read,
            r.smtp_enabled,
    {
        EmailConfig {
            imap_host: String::from_str("imap.gmail.com"),
            imap_port: 993,
            smtp_host: String::from_str("smtp.gmail.com"),
            smtp_port: 587,
            email: String::new(),
            password: String::new(),
            display_name: None,
            mailbox: String::from_str("INBOX"),
            poll_interval_secs: 30,
            unread_only: true,
            mark_as_read: true,
            smtp_enabled: true,
        }
    }
}

/// An email as the channel hands it on.
#[derive(Debug, Clone)]
pub struct ParsedEmail {
    pub uid: u32,
    pub from: String,
    pub from_name: Option<String>,
    pub subject: String,
    pub body_text: String,
    pub message_id: Option<String>,
}

/// The email channel: its configuration, whether it is connected, and the
/// highest message UID seen so far.
pub struct EmailChannel {
    config: EmailConfig,
    connected: bool,
    last_seen_uid: u32,
}

/// The UIDs greater than `last`, in order.
pub open spec fn newer_uids(uids: Seq<u32>, last: u32) -> Seq<u32> {
    uids.filter(|u: u32| u > last)
}

/// The largest of `start` and the UIDs.
pub open spec fn max_uid(start: u32, uids: Seq<u32>) -> u32
    decreases uids.len(),
{
    if uids.len() == 0 {
        start
    } else {
        let m = max_uid(start, uids.drop_last());
        if uids.last() > m { uids.last() } else { m }
    }
}

/// The decimal forms of the UIDs.
pub open spec fn uid_texts(uids: Seq<u32>) -> Seq<Seq<char>> {
    uids.map_values(|u: u32| decimal(u as nat))
}

impl EmailChannel {
    /// The channel's configuration.
    pub closed spec fn cfg(self) -> EmailConfig {
        self.config
    }

    /// The channel's configuration.
    pub fn config(&self) -> (r: &EmailConfig)
        ensures
            *r == self.cfg(),
    {
        &self.config
    }

    /// Whether the channel is connected.
    pub closed spec fn is_connected_spec(self) -> bool {
        self.connected
    }

    /// Highest message UID handled so far.
    pub closed spec fn last_seen(self) -> u32 {
        self.last_seen_uid
    }

    /// A disconnected channel that has seen no message yet.
    pub fn new(config: EmailConfig) -> (r: Self)
        ensures
            r.cfg() == config,
            !r.is_connected_spec(),
            r.last_seen() == 0,
    {
        EmailChannel { config, connected: false, last_seen_uid: 0 }
    }

    /// The channel's name.
    pub fn name(&self) -> (r: &'static str)
        ensures
            r@ == "email"@,
    {
        "email"
    }

    /// Whether the channel is connected.
    pub fn is_connected(&self) -> (r: bool)
        ensures
            r == self.is_connected_spec(),
    {
        self.connected
    }

    /// Records the outcome of a connection attempt or a disconnection.
    pub fn set_connected(&mut self, connected: bool)
        ensures
            final(self).is_connected_spec() == connected,
            final(self).cfg() == old(self).cfg(),
            final(self).last_seen() == old(self).last_seen(),
    {
        self.connected = connected;
    }

    /// Highest message UID handled so far.
    pub fn last_seen_uid(&self) -> (r: u32)
        ensures
            r == self.last_seen(),
    {
        self.last_seen_uid
    }

    /// The IMAP search for new mail: unseen mail only, or all of it.
    pub fn search_query(&self) -> (r: &'static str)
        ensures
            r@ == (if self.cfg().unread_only { "UNSEEN"@ } else { "ALL"@ }),
    {
        if self.config.unread_only { "UNSEEN" } else { "ALL" }
    }

    /// The UIDs of a search result that are newer than the last one seen.
    pub fn new_uids(&self, uids: &[u32]) -> (r: Vec<u32>)
        ensures
            r@ == newer_uids(uids@, self.last_seen()),
    {
        let mut r: Vec<u32> = Vec::new();
        let mut i: usize = 0;
        while i < uids.len()
            invariant
                i <= uids.len(),
                r@ == newer_uids(uids@.take(i as int), self.last_seen_uid),
            decreases uids.len() - i,
        {
            assert(uids@.take(i as int + 1).drop_last() =~= uids@.take(i as int));
            reveal(Seq::filter);
            if uids[i] > self.last_seen_uid {
                r.push(uids[i]);
            }
            i = i + 1;
        }
        assert(uids@.take(uids.len() as int) =~= uids@);
        r
    }

    /// Notes the UIDs of the messages fetched: the last seen UID becomes
    /// the largest of them and of the one before.
    pub fn record_fetched(&mut self, fetched: &[u32])
        ensures
            final(self).last_seen() == max_uid(old(self).last_seen(), fetched@),
            final(self).cfg() == old(self).cfg(),
            final(self).is_connected_spec() == old(self).is_connected_spec(),
    {
        let ghost start = self.last_seen_uid;
        let mut m = self.last_seen_uid;
        let mut i: usize = 0;
        while i < fetched.len()
            invariant
                i <= fetched.len(),
                m == max_uid(start, fetched@.take(i as int)),
            decreases fetched.len() - i,
        {
            assert(fetched@.take(i as int + 1).drop_last() =~= fetched@.take(i as int));
            if fetched[i] > m {
                m = fetched[i];
            }
            i = i + 1;
        }
        assert(fetched@.take(fetched.len() as int) =~= fetched@);
        self.last_seen_uid = m;
    }

    /// The "From" header: the display name, or "BizClaw AI", and the
    /// account's address in angle brackets.
    pub fn from_header(&self) -> (r: String)
        ensures
            r@ == (match self.cfg().display_name {
                Some(n) => n@,
                None => "BizClaw AI"@,
            }) + " <"@ + self.cfg().email@ + ">"@,
    {
        let mut r = match &self.config.display_name {
            Some(n) => String::from_str(n.as_str()),
            None => String::from_str("BizClaw AI"),
        };
        r.append(" <");
        r.append(self.config.email.as_str());
        r.append(">");
        r
    }
}

/// The IMAP UID set of the UIDs: their decimal forms joined by commas.
pub fn uid_set(uids: &[u32]) -> (r: String)
    ensures
        r@ == join(uid_texts(uids@), ","@),
{
    let mut parts: Vec<String> = Vec::new();
    let mut i: usize = 0;
    while i < uids.len()
        invariant
            i <= uids.len(),
            parts@.map_values(|s: String| s@) == uid_texts(uids@.take(i as int)),
        decreases uids.len() - i,
    {
        let t = u64_to_string(uids[i] as u64);
        let ghost before = parts@;
        parts.push(t);
        assert(uids@.take(i as int + 1) =~= uids@.take(i as int).push(uids@[i as int]));
        assert(uid_texts(uids@.take(i as int + 1)) =~= uid_texts(uids@.take(i as int)).push(decimal(uids@[i as int] as nat)));
        assert(parts@.map_values(|s: String| s@) =~= before.map_values(|s: String| s@).push(t@));
        i = i + 1;
    }
    assert(uids@.take(uids.len() as int) =~= uids@);
    join_strings(&parts, ",")
}

/// Subject of a reply: "Re: " and the message replied to, or a fixed
/// subject for a new message.
pub fn reply_subject(reply_to: Option<&str>) -> (r: String)
    ensures
        r@ == (match reply_to {
            Some(id) => "Re: "@ + id@,
            None => "From BizClaw AI"@,
        }),
{
    match reply_to {
        Some(id) => {
            let mut r = String::from_str("Re: ");
            r.append(id);
            r
        },
        None => String::from_str("From BizClaw AI"),
    }
}

/// The message text an incoming email becomes.
pub open spec fn email_message_text(e: ParsedEmail) -> Seq<char> {
    "📧 Subject: "@ + e.subject@ + "\n\n"@ + e.body_text@
}

/// The message text an incoming email becomes: its subject, a blank line
/// and its body.
pub fn email_message(e: &ParsedEmail) -> (r: String)
    ensures
        r@ == email_message_text(*e),
{
    let mut r = String::from_str("📧 Subject: ");
    r.append(e.subject.as_str());
    r.append("\n\n");
    r.append(e.body_text.as_str());
    r
}

/// The characters outside `<...>` tags, and whether the scan ends inside
/// a tag.
pub open spec fn html_scan(s: Seq<char>) -> (Seq<char>, bool)
    decreases s.len(),
{
    if s.len() == 0 {
        (Seq::empty(), false)
    } else {
        let (out, in_tag) = html_scan(s.drop_last());
        let c = s.last();
        if c == '<' {
            (out, true)
        } else if c == '>' {
            (out, false)
        } else if !in_tag {
            (out.push(c), in_tag)
        } else {
            (out, in_tag)
        }
    }
}

/// HTML reduced to its text: tags dropped, surrounding white space trimmed.
pub open spec fn html_text(s: Seq<char>) -> Seq<char> {
    trim(html_scan(s).0)
}

/// Drops the tags of an HTML text and trims the rest.
pub fn strip_html(html: &str) -> (r: String)
    ensures
        r@ == html_text(html@),
{
    let cs = chars_of(html);
    let mut out: Vec<char> = Vec::new();
    let mut in_tag = false;
    let mut i: usize = 0;
    while i < cs.len()
        invariant
            i <= cs.len(),
            cs@ == html@,
            (out@, in_tag) == html_scan(html@.take(i as int)),
        decreases cs.len() - i,
    {
        assert(html@.take(i as int + 1).drop_last() =~= html@.take(i as int));
        let c = cs[i];
        if c == '<' {
            in_tag = true;
        } else if c == '>' {
            in_tag = false;
        } else if !in_tag {
            out.push(c);
        }
        i = i + 1;
    }
    assert(html@.take(cs.len() as int) =~= html@);
    let t = trim_chars(out.as_slice());
    string_from_chars(t.as_slice())
}

/// The header and body fields of a parsed mail message that the channel
/// reads.
#[derive(Debug, Clone)]
pub struct MailFields {
    /// Address of the first sender.
    pub from_address: Option<String>,
    /// Display name of the first sender.
    pub from_name: Option<String>,
    pub subject: Option<String>,
    /// The first text/plain body part.
    pub body_text: Option<String>,
    /// The first text/html body part.
    pub body_html: Option<String>,
    pub message_id: Option<String>,
}

/// `MailFields` with strings as character sequences.
pub ghost struct MailFieldsV {
    pub from_address: Option<Seq<char>>,
    pub from_name: Option<Seq<char>>,
    pub subject: Option<Seq<char>>,
    pub body_text: Option<Seq<char>>,
    pub body_html: Option<Seq<char>>,
    pub message_id: Option<Seq<char>>,
}

pub open spec fn opt_view(o: Option<String>) -> Option<Seq<char>> {
    match o {
        Some(s) => Some(s@),
        None => None,
    }
}

impl MailFields {
    pub open spec fn view(self) -> MailFieldsV {
        MailFieldsV {
            from_address: opt_view(self.from_address),
            from_name: opt_view(self.from_name),
            subject: opt_view(self.subject),
            body_text: opt_view(self.body_text),
            body_html: opt_view(self.body_html),
            message_id: opt_view(self.message_id),
        }
    }
}

pub open spec fn opt_fields_view(o: Option<MailFields>) -> Option<MailFieldsV> {
    match o {
        Some(f) => Some(f.view()),
        None => None,
    }
}

/// What `mail_parser` reads from the raw bytes of a message: `None` where
/// it does not parse, else the fields of `MailFields`.
pub uninterp spec fn parsed_mail(raw: Seq<u8>) -> Option<MailFieldsV>;

/// `mail_parser::MessageParser::parse` on the raw message, and the fields
/// the channel reads from the result (`from`, its first address and name,
/// `subject`, `body_text(0)`, `body_html(0)`, `message_id`).  What they are
/// for given bytes is left to the name `parsed_mail`.  The parser takes any
/// bytes: its documentation says it is written in safe Rust and fuzzed;
/// that no input makes it panic is taken from there, not from a reading of
/// every path of its source.
#[verifier::external_body]
fn mail_fields(raw: &[u8]) -> (r: Option<MailFields>)
    ensures
        opt_fields_view(r) == parsed_mail(raw@),
{
    let m = mail_parser::MessageParser::default().parse(raw)?;
    let first = m.from().and_then(|a| a.first());
    Some(MailFields {
        from_address: first.and_then(|a| a.address()).map(String::from),
        from_name: first.and_then(|a| a.name()).map(String::from),
        subject: m.subject().map(String::from),
        body_text: m.body_text(0).map(|s| s.into_owned()),
        body_html: m.body_html(0).map(|s| s.into_owned()),
        message_id: m.message_id().map(String::from),
    })
}

/// The first `n` characters of `s` (all of them when it is shorter).
pub open spec fn first_chars(s: Seq<char>, n: nat) -> Seq<char> {
    if s.len() <= n { s } else { s.take(n as int) }
}

/// The email made of the fields of message `uid`: a missing sender address
/// reads as empty, a missing subject as "(no subject)", the body is the
/// plain text part, else the HTML part reduced to text, else empty, cut to
/// 4000 characters.
pub open spec fn email_of(f: MailFieldsV, uid: u32, e: ParsedEmail) -> bool {
    &&& e.uid == uid
    &&& e.from@ == (match f.from_address { Some(a) => a, None => Seq::empty() })
    &&& opt_view(e.from_name) == f.from_name
    &&& e.subject@ == (match f.subject { Some(s) => s, None => "(no subject)"@ })
    &&& e.body_text@ == first_chars(
        match f.body_text {
            Some(t) => t,
            None => match f.body_html {
                Some(h) => html_text(h),
                None => Seq::empty(),
            },
        },
        4000,
    )
    &&& opt_view(e.message_id) == f.message_id
}

fn clone_opt(o: &Option<String>) -> (r: Option<String>)
    ensures
        opt_view(r) == opt_view(*o),
{
    match o {
        Some(s) => Some(String::from_str(s.as_str())),
        None => None,
    }
}

/// The email made of the fields read from message `uid`.
pub fn email_from_fields(f: &MailFields, uid: u32) -> (r: ParsedEmail)
    ensures
        email_of(f.view(), uid, r),
{
    let from = match &f.from_address {
        Some(a) => String::from_str(a.as_str()),
        None => String::new(),
    };
    let subject = match &f.subject {
        Some(s) => String::from_str(s.as_str()),
        None => String::from_str("(no subject)"),
    };
    let body = match &f.body_text {
        Some(t) => String::from_str(t.as_str()),
        None => match &f.body_html {
            Some(h) => strip_html(h.as_str()),
            None => String::new(),
        },
    };
    let cs = chars_of(body.as_str());
    let mut keep: Vec<char> = Vec::new();
    let mut i: usize = 0;
    while i < cs.len() && i < 4000
        invariant
            i <= cs.len(),
            i <= 4000,
            keep@ == cs@.take(i as int),
        decreases cs.len() - i,
    {
        keep.push(cs[i]);
        assert(cs@.take(i as int + 1) =~= cs@.take(i as int).push(cs@[i as int]));
        i = i + 1;
    }
    assert(keep@ =~= first_chars(cs@, 4000));
    ParsedEmail {
        uid,
        from,
        from_name: clone_opt(&f.from_name),
        subject,
        body_text: string_from_chars(keep.as_slice()),
        message_id: clone_opt(&f.message_id),
    }
}

/// Parses the raw bytes of message `uid`; `None` where `mail_parser` does
/// not parse them.
pub fn parse_email_bytes(raw: &[u8], uid: u32) -> (r: Option<ParsedEmail>)
    ensures
        r is Some <==> parsed_mail(raw@) is Some,
        r matches Some(e) ==> email_of(parsed_mail(raw@)->0, uid, e),
{
    match mail_fields(raw) {
        Some(f) => Some(email_from_fields(&f, uid)),
        None => None,
    }
}


/// Every UID kept as new is above the last one seen.
pub proof fn lemma_new_uids_above(uids: Seq<u32>, last: u32)
    ensures
        forall|i: int| 0 <= i < newer_uids(uids, last).len() ==> #[trigger] newer_uids(uids, last)[i] > last,
{
    assert forall|i: int| 0 <= i < newer_uids(uids, last).len() implies #[trigger] newer_uids(uids, last)[i] > last by {
        uids.lemma_filter_pred(|u: u32| u > last, i);
    }
}

/// The last seen UID never goes down, and ends at or above every UID
/// fetched.
pub proof fn lemma_last_seen_monotonic(start: u32, fetched: Seq<u32>)
    ensures
        max_uid(start, fetched) >= start,
        forall|i: int| 0 <= i < fetched.len() ==> #[trigger] fetched[i] <= max_uid(start, fetched),
    decreases fetched.len(),
{
    if fetched.len() > 0 {
        lemma_last_seen_monotonic(start, fetched.drop_last());
        assert forall|i: int| 0 <= i < fetched.len() implies #[trigger] fetched[i] <= max_uid(start, fetched) by {
            if i < fetched.len() - 1 {
                assert(fetched[i] == fetched.drop_last()[i]);
            }
        }
    }
}

/// No channel is listed twice.
pub proof fn lemma_channel_names_distinct()
    ensures
        forall|i: int, j: int|
            0 <= i < j < channel_names().len() ==> channel_names()[i] != channel_names()[j],
{
    reveal_strlit("cli");
    reveal_strlit("telegram");
    reveal_strlit("discord");
    reveal_strlit("email");
    reveal_strlit("webhook");
    reveal_strlit("whatsapp");
    reveal_strlit("zalo_personal");
    reveal_strlit("zalo_official");
    reveal_strlit("slack");
    reveal_strlit("line");
    reveal_strlit("teams");
    reveal_strlit("signal");
    reveal_strlit("matrix");
    reveal_strlit("viber");
    reveal_strlit("messenger");
    reveal_strlit("mattermost");
    reveal_strlit("google_chat");
    reveal_strlit("dingtalk");
    reveal_strlit("feishu");
    reveal_strlit("linkedin");
    reveal_strlit("reddit");
    reveal_strlit("mastodon");
    reveal_strlit("bluesky");
    reveal_strlit("nostr");
    reveal_strlit("webex");
    reveal_strlit("pumble");
    reveal_strlit("flock");
    reveal_strlit("threema");
    reveal_strlit("keybase");
    reveal_strlit("twitter");
    reveal_strlit("twilio_sms");
    reveal_strlit("twilio_voice");
    reveal_strlit("xmpp");
    assert forall|i: int, j: int| 0 <= i < j < channel_names().len()
        implies channel_names()[i] != channel_names()[j] by {
        let a = channel_names()[i];
        let b = channel_names()[j];
        if a.len() == b.len() {
            assert(a[0] != b[0] || a[1] != b[1] || a[a.len() - 1] != b[b.len() - 1] || a[5] != b[5]);
        }
    }
}

} // verus!
