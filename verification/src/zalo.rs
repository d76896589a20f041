//! Zalo: the types of the official bot API, the bot client's state
//! (endpoint URLs, long-polling offset, token preview), the WebSocket
//! listener's state and event kinds, and the personal-account session.

use vstd::prelude::*;
use vstd::string::*;
use vstd::utf8::*;
use crate::conversation::{blen, byte_len};
use crate::adapters::or_empty;
use crate::config::ZaloChannelConfig;
use crate::text::{chars_of, str_eq, string_from_chars, trim, trim_chars};
use crate::json::{
    bool_in, bool_of, get, get_in, i64_in, i64_of, items_in, items_of, member, or_null, str_of, text_in, u64_in,
    u64_of, JsonValue,
};

verus! {

broadcast use vstd::utf8::group_utf8_lib;

/// Bot information (getMe).
#[derive(Debug, Clone)]
pub struct BotInfo {
    pub id: String,
    pub name: String,
    pub username: Option<String>,
}

/// An update from getUpdates or from the webhook.
#[derive(Debug)]
pub struct BotUpdate {
    pub update_id: Option<i64>,
    pub message: Option<BotMessage>,
}

/// A message received by the bot.
#[derive(Debug)]
pub struct BotMessage {
    pub message_id: String,
    pub from: Option<BotUser>,
    pub chat: BotChat,
    pub text: Option<String>,
    pub date: Option<i64>,
    /// The message this one replies to.
    pub reply_to_message: Option<Box<BotMessage>>,
}

/// A user as the bot sees it.
#[derive(Debug, Clone)]
pub struct BotUser {
    pub id: String,
    pub display_name: Option<String>,
    pub avatar: Option<String>,
}

/// A chat: a user or a group.
#[derive(Debug, Clone)]
pub struct BotChat {
    pub id: String,
    /// "private" or "group".
    pub chat_type: Option<String>,
    pub title: Option<String>,
}

/// Webhook information (getWebhookInfo).
#[derive(Debug, Clone)]
pub struct WebhookInfo {
    pub url: String,
    pub updated_at: Option<i64>,
}

/// Result of sending a message.
#[derive(Debug, Clone)]
pub struct SendResult {
    pub message_id: String,
    pub date: Option<i64>,
}

/// Base URL of the Zalo bot API.
pub open spec fn bot_api_base() -> Seq<char> {
    "https://bot-api.zaloplatforms.com"@
}

/// State of a Zalo bot client: its token and the last update it has seen.
pub struct ZaloBotClient {
    bot_token: String,
    last_update_id: Option<i64>,
}

impl ZaloBotClient {
    /// The bot token.
    pub closed spec fn token(self) -> Seq<char> {
        self.bot_token@
    }

    /// The ID of the last update received by long polling.
    pub closed spec fn last_update(self) -> Option<i64> {
        self.last_update_id
    }

    /// A client for the bot token, with no update seen.
    pub fn new(bot_token: &str) -> (r: Self)
        ensures
            r.token() == bot_token@,
            r.last_update() is None,
    {
        ZaloBotClient { bot_token: String::from_str(bot_token), last_update_id: None }
    }

    /// The URL of an API method: the base, "/bot", the token, "/", the
    /// method.
    pub fn api_url(&self, method: &str) -> (r: String)
        ensures
            r@ == bot_api_base() + "/bot"@ + self.token() + "/"@ + method@,
    {
        let mut r = String::from_str("https://bot-api.zaloplatforms.com");
        r.append("/bot");
        r.append(self.bot_token.as_str());
        r.append("/");
        r.append(method);
        r
    }

    /// The offset of the next getUpdates call: one past the last update
    /// seen, if any.
    pub fn poll_offset(&self) -> (r: Option<i64>)
        requires
            self.last_update() matches Some(id) ==> id < i64::MAX,
        ensures
            r == (match self.last_update() {
                Some(id) => Some((id + 1) as i64),
                None => None,
            }),
    {
        match self.last_update_id {
            Some(id) => Some(id + 1),
            None => None,
        }
    }

    /// Notes a batch of updates: when the last one has an ID, it becomes
    /// the last update seen.
    pub fn record_updates(&mut self, updates: &[BotUpdate])
        ensures
            final(self).token() == old(self).token(),
            final(self).last_update() == (if updates@.len() > 0 && updates@.last().update_id is Some {
                updates@.last().update_id
            } else {
                old(self).last_update()
            }),
    {
        if updates.len() > 0 {
            let last = &updates[updates.len() - 1];
            if let Some(id) = last.update_id {
                self.last_update_id = Some(id);
            }
        }
    }

    /// The token for display: its first and last five bytes around "...",
    /// or "***" for a token of at most ten bytes.
    pub fn token_preview(&self) -> (r: String)
        requires
            blen(self.token()) > 10 ==> is_char_boundary(encode_utf8(self.token()), 5)
                && is_char_boundary(encode_utf8(self.token()), blen(self.token()) - 5),
        ensures
            blen(self.token()) > 10 ==> encode_utf8(r@) == encode_utf8(self.token()).subrange(0, 5)
                + encode_utf8("..."@) + encode_utf8(self.token()).subrange(
                    blen(self.token()) - 5, blen(self.token()) as int),
            blen(self.token()) <= 10 ==> r@ == "***"@,
    {
        let t = self.bot_token.as_str();
        let n = byte_len(t);
        if n <= 10 {
            return String::from_str("***");
        }
        proof {
            encode_utf8_valid_utf8(t@);
        }
        let (head, rest) = t.split_at(5);
        let (_, tail) = t.split_at(n - 5);
        let mut r = String::from_str(head);
        r.append("...");
        r.append(tail);
        proof {
            crate::text::lemma_encode_concat(head@ + "..."@, tail@);
            crate::text::lemma_encode_concat(head@, "..."@);
            assert(r@ == head@ + "..."@ + tail@);
        }
        r
    }
}

/// What a bot API answer holds: its "result" where "ok" is true, else the
/// error `method error: description` ("unknown" where there is no
/// description).
pub open spec fn bot_answer(method: Seq<char>, resp: JsonValue) -> Result<JsonValue, Seq<char>> {
    if bool_of(member(resp, "ok"@)) == Some(true) {
        Ok(member(resp, "result"@))
    } else {
        Err(method + " error: "@ + match str_of(member(resp, "description"@)) {
            Some(d) => d,
            None => "unknown"@,
        })
    }
}

/// The result of a bot API answer, or its error.
pub fn bot_result<'a>(method: &str, resp: &'a JsonValue) -> (r: Result<Option<&'a JsonValue>, String>)
    ensures
        match r {
            Ok(x) => bot_answer(method@, *resp) == Ok::<JsonValue, Seq<char>>(or_null(x)),
            Err(e) => bot_answer(method@, *resp) == Err::<JsonValue, Seq<char>>(e@),
        },
{
    match bool_in(get(resp, "ok")) {
        Some(true) => Ok(get(resp, "result")),
        _ => {
            let mut e = String::from_str(method);
            e.append(" error: ");
            match text_in(get(resp, "description")) {
                Some(d) => e.append(d),
                None => e.append("unknown"),
            }
            Err(e)
        },
    }
}

fn text_or_empty(v: Option<&JsonValue>) -> (r: String)
    ensures
        r@ == or_empty(str_of(or_null(v))),
{
    match text_in(v) {
        Some(t) => String::from_str(t),
        None => String::new(),
    }
}

fn text_opt(v: Option<&JsonValue>) -> (r: Option<String>)
    ensures
        match r {
            Some(t) => str_of(or_null(v)) == Some(t@),
            None => str_of(or_null(v)) is None,
        },
{
    match text_in(v) {
        Some(t) => Some(String::from_str(t)),
        None => None,
    }
}

/// The bot's information from a getMe result.
pub fn bot_info_of(result: Option<&JsonValue>) -> (r: BotInfo)
    ensures
        r.id@ == or_empty(str_of(member(or_null(result), "id"@))),
        r.name@ == or_empty(str_of(member(or_null(result), "name"@))),
        match r.username {
            Some(u) => str_of(member(or_null(result), "username"@)) == Some(u@),
            None => str_of(member(or_null(result), "username"@)) is None,
        },
{
    BotInfo {
        id: text_or_empty(get_in(result, "id")),
        name: text_or_empty(get_in(result, "name")),
        username: text_opt(get_in(result, "username")),
    }
}

/// The outcome of a sendMessage or sendPhoto result.
pub fn send_result_of(result: Option<&JsonValue>) -> (r: SendResult)
    ensures
        r.message_id@ == or_empty(str_of(member(or_null(result), "message_id"@))),
        r.date == i64_of(member(or_null(result), "date"@)),
{
    SendResult {
        message_id: text_or_empty(get_in(result, "message_id")),
        date: i64_in(get_in(result, "date")),
    }
}

/// The webhook information of a setWebhook or getWebhookInfo result.
pub fn webhook_info_of(result: Option<&JsonValue>) -> (r: WebhookInfo)
    ensures
        r.url@ == or_empty(str_of(member(or_null(result), "url"@))),
        r.updated_at == i64_of(member(or_null(result), "updated_at"@)),
{
    WebhookInfo {
        url: text_or_empty(get_in(result, "url")),
        updated_at: i64_in(get_in(result, "updated_at")),
    }
}

/// State of the WebSocket connection.
#[derive(Debug, Clone, Copy, PartialEq, Eq, Structural)]
pub enum ConnectionState {
    Connected,
    Disconnected,
    Reconnecting,
}

/// What a WebSocket event is, by its command code.
#[derive(Debug, Clone, Copy, PartialEq, Eq, Structural)]
pub enum ZaloEventKind {
    /// A new message (501).
    Message,
    /// A message recalled (521).
    MessageUndo,
    /// A reaction to a message (612).
    Reaction,
    /// Anything else, kept raw.
    Raw,
}

/// The kind of a WebSocket event with command code `cmd` (0 when the event
/// has none).
pub fn event_kind(cmd: i64) -> (r: ZaloEventKind)
    ensures
        r == (if cmd == 501 {
            ZaloEventKind::Message
        } else if cmd == 521 {
            ZaloEventKind::MessageUndo
        } else if cmd == 612 {
            ZaloEventKind::Reaction
        } else {
            ZaloEventKind::Raw
        }),
{
    if cmd == 501 {
        ZaloEventKind::Message
    } else if cmd == 521 {
        ZaloEventKind::MessageUndo
    } else if cmd == 612 {
        ZaloEventKind::Reaction
    } else {
        ZaloEventKind::Raw
    }
}

/// The content of a Zalo message.
#[derive(Debug, Clone)]
pub enum ZaloMessageContent {
    /// Plain text.
    Text(String),
}

/// A Zalo message received by the listener.
#[derive(Debug, Clone)]
pub struct ZaloMessage {
    pub msg_id: String,
    pub thread_id: String,
    pub sender_id: String,
    pub content: ZaloMessageContent,
    pub timestamp: u64,
    /// Whether the account itself sent it.
    pub is_self: bool,
}

/// A WebSocket event of the listener.
#[derive(Debug)]
pub enum ZaloEvent {
    /// A new message.
    Message(ZaloMessage),
    /// A message recalled.
    MessageUndo { msg_id: String, thread_id: String },
    /// A reaction to a message.
    Reaction { msg_id: String, reactor_id: String, reaction: String },
    /// Any other event, as received.
    Raw(JsonValue),
}

/// The command code of an event: its "cmd" number, 0 where it has none.
pub open spec fn event_cmd(json: JsonValue) -> i64 {
    match i64_of(member(json, "cmd"@)) {
        Some(c) => c,
        None => 0,
    }
}

/// A text field of an event's "data", empty where it is missing.
pub open spec fn data_text(json: JsonValue, key: Seq<char>) -> Seq<char> {
    or_empty(str_of(member(member(json, "data"@), key)))
}

/// The event read from a WebSocket message's JSON: messages (501), undos
/// (521) and reactions (612) by their data fields, anything else raw.
pub open spec fn event_of(json: JsonValue, r: ZaloEvent) -> bool {
    let cmd = event_cmd(json);
    if cmd == 501 {
        &&& r matches ZaloEvent::Message(m)
        &&& r->Message_0.msg_id@ == data_text(json, "msgId"@)
        &&& r->Message_0.thread_id@ == data_text(json, "toid"@)
        &&& r->Message_0.sender_id@ == data_text(json, "uidFrom"@)
        &&& r->Message_0.content matches ZaloMessageContent::Text(t)
        &&& r->Message_0.content->Text_0@ == data_text(json, "content"@)
        &&& r->Message_0.timestamp == (match u64_of(member(member(json, "data"@), "ts"@)) { Some(t) => t, None => 0 })
        &&& !r->Message_0.is_self
    } else if cmd == 521 {
        &&& r matches ZaloEvent::MessageUndo { msg_id, thread_id }
        &&& msg_id@ == data_text(json, "msgId"@)
        &&& thread_id@ == data_text(json, "toid"@)
    } else if cmd == 612 {
        &&& r matches ZaloEvent::Reaction { msg_id, reactor_id, reaction }
        &&& msg_id@ == data_text(json, "msgId"@)
        &&& reactor_id@ == data_text(json, "uidFrom"@)
        &&& reaction@ == data_text(json, "rType"@)
    } else {
        r matches ZaloEvent::Raw(j) && j == json
    }
}

fn data_field(json: &JsonValue, key: &str) -> (r: String)
    ensures
        r@ == data_text(*json, key@),
{
    match text_in(get_in(get(json, "data"), key)) {
        Some(t) => String::from_str(t),
        None => String::new(),
    }
}

/// The event of a WebSocket message read as JSON.
pub fn event_from_json(json: JsonValue) -> (r: ZaloEvent)
    ensures
        event_of(json, r),
{
    let cmd = match i64_in(get(&json, "cmd")) {
        Some(c) => c,
        None => 0,
    };
    match event_kind(cmd) {
        ZaloEventKind::Message => {
            let timestamp = match u64_in(get_in(get(&json, "data"), "ts")) {
                Some(t) => t,
                None => 0,
            };
            ZaloEvent::Message(ZaloMessage {
                msg_id: data_field(&json, "msgId"),
                thread_id: data_field(&json, "toid"),
                sender_id: data_field(&json, "uidFrom"),
                content: ZaloMessageContent::Text(data_field(&json, "content")),
                timestamp,
                is_self: false,
            })
        },
        ZaloEventKind::MessageUndo => ZaloEvent::MessageUndo {
            msg_id: data_field(&json, "msgId"),
            thread_id: data_field(&json, "toid"),
        },
        ZaloEventKind::Reaction => ZaloEvent::Reaction {
            msg_id: data_field(&json, "msgId"),
            reactor_id: data_field(&json, "uidFrom"),
            reaction: data_field(&json, "rType"),
        },
        ZaloEventKind::Raw => ZaloEvent::Raw(json),
    }
}

/// State of the Zalo WebSocket listener.
pub struct ZaloListener {
    ws_url: String,
    connected: bool,
}

impl ZaloListener {
    /// The WebSocket URL listened to.
    pub closed spec fn url(self) -> Seq<char> {
        self.ws_url@
    }

    /// Whether the socket is open.
    pub closed spec fn connected_spec(self) -> bool {
        self.connected
    }

    /// A listener for the URL, not connected.
    pub fn new(ws_url: &str) -> (r: Self)
        ensures
            r.url() == ws_url@,
            !r.connected_spec(),
    {
        ZaloListener { ws_url: String::from_str(ws_url), connected: false }
    }

    /// The WebSocket URL.
    pub fn ws_url(&self) -> (r: &str)
        ensures
            r@ == self.url(),
    {
        self.ws_url.as_str()
    }

    /// Whether the socket is open.
    pub fn is_connected(&self) -> (r: bool)
        ensures
            r == self.connected_spec(),
    {
        self.connected
    }

    /// Records that the socket opened, or closed or failed.
    pub fn set_connected(&mut self, connected: bool)
        ensures
            final(self).connected_spec() == connected,
            final(self).url() == old(self).url(),
    {
        self.connected = connected;
    }
}

/// A Zalo personal-account session.
#[derive(Debug, Clone)]
pub struct ZaloSession {
    pub uid: String,
    /// Encrypted key for the WebSocket.
    pub zpw_enk: Option<String>,
    /// Service key.
    pub zpw_key: Option<String>,
    pub ws_url: Option<String>,
    pub active: bool,
    /// Time of the last heartbeat, in seconds since the Unix epoch.
    pub last_heartbeat: u64,
}

impl Default for ZaloSession {
    fn default() -> (r: Self)
        ensures
            r.uid@ == Seq::<char>::empty(),
            r.zpw_enk is None,
            r.zpw_key is None,
            r.ws_url is None,
            !r.active,
            r.last_heartbeat == 0,
    {
        ZaloSession {
            uid: String::new(),
            zpw_enk: None,
            zpw_key: None,
            ws_url: None,
            active: false,
            last_heartbeat: 0,
        }
    }
}

impl ZaloSession {
    /// The session after a login at time `now`: the user and keys set,
    /// active, heartbeat now; the WebSocket URL kept.
    pub fn set_session(&mut self, uid: String, zpw_enk: Option<String>, zpw_key: Option<String>, now: u64)
        ensures
            final(self).uid == uid,
            final(self).zpw_enk == zpw_enk,
            final(self).zpw_key == zpw_key,
            final(self).ws_url == old(self).ws_url,
            final(self).active,
            final(self).last_heartbeat == now,
    {
        self.uid = uid;
        self.zpw_enk = zpw_enk;
        self.zpw_key = zpw_key;
        self.active = true;
        self.last_heartbeat = now;
    }

    /// Records a heartbeat at time `now`.
    pub fn heartbeat(&mut self, now: u64)
        ensures
            final(self).last_heartbeat == now,
            final(self).uid == old(self).uid,
            final(self).zpw_enk == old(self).zpw_enk,
            final(self).zpw_key == old(self).zpw_key,
            final(self).ws_url == old(self).ws_url,
            final(self).active == old(self).active,
    {
        self.last_heartbeat = now;
    }

    /// Ends the session.
    pub fn invalidate(&mut self)
        ensures
            !final(self).active,
            final(self).last_heartbeat == old(self).last_heartbeat,
            final(self).uid == old(self).uid,
            final(self).zpw_enk == old(self).zpw_enk,
            final(self).zpw_key == old(self).zpw_key,
            final(self).ws_url == old(self).ws_url,
    {
        self.active = false;
    }
}

/// The browser identity sent when none is configured.
pub open spec fn default_user_agent() -> Seq<char> {
    "Mozilla/5.0 (Windows NT 10.0; Win64; x64; rv:133.0) Gecko/20100101 Firefox/133.0"@
}

/// How the channel connects, by its configured mode.
#[derive(Debug, Clone, Copy, PartialEq, Eq, Structural)]
pub enum ZaloConnect {
    /// The personal account: log in with the saved cookie.
    Personal,
    /// The official account API: nothing to log in to.
    Official,
}

/// The Zalo channel: its configuration, the browser identity it presents,
/// the cookie it logged in with, the session and whether it is connected.
pub struct ZaloChannel {
    config: ZaloChannelConfig,
    user_agent: String,
    cookie: Option<String>,
    session: ZaloSession,
    connected: bool,
}

impl ZaloChannel {
    pub closed spec fn cfg(self) -> ZaloChannelConfig {
        self.config
    }

    pub closed spec fn agent(self) -> Seq<char> {
        self.user_agent@
    }

    pub closed spec fn cookie_view(self) -> Option<Seq<char>> {
        match self.cookie {
            Some(c) => Some(c@),
            None => None,
        }
    }

    pub closed spec fn session_view(self) -> ZaloSession {
        self.session
    }

    pub closed spec fn connected_spec(self) -> bool {
        self.connected
    }

    /// A channel that has not logged in: the configured browser identity,
    /// or the default one where none is configured.
    pub fn new(config: ZaloChannelConfig) -> (r: Self)
        ensures
            r.cfg() == config,
            r.agent() == (if config.personal.user_agent@.len() == 0 {
                default_user_agent()
            } else {
                config.personal.user_agent@
            }),
            r.cookie_view() is None,
            !r.session_view().active,
            !r.connected_spec(),
    {
        let user_agent = if config.personal.user_agent.as_str().is_empty() {
            String::from_str("Mozilla/5.0 (Windows NT 10.0; Win64; x64; rv:133.0) Gecko/20100101 Firefox/133.0")
        } else {
            config.personal.user_agent.clone()
        };
        ZaloChannel { config, user_agent, cookie: None, session: ZaloSession::default(), connected: false }
    }

    pub fn name(&self) -> (r: &'static str)
        ensures
            r@ == "zalo"@,
    {
        "zalo"
    }

    /// The browser identity presented to Zalo.
    pub fn user_agent(&self) -> (r: &str)
        ensures
            r@ == self.agent(),
    {
        self.user_agent.as_str()
    }

    pub fn is_connected(&self) -> (r: bool)
        ensures
            r == self.connected_spec(),
    {
        self.connected
    }

    /// How to connect: "personal" and "official" are the modes; any other
    /// is refused with "Unknown Zalo mode: " and the mode.
    pub fn connect_mode(&self) -> (r: Result<ZaloConnect, String>)
        ensures
            self.cfg().mode@ == "personal"@ ==> r == Ok::<ZaloConnect, String>(ZaloConnect::Personal),
            self.cfg().mode@ == "official"@ ==> r == Ok::<ZaloConnect, String>(ZaloConnect::Official),
            self.cfg().mode@ != "personal"@ && self.cfg().mode@ != "official"@
                ==> (r matches Err(e) && e@ == "Unknown Zalo mode: "@ + self.cfg().mode@),
    {
        proof {
            reveal_strlit("personal");
            reveal_strlit("official");
            assert("personal"@[0] != "official"@[0]);
        }
        if str_eq(self.config.mode.as_str(), "personal") {
            Ok(ZaloConnect::Personal)
        } else if str_eq(self.config.mode.as_str(), "official") {
            Ok(ZaloConnect::Official)
        } else {
            let mut e = String::from_str("Unknown Zalo mode: ");
            e.append(self.config.mode.as_str());
            Err(e)
        }
    }

    /// The official account is connected without logging in.
    pub fn connect_official(&mut self)
        ensures
            final(self).connected_spec(),
            final(self).cfg() == old(self).cfg(),
            final(self).agent() == old(self).agent(),
            final(self).cookie_view() == old(self).cookie_view(),
            final(self).session_view() == old(self).session_view(),
    {
        self.connected = true;
    }

    /// Records a login of the personal account with `cookie`: the session
    /// holds the user and keys from the login's answer, and the channel is
    /// connected.
    pub fn logged_in(&mut self, cookie: &str, uid: String, zpw_enk: Option<String>, zpw_key: Option<String>, now: u64)
        ensures
            final(self).connected_spec(),
            final(self).cookie_view() == Some(cookie@),
            final(self).session_view().uid == uid,
            final(self).session_view().zpw_enk == zpw_enk,
            final(self).session_view().zpw_key == zpw_key,
            final(self).session_view().active,
            final(self).session_view().last_heartbeat == now,
            final(self).cfg() == old(self).cfg(),
            final(self).agent() == old(self).agent(),
    {
        self.session.set_session(uid, zpw_enk, zpw_key, now);
        self.cookie = Some(String::from_str(cookie));
        self.connected = true;
    }

    /// Disconnects: the session ends and the channel is not connected.
    pub fn disconnect(&mut self)
        ensures
            !final(self).connected_spec(),
            !final(self).session_view().active,
            final(self).session_view().uid == old(self).session_view().uid,
            final(self).cookie_view() == old(self).cookie_view(),
            final(self).cfg() == old(self).cfg(),
            final(self).agent() == old(self).agent(),
    {
        self.session.invalidate();
        self.connected = false;
    }

    /// The cookie to send a message with; refused with "Zalo not logged in"
    /// before a login.
    pub fn send_cookie(&self) -> (r: Result<&str, String>)
        ensures
            match self.cookie_view() {
                Some(c) => r matches Ok(x) && x@ == c,
                None => r matches Err(e) && e@ == "Zalo not logged in"@,
            },
    {
        match &self.cookie {
            Some(c) => Ok(c.as_str()),
            None => Err(String::from_str("Zalo not logged in")),
        }
    }
}

/// The error when the personal account has no cookie to log in with.
pub open spec fn no_cookie_text() -> Seq<char> {
    "No Zalo cookie found. Configure cookie_path in config.toml or use QR login via admin dashboard."@
}

/// The error when the personal account has no cookie to log in with.
pub fn no_cookie_error() -> (r: String)
    ensures
        r@ == no_cookie_text(),
{
    String::from_str("No Zalo cookie found. Configure cookie_path in config.toml or use QR login via admin dashboard.")
}

/// The cookie held by a cookie file's content: none for blank content; the
/// "cookie" member where the trimmed content starts with '{' and reads as
/// JSON (`json`) holding it as text; else the trimmed content itself.
pub open spec fn cookie_of(content: Seq<char>, json: Option<JsonValue>) -> Option<Seq<char>> {
    let t = trim(content);
    if t.len() == 0 {
        None
    } else if t[0] == '{' && json is Some && str_of(member(json->0, "cookie"@)) is Some {
        str_of(member(json->0, "cookie"@))
    } else {
        Some(t)
    }
}

/// The cookie held by a cookie file's content, given that content trimmed
/// and read as JSON where it could be.
pub fn cookie_from_content(content: &str, json: Option<&JsonValue>) -> (r: Option<String>)
    ensures
        match r {
            Some(c) => cookie_of(content@, match json { Some(j) => Some(*j), None => None }) == Some(c@),
            None => cookie_of(content@, match json { Some(j) => Some(*j), None => None }) is None,
        },
{
    let cs = chars_of(content);
    let t = trim_chars(cs.as_slice());
    if t.len() == 0 {
        return None;
    }
    if t[0] == '{' {
        match json {
            Some(j) => match text_in(get(j, "cookie")) {
                Some(c) => return Some(String::from_str(c)),
                None => {},
            },
            None => {},
        }
    }
    Some(string_from_chars(t.as_slice()))
}

/// A product of an Official Account's store.
#[derive(Debug, Clone)]
pub struct ZaloProduct {
    pub id: String,
    pub name: String,
    /// The price as its JSON number text.
    pub price: Option<String>,
    pub photo_url: Option<String>,
}

/// A product catalog.
#[derive(Debug, Clone)]
pub struct ZaloCatalog {
    pub id: String,
    pub name: String,
    pub products: Vec<ZaloProduct>,
}

/// A product as (ID, name, price text, photo URL).
pub open spec fn product_view(p: ZaloProduct) -> (Seq<char>, Seq<char>, Option<Seq<char>>, Option<Seq<char>>) {
    (p.id@, p.name@, match p.price { Some(t) => Some(t@), None => None }, match p.photo_url { Some(u) => Some(u@), None => None })
}

/// The number text of a JSON number.
pub open spec fn number_text(v: JsonValue) -> Option<Seq<char>> {
    match v {
        JsonValue::Number(t) => Some(t@),
        _ => None,
    }
}

/// The products of a store listing: those with a text "id", in order.
pub open spec fn products_of(items: Seq<JsonValue>) -> Seq<(Seq<char>, Seq<char>, Option<Seq<char>>, Option<Seq<char>>)>
    decreases items.len(),
{
    if items.len() == 0 {
        Seq::empty()
    } else {
        let rest = products_of(items.drop_last());
        let p = items.last();
        match str_of(member(p, "id"@)) {
            Some(id) => rest.push((id, or_empty(str_of(member(p, "name"@))), number_text(member(p, "price"@)),
                str_of(member(p, "photo"@)))),
            None => rest,
        }
    }
}

/// The Official Account API of the business features.
pub struct ZaloBusiness {
    base_url: String,
}

impl ZaloBusiness {
    pub closed spec fn base(self) -> Seq<char> {
        self.base_url@
    }

    /// The client of the v3 Official Account API.
    pub fn new() -> (r: Self)
        ensures
            r.base() == "https://openapi.zalo.me/v3.0/oa"@,
    {
        ZaloBusiness { base_url: String::from_str("https://openapi.zalo.me/v3.0/oa") }
    }

    /// Where the store's products are listed.
    pub fn catalog_url(&self) -> (r: String)
        ensures
            r@ == self.base() + "/store/getslice"@,
    {
        let mut r = self.base_url.clone();
        r.append("/store/getslice");
        r
    }

    /// Where customer-service messages are sent.
    pub fn message_url(&self) -> (r: String)
        ensures
            r@ == self.base() + "/message/cs"@,
    {
        let mut r = self.base_url.clone();
        r.append("/message/cs");
        r
    }
}

/// The catalogs of a store listing: one default catalog with the listed
/// products that have an ID, or none where the listing holds no product
/// array.
pub fn catalog_of(body: &JsonValue) -> (r: Vec<ZaloCatalog>)
    ensures
        (member(member(*body, "data"@), "products"@) is Array) ==> (r@.len() == 1
            && r@[0].id@ == "default"@
            && r@[0].name@ == "Product Catalog"@
            && r@[0].products@.map_values(|p: ZaloProduct| product_view(p))
                == products_of(items_of(member(member(*body, "data"@), "products"@)))),
        !(member(member(*body, "data"@), "products"@) is Array) ==> r@.len() == 0,
{
    let listed = get_in(get(body, "data"), "products");
    let is_array = match listed {
        Some(JsonValue::Array(_)) => true,
        _ => false,
    };
    if !is_array {
        return Vec::new();
    }
    let items = items_in(listed);
    let mut products: Vec<ZaloProduct> = Vec::new();
    let mut i: usize = 0;
    assert(items@.take(0) =~= Seq::<JsonValue>::empty());
    assert(products@.map_values(|p: ZaloProduct| product_view(p)) =~= products_of(items@.take(0)));
    while i < items.len()
        invariant
            i <= items.len(),
            products@.map_values(|p: ZaloProduct| product_view(p)) == products_of(items@.take(i as int)),
        decreases items.len() - i,
    {
        let p = &items[i];
        assert(items@.take(i + 1).drop_last() =~= items@.take(i as int));
        assert(items@.take(i + 1).last() == *p);
        match text_in(get(p, "id")) {
            Some(id) => {
                let price = match get(p, "price") {
                    Some(JsonValue::Number(t)) => Some(t.clone()),
                    _ => None,
                };
                let product = ZaloProduct {
                    id: String::from_str(id),
                    name: match text_in(get(p, "name")) {
                        Some(nm) => String::from_str(nm),
                        None => String::new(),
                    },
                    price,
                    photo_url: match text_in(get(p, "photo")) {
                        Some(u) => Some(String::from_str(u)),
                        None => None,
                    },
                };
                let ghost before = products@;
                products.push(product);
                assert(products@.map_values(|q: ZaloProduct| product_view(q))
                    =~= before.map_values(|q: ZaloProduct| product_view(q)).push(product_view(product)));
            },
            None => {},
        }
        i = i + 1;
    }
    assert(items@.take(items.len() as int) =~= items@);
    let mut r: Vec<ZaloCatalog> = Vec::new();
    r.push(ZaloCatalog {
        id: String::from_str("default"),
        name: String::from_str("Product Catalog"),
        products,
    });
    r
}

/// The outcome of a customer-service message: sent where the answer's
/// "error" is 0, else refused with "OA send error: " and its "message"
/// ("unknown" where there is none).
pub fn oa_send_outcome(result: &JsonValue) -> (r: Result<(), String>)
    ensures
        i64_of(member(*result, "error"@)) == Some(0i64) ==> r is Ok,
        i64_of(member(*result, "error"@)) != Some(0i64) ==> (r matches Err(e)
            && e@ == "OA send error: "@ + match str_of(member(*result, "message"@)) {
                Some(m) => m,
                None => "unknown"@,
            }),
{
    let code = match i64_in(get(result, "error")) {
        Some(c) => c,
        None => -1,
    };
    if code == 0 {
        return Ok(());
    }
    let mut e = String::from_str("OA send error: ");
    match text_in(get(result, "message")) {
        Some(m) => e.append(m),
        None => e.append("unknown"),
    }
    Err(e)
}

} // verus!
