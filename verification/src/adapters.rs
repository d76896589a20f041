//! Inbound messages of the webhook-driven adapters: which events of a LINE,
//! Microsoft Teams or Facebook Messenger payload are messages, and what
//! each message holds.

use vstd::prelude::*;
use vstd::string::*;
use crate::channels::{GenericWebhookConfig, LineConfig, MessengerConfig, TeamsConfig};
use crate::json::{get, get_in, items_in, items_of, member, or_null, str_of, text_in, JsonValue};
use crate::text::str_eq;

verus! {

/// Whether a conversation is one-to-one or a group.
#[derive(Debug, Clone, Copy, PartialEq, Eq, Structural)]
pub enum ThreadType {
    Direct,
    Group,
}

/// A message received on a channel.
#[derive(Debug, Clone)]
pub struct IncomingMessage {
    pub channel: String,
    pub thread_id: String,
    pub sender_id: String,
    pub sender_name: Option<String>,
    pub content: String,
    pub thread_type: ThreadType,
    /// What a reply refers to (a reply token or an activity ID).
    pub reply_to: Option<String>,
}

/// A received message, its texts as character sequences.
pub struct MessageView {
    pub channel: Seq<char>,
    pub thread_id: Seq<char>,
    pub sender_id: Seq<char>,
    pub sender_name: Option<Seq<char>>,
    pub content: Seq<char>,
    pub thread_type: ThreadType,
    pub reply_to: Option<Seq<char>>,
}

pub open spec fn opt_view(o: Option<String>) -> Option<Seq<char>> {
    match o {
        Some(s) => Some(s@),
        None => None,
    }
}

impl View for IncomingMessage {
    type V = MessageView;

    open spec fn view(&self) -> MessageView {
        MessageView {
            channel: self.channel@,
            thread_id: self.thread_id@,
            sender_id: self.sender_id@,
            sender_name: opt_view(self.sender_name),
            content: self.content@,
            thread_type: self.thread_type,
            reply_to: opt_view(self.reply_to),
        }
    }
}

/// Text that may be missing, read as empty where it is.
pub open spec fn or_empty(o: Option<Seq<char>>) -> Seq<char> {
    match o {
        Some(s) => s,
        None => Seq::empty(),
    }
}

pub open spec fn views(ms: Seq<IncomingMessage>) -> Seq<MessageView> {
    ms.map_values(|m: IncomingMessage| m@)
}

fn owned_or_empty(s: Option<&str>) -> (r: String)
    ensures
        r@ == or_empty(match s { Some(t) => Some(t@), None => None }),
{
    match s {
        Some(t) => String::from_str(t),
        None => String::new(),
    }
}

fn owned(s: Option<&str>) -> (r: Option<String>)
    ensures
        opt_view(r) == (match s { Some(t) => Some(t@), None => None::<Seq<char>> }),
{
    match s {
        Some(t) => Some(String::from_str(t)),
        None => None,
    }
}

fn is_text(s: Option<&str>, expected: &str) -> (r: bool)
    ensures
        r == (match s { Some(t) => Some(t@), None => None::<Seq<char>> } == Some(expected@)),
{
    match s {
        Some(t) => str_eq(t, expected),
        None => false,
    }
}

// ── LINE ──────────────────────────────────────────────

/// A LINE event that is a text message.
pub open spec fn line_is_text(e: JsonValue) -> bool {
    str_of(member(e, "type"@)) == Some("message"@)
        && str_of(member(member(e, "message"@), "type"@)) == Some("text"@)
}

/// The message of a LINE text event: the thread and the sender are the
/// source user, a group source makes a group thread, and a reply goes to
/// the event's reply token.
pub open spec fn line_view(e: JsonValue) -> MessageView {
    let user = or_empty(str_of(member(member(e, "source"@), "userId"@)));
    MessageView {
        channel: "line"@,
        thread_id: user,
        sender_id: user,
        sender_name: None,
        content: or_empty(str_of(member(member(e, "message"@), "text"@))),
        thread_type: if str_of(member(member(e, "source"@), "type"@)) == Some("group"@) {
            ThreadType::Group
        } else {
            ThreadType::Direct
        },
        reply_to: str_of(member(e, "replyToken"@)),
    }
}

/// The messages of a sequence of LINE events, in order.
pub open spec fn line_messages(es: Seq<JsonValue>) -> Seq<MessageView>
    decreases es.len(),
{
    if es.len() == 0 {
        Seq::empty()
    } else if line_is_text(es.last()) {
        line_messages(es.drop_last()).push(line_view(es.last()))
    } else {
        line_messages(es.drop_last())
    }
}

/// A LINE channel: its configuration and whether it is connected.
pub struct LineChannel {
    config: LineConfig,
    connected: bool,
}

impl LineChannel {
    pub closed spec fn connected_state(self) -> bool {
        self.connected
    }

    pub closed spec fn cfg(self) -> LineConfig {
        self.config
    }

    /// The channel's configuration.
    pub fn config(&self) -> (r: &LineConfig)
        ensures
            *r == self.cfg(),
    {
        &self.config
    }

    /// A channel that is not connected yet.
    pub fn new(config: LineConfig) -> (r: Self)
        ensures
            !r.connected_state(),
            r.cfg() == config,
    {
        LineChannel { config, connected: false }
    }

    pub fn name(&self) -> (r: &'static str)
        ensures
            r@ == "line"@,
    {
        "line"
    }

    pub fn is_connected(&self) -> (r: bool)
        ensures
            r == self.connected_state(),
    {
        self.connected
    }

    /// Marks the channel connected or not.
    pub fn set_connected(&mut self, connected: bool)
        ensures
            final(self).connected_state() == connected,
            final(self).cfg() == old(self).cfg(),
    {
        self.connected = connected;
    }

    /// The text messages of a LINE webhook payload, in the order of its
    /// events.
    pub fn parse_webhook(&self, payload: &JsonValue) -> (r: Vec<IncomingMessage>)
        ensures
            views(r@) == line_messages(items_of(member(*payload, "events"@))),
    {
        let events = items_in(get(payload, "events"));
        let mut out: Vec<IncomingMessage> = Vec::new();
        let mut i: usize = 0;
        assert(events@.take(0) =~= Seq::<JsonValue>::empty());
        assert(views(out@) =~= Seq::<MessageView>::empty());
        while i < events.len()
            invariant
                i <= events.len(),
                views(out@) == line_messages(events@.take(i as int)),
            decreases events.len() - i,
        {
            let e = &events[i];
            assert(events@.take(i + 1).drop_last() =~= events@.take(i as int));
            assert(events@.take(i + 1).last() == *e);
            let kind = text_in(get(e, "type"));
            let msg_kind = text_in(get_in(get(e, "message"), "type"));
            if is_text(kind, "message") && is_text(msg_kind, "text") {
                let source = get(e, "source");
                let user = text_in(get_in(source, "userId"));
                let group = is_text(text_in(get_in(source, "type")), "group");
                let m = IncomingMessage {
                    channel: String::from_str("line"),
                    thread_id: owned_or_empty(user),
                    sender_id: owned_or_empty(user),
                    sender_name: None,
                    content: owned_or_empty(text_in(get_in(get(e, "message"), "text"))),
                    thread_type: if group { ThreadType::Group } else { ThreadType::Direct },
                    reply_to: owned(text_in(get(e, "replyToken"))),
                };
                let ghost before = out@;
                out.push(m);
                assert(views(out@) =~= views(before).push(m@));
                assert(m@ == line_view(*e));
            }
            i = i + 1;
        }
        assert(events@.take(events.len() as int) =~= events@);
        out
    }
}

// ── Microsoft Teams ───────────────────────────────────

/// The message of a Teams activity: the conversation is the thread, a
/// "personal" conversation is one-to-one, and a reply goes to the activity
/// it answers.
pub open spec fn teams_view(p: JsonValue) -> MessageView {
    MessageView {
        channel: "teams"@,
        thread_id: or_empty(str_of(member(member(p, "conversation"@), "id"@))),
        sender_id: or_empty(str_of(member(member(p, "from"@), "id"@))),
        sender_name: str_of(member(member(p, "from"@), "name"@)),
        content: or_empty(str_of(member(p, "text"@))),
        thread_type: if str_of(member(member(p, "conversation"@), "conversationType"@)) == Some("personal"@) {
            ThreadType::Direct
        } else {
            ThreadType::Group
        },
        reply_to: str_of(member(p, "replyToId"@)),
    }
}

/// A Microsoft Teams channel: its configuration and whether it is
/// connected.
pub struct TeamsChannel {
    config: TeamsConfig,
    connected: bool,
}

impl TeamsChannel {
    pub closed spec fn connected_state(self) -> bool {
        self.connected
    }

    pub closed spec fn cfg(self) -> TeamsConfig {
        self.config
    }

    /// The channel's configuration.
    pub fn config(&self) -> (r: &TeamsConfig)
        ensures
            *r == self.cfg(),
    {
        &self.config
    }

    /// A channel that is not connected yet.
    pub fn new(config: TeamsConfig) -> (r: Self)
        ensures
            !r.connected_state(),
            r.cfg() == config,
    {
        TeamsChannel { config, connected: false }
    }

    pub fn name(&self) -> (r: &'static str)
        ensures
            r@ == "teams"@,
    {
        "teams"
    }

    pub fn is_connected(&self) -> (r: bool)
        ensures
            r == self.connected_state(),
    {
        self.connected
    }

    /// Marks the channel connected or not.
    pub fn set_connected(&mut self, connected: bool)
        ensures
            final(self).connected_state() == connected,
            final(self).cfg() == old(self).cfg(),
    {
        self.connected = connected;
    }

    /// The message of a Bot Framework activity; only "message" activities
    /// carry one.
    pub fn parse_activity(&self, payload: &JsonValue) -> (r: Option<IncomingMessage>)
        ensures
            str_of(member(*payload, "type"@)) == Some("message"@) ==> (r matches Some(m) && m@ == teams_view(*payload)),
            str_of(member(*payload, "type"@)) != Some("message"@) ==> r is None,
    {
        if !is_text(text_in(get(payload, "type")), "message") {
            return None;
        }
        let conversation = get(payload, "conversation");
        let from = get(payload, "from");
        let personal = is_text(text_in(get_in(conversation, "conversationType")), "personal");
        let m = IncomingMessage {
            channel: String::from_str("teams"),
            thread_id: owned_or_empty(text_in(get_in(conversation, "id"))),
            sender_id: owned_or_empty(text_in(get_in(from, "id"))),
            sender_name: owned(text_in(get_in(from, "name"))),
            content: owned_or_empty(text_in(get(payload, "text"))),
            thread_type: if personal { ThreadType::Direct } else { ThreadType::Group },
            reply_to: owned(text_in(get(payload, "replyToId"))),
        };
        Some(m)
    }
}

// ── Facebook Messenger ────────────────────────────────

/// The message of a Messenger event with text `t`: the sender is also the
/// thread, always one-to-one.
pub open spec fn messenger_view(ev: JsonValue, t: Seq<char>) -> MessageView {
    let sender = or_empty(str_of(member(member(ev, "sender"@), "id"@)));
    MessageView {
        channel: "messenger"@,
        thread_id: sender,
        sender_id: sender,
        sender_name: None,
        content: t,
        thread_type: ThreadType::Direct,
        reply_to: None,
    }
}

/// The messages among the messaging events of one entry: those whose
/// message has a text.
pub open spec fn messenger_entry_messages(evs: Seq<JsonValue>) -> Seq<MessageView>
    decreases evs.len(),
{
    if evs.len() == 0 {
        Seq::empty()
    } else {
        let rest = messenger_entry_messages(evs.drop_last());
        match str_of(member(member(evs.last(), "message"@), "text"@)) {
            Some(t) => rest.push(messenger_view(evs.last(), t)),
            None => rest,
        }
    }
}

/// The messages of a sequence of entries, entry by entry.
pub open spec fn messenger_messages(entries: Seq<JsonValue>) -> Seq<MessageView>
    decreases entries.len(),
{
    if entries.len() == 0 {
        Seq::empty()
    } else {
        messenger_messages(entries.drop_last())
            + messenger_entry_messages(items_of(member(entries.last(), "messaging"@)))
    }
}

/// A Facebook Messenger channel: its configuration and whether it is
/// connected.
pub struct MessengerChannel {
    config: MessengerConfig,
    connected: bool,
}

impl MessengerChannel {
    pub closed spec fn connected_state(self) -> bool {
        self.connected
    }

    pub closed spec fn cfg(self) -> MessengerConfig {
        self.config
    }

    /// The channel's configuration.
    pub fn config(&self) -> (r: &MessengerConfig)
        ensures
            *r == self.cfg(),
    {
        &self.config
    }

    /// A channel that is not connected yet.
    pub fn new(config: MessengerConfig) -> (r: Self)
        ensures
            !r.connected_state(),
            r.cfg() == config,
    {
        MessengerChannel { config, connected: false }
    }

    pub fn name(&self) -> (r: &'static str)
        ensures
            r@ == "messenger"@,
    {
        "messenger"
    }

    pub fn is_connected(&self) -> (r: bool)
        ensures
            r == self.connected_state(),
    {
        self.connected
    }

    /// Marks the channel connected or not.
    pub fn set_connected(&mut self, connected: bool)
        ensures
            final(self).connected_state() == connected,
            final(self).cfg() == old(self).cfg(),
    {
        self.connected = connected;
    }

    /// The text messages of a Messenger webhook payload, entry by entry.
    pub fn parse_webhook(&self, payload: &JsonValue) -> (r: Vec<IncomingMessage>)
        ensures
            views(r@) == messenger_messages(items_of(member(*payload, "entry"@))),
    {
        let entries = items_in(get(payload, "entry"));
        let mut out: Vec<IncomingMessage> = Vec::new();
        let mut i: usize = 0;
        assert(entries@.take(0) =~= Seq::<JsonValue>::empty());
        assert(views(out@) =~= Seq::<MessageView>::empty());
        while i < entries.len()
            invariant
                i <= entries.len(),
                views(out@) == messenger_messages(entries@.take(i as int)),
            decreases entries.len() - i,
        {
            let entry = &entries[i];
            assert(entries@.take(i + 1).drop_last() =~= entries@.take(i as int));
            assert(entries@.take(i + 1).last() == *entry);
            let evs = items_in(get(entry, "messaging"));
            let ghost done = views(out@);
            let mut j: usize = 0;
            assert(evs@.take(0) =~= Seq::<JsonValue>::empty());
            assert(done + messenger_entry_messages(evs@.take(0)) =~= done);
            while j < evs.len()
                invariant
                    j <= evs.len(),
                    views(out@) == done + messenger_entry_messages(evs@.take(j as int)),
                decreases evs.len() - j,
            {
                let ev = &evs[j];
                assert(evs@.take(j + 1).drop_last() =~= evs@.take(j as int));
                assert(evs@.take(j + 1).last() == *ev);
                match text_in(get_in(get(ev, "message"), "text")) {
                    Some(t) => {
                        let sender = text_in(get_in(get(ev, "sender"), "id"));
                        let m = IncomingMessage {
                            channel: String::from_str("messenger"),
                            thread_id: owned_or_empty(sender),
                            sender_id: owned_or_empty(sender),
                            sender_name: None,
                            content: String::from_str(t),
                            thread_type: ThreadType::Direct,
                            reply_to: None,
                        };
                        let ghost before = out@;
                        out.push(m);
                        assert(views(out@) =~= views(before).push(m@));
                        assert(m@ == messenger_view(*ev, t@));
                        assert(done + messenger_entry_messages(evs@.take(j + 1))
                            =~= (done + messenger_entry_messages(evs@.take(j as int))).push(m@));
                    },
                    None => {},
                }
                j = j + 1;
            }
            assert(evs@.take(evs.len() as int) =~= evs@);
            i = i + 1;
        }
        assert(entries@.take(entries.len() as int) =~= entries@);
        out
    }
}

// ── Generic webhook platforms ─────────────────────────

/// A platform reached through plain webhooks (Mattermost, Google Chat,
/// DingTalk, Feishu, Webex, Pumble, Flock and the like).
pub struct GenericWebhookChannel {
    config: GenericWebhookConfig,
    connected: bool,
}

impl GenericWebhookChannel {
    pub closed spec fn connected_state(self) -> bool {
        self.connected
    }

    pub closed spec fn cfg(self) -> GenericWebhookConfig {
        self.config
    }

    /// The channel's configuration.
    pub fn config(&self) -> (r: &GenericWebhookConfig)
        ensures
            *r == self.cfg(),
    {
        &self.config
    }

    /// A channel that is not connected yet.
    pub fn new(config: GenericWebhookConfig) -> (r: Self)
        ensures
            !r.connected_state(),
            r.cfg() == config,
    {
        GenericWebhookChannel { config, connected: false }
    }

    /// The platform's configured name.
    pub fn name(&self) -> (r: &str)
        ensures
            r@ == self.cfg().name@,
    {
        self.config.name.as_str()
    }

    pub fn is_connected(&self) -> (r: bool)
        ensures
            r == self.connected_state(),
    {
        self.connected
    }

    /// Marks the channel connected or not.
    pub fn set_connected(&mut self, connected: bool)
        ensures
            final(self).connected_state() == connected,
            final(self).cfg() == old(self).cfg(),
    {
        self.connected = connected;
    }
}

} // verus!
