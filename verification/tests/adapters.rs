use bizclaw::adapters::{GenericWebhookChannel, LineChannel, MessengerChannel, TeamsChannel, ThreadType};
use bizclaw::channels::{GenericWebhookConfig, LineConfig, MessengerConfig, TeamsConfig};
use bizclaw::json::JsonValue;
use serde_json::Value;

fn json(v: &Value) -> JsonValue {
    match v {
        Value::Null => JsonValue::Null,
        Value::Bool(b) => JsonValue::Bool(*b),
        Value::Number(n) => JsonValue::Number(n.to_string()),
        Value::String(s) => JsonValue::Str(s.clone()),
        Value::Array(a) => JsonValue::Array(a.iter().map(json).collect()),
        Value::Object(m) => JsonValue::Object(m.iter().map(|(k, x)| (k.clone(), json(x))).collect()),
    }
}

fn parse(text: &str) -> JsonValue {
    json(&serde_json::from_str::<Value>(text).unwrap())
}

fn line() -> LineChannel {
    LineChannel::new(LineConfig {
        channel_access_token: "test".into(),
        channel_secret: "test".into(),
        enabled: true,
    })
}

fn teams() -> TeamsChannel {
    TeamsChannel::new(TeamsConfig { app_id: "test".into(), app_password: "test".into(), enabled: true })
}

fn messenger() -> MessengerChannel {
    MessengerChannel::new(MessengerConfig {
        page_access_token: "test".into(),
        verify_token: "test".into(),
        enabled: true,
    })
}

#[test]
fn test_line_parse_text_message() {
    let ch = line();
    let payload = parse(
        r#"{
            "events": [{
                "type": "message",
                "source": {"type": "user", "userId": "U123"},
                "message": {"type": "text", "text": "Xin chào!"},
                "replyToken": "rt_abc"
            }]
        }"#,
    );
    let msgs = ch.parse_webhook(&payload);
    assert_eq!(msgs.len(), 1);
    assert_eq!(msgs[0].content, "Xin chào!");
    assert_eq!(msgs[0].sender_id, "U123");
}

#[test]
fn test_line_parse_group_message() {
    let ch = line();
    let payload = parse(
        r#"{
            "events": [{
                "type": "message",
                "source": {"type": "group", "groupId": "G123", "userId": "U456"},
                "message": {"type": "text", "text": "nhóm chat"},
                "replyToken": "rt_def"
            }]
        }"#,
    );
    let msgs = ch.parse_webhook(&payload);
    assert_eq!(msgs[0].thread_type, ThreadType::Group);
}

#[test]
fn test_line_ignore_non_text() {
    let ch = line();
    let payload = parse(
        r#"{
            "events": [{"type": "message", "source": {"userId": "U1"},
                "message": {"type": "image"}, "replyToken": "rt"}]
        }"#,
    );
    assert!(ch.parse_webhook(&payload).is_empty());
}

#[test]
fn line_message_fields_and_order() {
    let ch = line();
    let payload = parse(
        r#"{
            "events": [
                {"type": "message", "source": {"type": "user", "userId": "A"},
                 "message": {"type": "text", "text": "one"}, "replyToken": "r1"},
                {"type": "follow", "source": {"userId": "B"}},
                {"type": "message", "source": {"type": "room"},
                 "message": {"type": "text", "text": "two"}}
            ]
        }"#,
    );
    let msgs = ch.parse_webhook(&payload);
    assert_eq!(msgs.len(), 2);
    assert_eq!(msgs[0].channel, "line");
    assert_eq!(msgs[0].thread_id, "A");
    assert_eq!(msgs[0].reply_to, Some("r1".to_string()));
    assert_eq!(msgs[0].thread_type, ThreadType::Direct);
    assert_eq!(msgs[1].content, "two");
    assert_eq!(msgs[1].sender_id, "");
    assert_eq!(msgs[1].reply_to, None);
    assert!(ch.parse_webhook(&parse(r#"{"events": "none"}"#)).is_empty());
}

#[test]
fn test_teams_parse_personal_message() {
    let ch = teams();
    let payload = parse(
        r#"{
            "type": "message",
            "from": {"id": "user1", "name": "Hoai"},
            "conversation": {"id": "conv1", "conversationType": "personal"},
            "text": "Hello from Teams!"
        }"#,
    );
    let msg = ch.parse_activity(&payload).unwrap();
    assert_eq!(msg.content, "Hello from Teams!");
    assert_eq!(msg.thread_type, ThreadType::Direct);
    assert_eq!(msg.sender_name, Some("Hoai".into()));
}

#[test]
fn test_teams_parse_group_message() {
    let ch = teams();
    let payload = parse(
        r#"{
            "type": "message",
            "from": {"id": "u1", "name": "Tester"},
            "conversation": {"id": "c1", "conversationType": "groupChat"},
            "text": "group msg"
        }"#,
    );
    let msg = ch.parse_activity(&payload).unwrap();
    assert_eq!(msg.thread_type, ThreadType::Group);
}

#[test]
fn test_teams_ignore_non_message() {
    let ch = teams();
    let payload = parse(r#"{"type": "typing"}"#);
    assert!(ch.parse_activity(&payload).is_none());
}

#[test]
fn teams_reply_and_thread() {
    let ch = teams();
    let payload = parse(
        r#"{"type": "message", "conversation": {"id": "c9"}, "replyToId": "a7", "text": "x"}"#,
    );
    let msg = ch.parse_activity(&payload).unwrap();
    assert_eq!(msg.thread_id, "c9");
    assert_eq!(msg.sender_id, "");
    assert_eq!(msg.sender_name, None);
    assert_eq!(msg.reply_to, Some("a7".to_string()));
    assert_eq!(msg.thread_type, ThreadType::Group);
}

#[test]
fn test_messenger_parse_webhook() {
    let ch = messenger();
    let payload = parse(
        r#"{
            "entry": [{
                "messaging": [{
                    "sender": {"id": "psid123"},
                    "message": {"text": "Hi from Messenger"}
                }]
            }]
        }"#,
    );
    let msgs = ch.parse_webhook(&payload);
    assert_eq!(msgs.len(), 1);
    assert_eq!(msgs[0].content, "Hi from Messenger");
    assert_eq!(msgs[0].sender_id, "psid123");
}

#[test]
fn test_messenger_no_text_message() {
    let ch = messenger();
    let payload = parse(
        r#"{"entry": [{"messaging": [{"sender": {"id": "p1"}, "message": {"attachments": []}}]}]}"#,
    );
    assert!(ch.parse_webhook(&payload).is_empty());
}

#[test]
fn messenger_entries_in_order() {
    let ch = messenger();
    let payload = parse(
        r#"{"entry": [
            {"messaging": [{"sender": {"id": "a"}, "message": {"text": "1"}},
                           {"sender": {"id": "b"}, "message": {"text": "2"}}]},
            {"id": "no messaging"},
            {"messaging": [{"sender": {"id": "c"}, "message": {"text": "3"}}]}
        ]}"#,
    );
    let msgs = ch.parse_webhook(&payload);
    let contents: Vec<&str> = msgs.iter().map(|m| m.content.as_str()).collect();
    assert_eq!(contents, vec!["1", "2", "3"]);
    assert_eq!(msgs[2].thread_id, "c");
    assert_eq!(msgs[2].channel, "messenger");
}

#[test]
fn test_generic_webhook_creation() {
    let ch = GenericWebhookChannel::new(GenericWebhookConfig {
        name: "mattermost".into(),
        incoming_url: "http://localhost:8065".into(),
        outgoing_url: "http://localhost:8065/hooks/xxx".into(),
        auth_header: "Authorization".into(),
        auth_value: "Bearer token".into(),
        enabled: true,
    });
    assert_eq!(ch.name(), "mattermost");
    assert!(!ch.is_connected());
}
