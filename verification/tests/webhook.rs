use bizclaw::json::JsonValue;
use serde_json::Value;
use bizclaw::webhook::{
    inbound_message, to_hex, verify_webhook, webhook_signature, whatsapp_messages_url, whatsapp_verify, WebhookChannelConfig, WebhookError,
};

fn cfg(enabled: bool, secret: &str) -> Option<WebhookChannelConfig> {
    Some(WebhookChannelConfig { enabled, secret: secret.into(), outbound_url: String::new() })
}

#[test]
fn hex_and_signature() {
    assert_eq!(to_hex(&[0x00, 0x0f, 0xab, 0xff]), "000fabff");
    assert_eq!(
        webhook_signature("ab", "c"),
        "ba7816bf8f01cfea414140de5dae2223b00361a396177a9cb410ff61f20015ad"
    );
    assert_eq!(
        webhook_signature("", ""),
        "e3b0c44298fc1c149afbf4c8996fb92427ae41e4649b934ca495991b7852b855"
    );
}

#[test]
fn verification_outcomes() {
    assert_eq!(verify_webhook(&None, "", "{}"), Err(WebhookError::NotConfigured));
    assert_eq!(verify_webhook(&cfg(false, ""), "", "{}"), Err(WebhookError::Disabled));
    assert_eq!(verify_webhook(&cfg(true, ""), "", "{}"), Ok(()));
    assert_eq!(verify_webhook(&cfg(true, "ab"), "", "c"), Err(WebhookError::MissingSignature));
    assert_eq!(verify_webhook(&cfg(true, "ab"), "00", "c"), Err(WebhookError::InvalidSignature));
    let sig = "ba7816bf8f01cfea414140de5dae2223b00361a396177a9cb410ff61f20015ad";
    assert_eq!(verify_webhook(&cfg(true, "ab"), sig, "c"), Ok(()));
    assert_eq!(WebhookError::Disabled.message(), "Webhook channel is disabled");
}

#[test]
fn inbound_fields() {
    let m = inbound_message(Some("hi"), None, Some("t1")).unwrap();
    assert_eq!(m.content, "hi");
    assert_eq!(m.sender_id, "webhook-user");
    assert_eq!(m.thread_id, "t1");
    assert_eq!(inbound_message(Some(""), None, None).unwrap_err(), WebhookError::MissingContent);
    assert_eq!(inbound_message(None, Some("s"), None).unwrap_err(), WebhookError::MissingContent);
}

#[test]
fn whatsapp_handshake() {
    assert_eq!(whatsapp_verify("subscribe", "tok", "123", Some("tok")), Some("123".to_string()));
    assert_eq!(whatsapp_verify("subscribe", "bad", "123", Some("tok")), None);
    assert_eq!(whatsapp_verify("subscribe", "", "9", None), Some("9".to_string()));
    assert_eq!(whatsapp_verify("other", "tok", "123", Some("tok")), None);
    assert_eq!(whatsapp_messages_url("42"), "https://graph.facebook.com/v21.0/42/messages");
}

fn json(v: &Value) -> JsonValue {
    match v {
        Value::Null => JsonValue::Null,
        Value::Bool(b) => JsonValue::Bool(*b),
        Value::Number(n) => JsonValue::Number(n.to_string()),
        Value::String(s) => JsonValue::Str(s.clone()),
        Value::Array(a) => JsonValue::Array(a.iter().map(json).collect()),
        Value::Object(m) => JsonValue::Object(m.iter().map(|(k, x)| (k.clone(), json(x))).collect()),
    }
}

#[test]
fn whatsapp_notification_texts() {
    let body: serde_json::Value = serde_json::from_str(
        r#"{"object": "whatsapp_business_account", "entry": [
            {"changes": [
                {"value": {"messages": [
                    {"from": "84901", "id": "wamid.1", "type": "text", "text": {"body": "Xin chào"}},
                    {"from": "84902", "id": "wamid.2", "type": "image", "image": {"id": "x"}},
                    {"from": "84903", "id": "wamid.3", "type": "text", "text": {"body": ""}}
                ]}},
                {"value": {"statuses": [{"id": "wamid.0", "status": "read"}]}}
            ]},
            {"changes": [{"value": {"messages": [
                {"from": "84904", "id": "wamid.4", "type": "text", "text": {"body": "Giá bao nhiêu?"}}
            ]}}]}
        ]}"#,
    )
    .unwrap();
    let texts = bizclaw::webhook::whatsapp_text_messages(&json(&body));
    let got: Vec<(&str, &str, &str)> = texts
        .iter()
        .map(|t| (t.from.as_str(), t.text.as_str(), t.msg_id.as_str()))
        .collect();
    assert_eq!(got, vec![("84901", "Xin chào", "wamid.1"), ("84904", "Giá bao nhiêu?", "wamid.4")]);
    assert!(bizclaw::webhook::whatsapp_text_messages(&json(&serde_json::Value::Null)).is_empty());
}
