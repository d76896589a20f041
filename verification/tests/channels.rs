use bizclaw::channels::{
    all_channel_names, default_imap_port, default_mailbox, default_poll_interval,
    default_smtp_port, email_from_fields, email_message, parse_email_bytes, reply_subject,
    strip_html, uid_set, EmailChannel, EmailConfig, MailFields, WhatsAppConfig,
};

#[test]
fn test_all_channels_count() {
    let all = all_channel_names();
    assert!(all.len() >= 25, "Should have 25+ channels, got {}", all.len());
}

#[test]
fn test_channel_names_unique() {
    let names: Vec<_> = all_channel_names().iter().map(|(n, _)| *n).collect();
    let mut unique = names.clone();
    unique.sort();
    unique.dedup();
    assert_eq!(names.len(), unique.len(), "Channel names must be unique");
}

#[test]
fn test_existing_channels_present() {
    let names: Vec<_> = all_channel_names().iter().map(|(n, _)| *n).collect();
    for expected in &["telegram", "discord", "slack", "line", "teams", "signal"] {
        assert!(names.contains(expected), "Missing channel: {expected}");
    }
}

#[test]
fn channel_list_exact() {
    let all = all_channel_names();
    assert_eq!(all.len(), 33);
    assert_eq!(all[0], ("cli", "Command-line interface"));
    assert_eq!(all[32].0, "xmpp");
}

#[test]
fn email_defaults() {
    let c = EmailConfig::default();
    assert_eq!(c.imap_host, "imap.gmail.com");
    assert_eq!(c.imap_port, 993);
    assert_eq!(c.smtp_port, 587);
    assert_eq!(c.mailbox, "INBOX");
    assert_eq!(c.poll_interval_secs, 30);
    assert!(c.unread_only && c.mark_as_read && c.smtp_enabled);
    assert_eq!(default_imap_port(), 993);
    assert_eq!(default_smtp_port(), 587);
    assert_eq!(default_mailbox(), "INBOX");
    assert_eq!(default_poll_interval(), 30);
    assert_eq!(WhatsAppConfig::default().access_token, "");
}

#[test]
fn email_channel_bookkeeping() {
    let mut ch = EmailChannel::new(EmailConfig::default());
    assert!(!ch.is_connected());
    assert_eq!(ch.name(), "email");
    assert_eq!(ch.search_query(), "UNSEEN");
    assert_eq!(ch.last_seen_uid(), 0);
    assert_eq!(ch.new_uids(&[3, 0, 7]), vec![3, 7]);
    ch.record_fetched(&[3, 9, 7]);
    assert_eq!(ch.last_seen_uid(), 9);
    assert_eq!(ch.new_uids(&[3, 9, 10, 12]), vec![10, 12]);
    ch.record_fetched(&[]);
    assert_eq!(ch.last_seen_uid(), 9);
    ch.set_connected(true);
    assert!(ch.is_connected());
    assert_eq!(ch.from_header(), "BizClaw AI <>");
    let mut cfg = EmailConfig::default();
    cfg.unread_only = false;
    cfg.display_name = Some("Bot".into());
    cfg.email = "b@x.org".into();
    let ch2 = EmailChannel::new(cfg);
    assert_eq!(ch2.search_query(), "ALL");
    assert_eq!(ch2.from_header(), "Bot <b@x.org>");
}

#[test]
fn uid_sets_and_subjects() {
    assert_eq!(uid_set(&[1, 22, 333]), "1,22,333");
    assert_eq!(uid_set(&[]), "");
    assert_eq!(reply_subject(Some("abc")), "Re: abc");
    assert_eq!(reply_subject(None), "From BizClaw AI");
}

#[test]
fn html_is_stripped() {
    assert_eq!(strip_html("  <p>Hello <b>you</b></p> \n"), "Hello you");
    assert_eq!(strip_html("a > b"), "a  b");
    assert_eq!(strip_html("<unclosed text"), "");
}

fn fields() -> MailFields {
    MailFields {
        from_address: None,
        from_name: Some("Ann".into()),
        subject: None,
        body_text: None,
        body_html: Some("<i>hi</i>".into()),
        message_id: Some("m1".into()),
    }
}

#[test]
fn email_from_fields_defaults() {
    let e = email_from_fields(&fields(), 5);
    assert_eq!(e.uid, 5);
    assert_eq!(e.from, "");
    assert_eq!(e.from_name.as_deref(), Some("Ann"));
    assert_eq!(e.subject, "(no subject)");
    assert_eq!(e.body_text, "hi");
    assert_eq!(e.message_id.as_deref(), Some("m1"));
    assert_eq!(email_message(&e), "📧 Subject: (no subject)\n\nhi");
    let mut f = fields();
    f.body_text = Some("x".repeat(5000));
    assert_eq!(email_from_fields(&f, 1).body_text.chars().count(), 4000);
}

#[test]
fn parse_raw_email() {
    let raw = b"From: Ann Lee <ann@example.com>\r\nSubject: Hello\r\nMessage-ID: <id1@example.com>\r\n\r\nBody text\r\n";
    let e = parse_email_bytes(raw, 42).unwrap();
    assert_eq!(e.uid, 42);
    assert_eq!(e.from, "ann@example.com");
    assert_eq!(e.from_name.as_deref(), Some("Ann Lee"));
    assert_eq!(e.subject, "Hello");
    assert!(e.body_text.starts_with("Body text"));
    assert_eq!(e.message_id.as_deref(), Some("id1@example.com"));
}

fn wa(token: &str, phone: &str) -> bizclaw::channels::WhatsAppConfig {
    let mut c = bizclaw::channels::WhatsAppConfig::default();
    c.access_token = token.to_string();
    c.phone_number_id = phone.to_string();
    c
}

#[test]
fn whatsapp_channel_checks_its_config() {
    let ch = bizclaw::channels::WhatsAppChannel::new(wa("", "123"));
    assert_eq!(ch.check_config(), Err("WhatsApp access_token not configured".to_string()));
    let ch = bizclaw::channels::WhatsAppChannel::new(wa("tok", ""));
    assert_eq!(ch.check_config(), Err("WhatsApp phone_number_id not configured".to_string()));
    let mut ch = bizclaw::channels::WhatsAppChannel::new(wa("tok", "123"));
    assert_eq!(ch.check_config(), Ok(()));
    assert_eq!(ch.name(), "whatsapp");
    assert_eq!(ch.verify_url(), "https://graph.facebook.com/v21.0/123");
    assert_eq!(ch.authorization(), "Bearer tok");
    assert!(!ch.is_connected());
    ch.set_connected(true);
    assert!(ch.is_connected());
}

#[test]
fn whatsapp_sent_message_id() {
    use_json_answers();
}

fn use_json_answers() {
    let j = |t: &str| -> bizclaw::json::JsonValue {
        fn conv(v: &serde_json::Value) -> bizclaw::json::JsonValue {
            match v {
                serde_json::Value::Null => bizclaw::json::JsonValue::Null,
                serde_json::Value::Bool(b) => bizclaw::json::JsonValue::Bool(*b),
                serde_json::Value::Number(n) => bizclaw::json::JsonValue::Number(n.to_string()),
                serde_json::Value::String(s) => bizclaw::json::JsonValue::Str(s.clone()),
                serde_json::Value::Array(a) => bizclaw::json::JsonValue::Array(a.iter().map(conv).collect()),
                serde_json::Value::Object(m) => {
                    bizclaw::json::JsonValue::Object(m.iter().map(|(k, x)| (k.clone(), conv(x))).collect())
                }
            }
        }
        conv(&serde_json::from_str(t).unwrap())
    };
    let answer = j(r#"{"messaging_product": "whatsapp", "messages": [{"id": "wamid.ABC"}]}"#);
    assert_eq!(bizclaw::channels::sent_message_id(&answer), "wamid.ABC");
    assert_eq!(bizclaw::channels::sent_message_id(&j(r#"{"messages": []}"#)), "unknown");
    assert_eq!(bizclaw::channels::sent_message_id(&j(r#"{"error": {"code": 1}}"#)), "unknown");
}
