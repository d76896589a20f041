use bizclaw::zalo::{event_kind, BotChat, BotUpdate, ZaloBotClient, ZaloEventKind, ZaloListener, ZaloSession};

#[test]
fn bot_client_urls_and_preview() {
    let c = ZaloBotClient::new("abcdefghijklmnop");
    assert_eq!(c.api_url("getMe"), "https://bot-api.zaloplatforms.com/botabcdefghijklmnop/getMe");
    assert_eq!(c.token_preview(), "abcde...lmnop");
    assert_eq!(ZaloBotClient::new("short").token_preview(), "***");
    assert_eq!(ZaloBotClient::new("0123456789").token_preview(), "***");
}

fn update(id: Option<i64>) -> BotUpdate {
    BotUpdate { update_id: id, message: None }
}

#[test]
fn polling_offset_follows_last_update() {
    let mut c = ZaloBotClient::new("t");
    assert_eq!(c.poll_offset(), None);
    c.record_updates(&[update(Some(4)), update(Some(7))]);
    assert_eq!(c.poll_offset(), Some(8));
    c.record_updates(&[update(Some(9)), update(None)]);
    assert_eq!(c.poll_offset(), Some(8));
    c.record_updates(&[]);
    assert_eq!(c.poll_offset(), Some(8));
}

#[test]
fn event_kinds() {
    assert_eq!(event_kind(501), ZaloEventKind::Message);
    assert_eq!(event_kind(521), ZaloEventKind::MessageUndo);
    assert_eq!(event_kind(612), ZaloEventKind::Reaction);
    assert_eq!(event_kind(0), ZaloEventKind::Raw);
}

#[test]
fn listener_and_session() {
    let mut l = ZaloListener::new("wss://x");
    assert!(!l.is_connected());
    assert_eq!(l.ws_url(), "wss://x");
    l.set_connected(true);
    assert!(l.is_connected());
    let mut s = ZaloSession::default();
    assert!(!s.active);
    s.set_session("u1".into(), Some("k".into()), None, 100);
    assert!(s.active);
    assert_eq!(s.uid, "u1");
    assert_eq!(s.last_heartbeat, 100);
    s.heartbeat(130);
    assert_eq!(s.last_heartbeat, 130);
    s.invalidate();
    assert!(!s.active);
    let _chat = BotChat { id: "c".into(), chat_type: Some("group".into()), title: None };
}

fn obj(ms: Vec<(&str, bizclaw::json::JsonValue)>) -> bizclaw::json::JsonValue {
    bizclaw::json::JsonValue::Object(ms.into_iter().map(|(k, v)| (k.to_string(), v)).collect())
}

fn s(t: &str) -> bizclaw::json::JsonValue {
    bizclaw::json::JsonValue::Str(t.to_string())
}

fn n(t: &str) -> bizclaw::json::JsonValue {
    bizclaw::json::JsonValue::Number(t.to_string())
}

#[test]
fn message_event_from_json() {
    let json = obj(vec![
        ("cmd", n("501")),
        ("data", obj(vec![
            ("msgId", s("m1")),
            ("toid", s("t1")),
            ("uidFrom", s("u1")),
            ("content", s("Chào bạn")),
            ("ts", n("1700000000")),
        ])),
    ]);
    match bizclaw::zalo::event_from_json(json) {
        bizclaw::zalo::ZaloEvent::Message(m) => {
            assert_eq!((m.msg_id.as_str(), m.thread_id.as_str(), m.sender_id.as_str()), ("m1", "t1", "u1"));
            match m.content {
                bizclaw::zalo::ZaloMessageContent::Text(t) => assert_eq!(t, "Chào bạn"),
            }
            assert_eq!(m.timestamp, 1700000000);
            assert!(!m.is_self);
        }
        other => panic!("unexpected event {:?}", other),
    }
}

#[test]
fn undo_and_reaction_events() {
    let undo = obj(vec![("cmd", n("521")), ("data", obj(vec![("msgId", s("m2")), ("toid", s("t2"))]))]);
    match bizclaw::zalo::event_from_json(undo) {
        bizclaw::zalo::ZaloEvent::MessageUndo { msg_id, thread_id } => {
            assert_eq!((msg_id.as_str(), thread_id.as_str()), ("m2", "t2"));
        }
        other => panic!("unexpected event {:?}", other),
    }
    let reaction = obj(vec![("cmd", n("612")), ("data", obj(vec![("msgId", s("m3")), ("rType", s("heart"))]))]);
    match bizclaw::zalo::event_from_json(reaction) {
        bizclaw::zalo::ZaloEvent::Reaction { msg_id, reactor_id, reaction } => {
            assert_eq!((msg_id.as_str(), reactor_id.as_str(), reaction.as_str()), ("m3", "", "heart"));
        }
        other => panic!("unexpected event {:?}", other),
    }
}

#[test]
fn unknown_or_missing_command_is_raw() {
    let typing = obj(vec![("cmd", n("602"))]);
    assert!(matches!(bizclaw::zalo::event_from_json(typing), bizclaw::zalo::ZaloEvent::Raw(_)));
    let no_cmd = obj(vec![("data", obj(vec![]))]);
    assert!(matches!(bizclaw::zalo::event_from_json(no_cmd), bizclaw::zalo::ZaloEvent::Raw(_)));
    let message_without_ts = obj(vec![("cmd", n("501"))]);
    match bizclaw::zalo::event_from_json(message_without_ts) {
        bizclaw::zalo::ZaloEvent::Message(m) => {
            assert_eq!(m.msg_id, "");
            assert_eq!(m.timestamp, 0);
        }
        other => panic!("unexpected event {:?}", other),
    }
}

fn zalo_config(mode: &str, user_agent: &str) -> bizclaw::config::ZaloChannelConfig {
    let mut c = bizclaw::config::ZaloChannelConfig::default();
    c.mode = mode.to_string();
    c.personal.user_agent = user_agent.to_string();
    c
}

#[test]
fn zalo_channel_login_and_disconnect() {
    let mut ch = bizclaw::zalo::ZaloChannel::new(zalo_config("personal", ""));
    assert_eq!(ch.name(), "zalo");
    assert_eq!(
        ch.user_agent(),
        "Mozilla/5.0 (Windows NT 10.0; Win64; x64; rv:133.0) Gecko/20100101 Firefox/133.0"
    );
    assert!(!ch.is_connected());
    assert_eq!(ch.send_cookie(), Err("Zalo not logged in".to_string()));
    assert_eq!(ch.connect_mode(), Ok(bizclaw::zalo::ZaloConnect::Personal));
    ch.logged_in("zpw_sek=abc", "u42".to_string(), Some("enk".to_string()), None, 1_700_000_000);
    assert!(ch.is_connected());
    assert_eq!(ch.send_cookie(), Ok("zpw_sek=abc"));
    ch.disconnect();
    assert!(!ch.is_connected());
    assert_eq!(ch.send_cookie(), Ok("zpw_sek=abc"));
}

#[test]
fn zalo_channel_modes() {
    let mut ch = bizclaw::zalo::ZaloChannel::new(zalo_config("official", "MyAgent/1.0"));
    assert_eq!(ch.user_agent(), "MyAgent/1.0");
    assert_eq!(ch.connect_mode(), Ok(bizclaw::zalo::ZaloConnect::Official));
    ch.connect_official();
    assert!(ch.is_connected());
    let ch = bizclaw::zalo::ZaloChannel::new(zalo_config("business", ""));
    assert_eq!(ch.connect_mode(), Err("Unknown Zalo mode: business".to_string()));
    assert_eq!(
        bizclaw::zalo::no_cookie_error(),
        "No Zalo cookie found. Configure cookie_path in config.toml or use QR login via admin dashboard."
    );
}

#[test]
fn cookie_file_content() {
    use_cookie_cases();
}

fn use_cookie_cases() {
    let j = obj(vec![("cookie", s("from-json"))]);
    assert_eq!(bizclaw::zalo::cookie_from_content("  {\"cookie\": \"from-json\"}\n", Some(&j)), Some("from-json".to_string()));
    assert_eq!(bizclaw::zalo::cookie_from_content("   \n", None), None);
    assert_eq!(bizclaw::zalo::cookie_from_content(" raw=1; b=2 \n", None), Some("raw=1; b=2".to_string()));
    let other = obj(vec![("token", s("x"))]);
    assert_eq!(bizclaw::zalo::cookie_from_content("{\"token\": \"x\"}", Some(&other)), Some("{\"token\": \"x\"}".to_string()));
    assert_eq!(bizclaw::zalo::cookie_from_content("{broken", None), Some("{broken".to_string()));
}

#[test]
fn bot_answers() {
    let ok = obj(vec![
        ("ok", bizclaw::json::JsonValue::Bool(true)),
        ("result", obj(vec![("id", s("b1")), ("name", s("Shop Bot")), ("username", s("shopbot"))])),
    ]);
    let result = bizclaw::zalo::bot_result("getMe", &ok).unwrap();
    let info = bizclaw::zalo::bot_info_of(result);
    assert_eq!((info.id.as_str(), info.name.as_str()), ("b1", "Shop Bot"));
    assert_eq!(info.username, Some("shopbot".to_string()));

    let failed = obj(vec![("ok", bizclaw::json::JsonValue::Bool(false)), ("description", s("Unauthorized"))]);
    assert_eq!(bizclaw::zalo::bot_result("getMe", &failed).unwrap_err(), "getMe error: Unauthorized");
    let bare = obj(vec![]);
    assert_eq!(bizclaw::zalo::bot_result("sendMessage", &bare).unwrap_err(), "sendMessage error: unknown");

    let sent = obj(vec![
        ("ok", bizclaw::json::JsonValue::Bool(true)),
        ("result", obj(vec![("message_id", s("m9")), ("date", n("1700000001"))])),
    ]);
    let r = bizclaw::zalo::send_result_of(bizclaw::zalo::bot_result("sendMessage", &sent).unwrap());
    assert_eq!(r.message_id, "m9");
    assert_eq!(r.date, Some(1700000001));

    let hook = obj(vec![
        ("ok", bizclaw::json::JsonValue::Bool(true)),
        ("result", obj(vec![("url", s("https://x.vn/hook"))])),
    ]);
    let w = bizclaw::zalo::webhook_info_of(bizclaw::zalo::bot_result("getWebhookInfo", &hook).unwrap());
    assert_eq!(w.url, "https://x.vn/hook");
    assert_eq!(w.updated_at, None);
}

#[test]
fn business_catalog_and_messages() {
    let b = bizclaw::zalo::ZaloBusiness::new();
    assert_eq!(b.catalog_url(), "https://openapi.zalo.me/v3.0/oa/store/getslice");
    assert_eq!(b.message_url(), "https://openapi.zalo.me/v3.0/oa/message/cs");
    let listing = obj(vec![(
        "data",
        obj(vec![(
            "products",
            bizclaw::json::JsonValue::Array(vec![
                obj(vec![("id", s("p1")), ("name", s("Cà phê sữa")), ("price", n("25000")), ("photo", s("https://x/1.jpg"))]),
                obj(vec![("name", s("no id"))]),
                obj(vec![("id", s("p3"))]),
            ]),
        )]),
    )]);
    let cats = bizclaw::zalo::catalog_of(&listing);
    assert_eq!(cats.len(), 1);
    assert_eq!((cats[0].id.as_str(), cats[0].name.as_str()), ("default", "Product Catalog"));
    assert_eq!(cats[0].products.len(), 2);
    assert_eq!(cats[0].products[0].name, "Cà phê sữa");
    assert_eq!(cats[0].products[0].price, Some("25000".to_string()));
    assert_eq!(cats[0].products[0].photo_url, Some("https://x/1.jpg".to_string()));
    assert_eq!((cats[0].products[1].id.as_str(), cats[0].products[1].name.as_str()), ("p3", ""));
    assert_eq!(cats[0].products[1].price, None);
    assert!(bizclaw::zalo::catalog_of(&obj(vec![("data", obj(vec![]))])).is_empty());

    assert_eq!(bizclaw::zalo::oa_send_outcome(&obj(vec![("error", n("0"))])), Ok(()));
    assert_eq!(
        bizclaw::zalo::oa_send_outcome(&obj(vec![("error", n("-216")), ("message", s("Access token is invalid"))])),
        Err("OA send error: Access token is invalid".to_string())
    );
    assert_eq!(bizclaw::zalo::oa_send_outcome(&obj(vec![])), Err("OA send error: unknown".to_string()));
}
