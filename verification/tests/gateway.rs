use bizclaw::gateway::{recreate_settings, LlmSettings};
use bizclaw::gateway::telegram_connect_check;
use bizclaw::json::JsonValue;
use bizclaw::config::ChannelConfig;
use bizclaw::gateway::{
    apply_channel_update, constant_time_eq, mask_secret, query_code_matches, verify_pairing,
    AuthDecision, AuthGuard, ChannelUpdate,
};
use bizclaw::numparse::{parse_i64_chars, parse_id_list_i64, parse_id_list_u64, parse_u16_chars, parse_u64_chars};

#[test]
fn masking() {
    assert_eq!(mask_secret(""), "");
    assert_eq!(mask_secret("abc"), "••••");
    assert_eq!(mask_secret("abcd"), "••••");
    assert_eq!(mask_secret("abcdef"), "abcd••••");
    assert_eq!(mask_secret("héllo"), "héll••••");
    assert_eq!(mask_secret("héll"), "••••");
    assert_eq!(mask_secret("日本語の鍵です"), "日本語の••••");
}

#[test]
fn constant_time_comparison() {
    assert!(constant_time_eq("secret", "secret"));
    assert!(!constant_time_eq("secret", "secreT"));
    assert!(!constant_time_eq("a", "ab"));
    assert!(constant_time_eq("", ""));
}

#[test]
fn query_codes() {
    assert!(query_code_matches("a=1&code=xyz", "xyz"));
    assert!(!query_code_matches("a=1&code=xy", "xyz"));
    assert!(!query_code_matches("acode=xyz", "xyz"));
    assert!(query_code_matches("code=", ""));
}

#[test]
fn pairing_lockout() {
    let mut g = AuthGuard::new(0);
    assert_eq!(g.check(None, "", None, 1), AuthDecision::Allow);
    for t in 0..5 {
        assert_eq!(g.check(Some("1234"), "bad", None, 10 + t), AuthDecision::Unauthorized);
    }
    assert_eq!(g.check(Some("1234"), "1234", None, 20), AuthDecision::LockedOut);
    assert_eq!(g.check(Some("1234"), "1234", None, 74), AuthDecision::Allow);
    assert_eq!(g.check(Some("1234"), "bad", Some("code=1234"), 75), AuthDecision::Allow);
    assert_eq!(g.check(Some("1234"), "bad", Some("code=1"), 76), AuthDecision::Unauthorized);
    assert!(verify_pairing("x", None));
    assert!(verify_pairing("1234", Some("1234")));
    assert!(!verify_pairing("123", Some("1234")));
}

#[test]
fn integer_reading() {
    assert_eq!(parse_u64_chars(&['4', '2']), Some(42));
    assert_eq!(parse_u64_chars(&['+', '7']), Some(7));
    assert_eq!(parse_u64_chars(&['-', '7']), None);
    assert_eq!(parse_u64_chars(&[]), None);
    let max: Vec<char> = "18446744073709551615".chars().collect();
    assert_eq!(parse_u64_chars(&max), Some(u64::MAX));
    let over: Vec<char> = "18446744073709551616".chars().collect();
    assert_eq!(parse_u64_chars(&over), None);
    let min: Vec<char> = "-9223372036854775808".chars().collect();
    assert_eq!(parse_i64_chars(&min), Some(i64::MIN));
    assert_eq!(parse_i64_chars(&['-']), None);
    assert_eq!(parse_u16_chars(&['6', '5', '5', '3', '6']), None);
    assert_eq!(parse_id_list_i64("1, -2,x,, 3"), vec![1, -2, 3]);
    assert_eq!(parse_id_list_u64("5,-1, 6 "), vec![5, 6]);
}

fn req(kind: &str) -> ChannelUpdate {
    ChannelUpdate {
        channel_type: kind.into(),
        enabled: Some(true),
        bot_token: None,
        allowed_chat_ids: None,
        allowed_channel_ids: None,
        cookie_path: None,
        imei: None,
        smtp_host: None,
        smtp_port: None,
        smtp_user: None,
        smtp_pass: None,
        imap_host: None,
    }
}

#[test]
fn channel_updates() {
    let mut cfg = ChannelConfig::default();
    let mut r = req("telegram");
    r.bot_token = Some("123:abc".into());
    r.allowed_chat_ids = Some("1, 2, x".into());
    assert!(apply_channel_update(&mut cfg, &r).is_ok());
    let t = cfg.telegram.clone().unwrap();
    assert_eq!(t.bot_token, "123:abc");
    assert_eq!(t.allowed_chat_ids, vec![1, 2]);
    r.bot_token = Some("123:••••".into());
    r.enabled = None;
    apply_channel_update(&mut cfg, &r).unwrap();
    let t = cfg.telegram.clone().unwrap();
    assert_eq!(t.bot_token, "123:abc");
    assert!(!t.enabled);

    let mut e = req("email");
    e.smtp_port = Some("2525".into());
    e.smtp_pass = Some("••••".into());
    apply_channel_update(&mut cfg, &e).unwrap();
    let em = cfg.email.clone().unwrap();
    assert_eq!(em.smtp_port, 2525);
    assert_eq!(em.password, "");
    assert_eq!(em.imap_port, 993);
    e.smtp_port = Some("bad".into());
    apply_channel_update(&mut cfg, &e).unwrap();
    assert_eq!(cfg.email.clone().unwrap().smtp_port, 587);

    let mut z = req("zalo");
    z.imei = Some("IMEI1".into());
    apply_channel_update(&mut cfg, &z).unwrap();
    let zc = cfg.zalo.clone().unwrap();
    assert!(zc.enabled);
    assert_eq!(zc.personal.imei, "IMEI1");
    assert_eq!(zc.personal.cookie_path, "~/.bizclaw/zalo/cookie.json");

    let mut d = req("discord");
    d.allowed_channel_ids = Some("10,20".into());
    apply_channel_update(&mut cfg, &d).unwrap();
    assert_eq!(cfg.discord.clone().unwrap().allowed_channel_ids, vec![10, 20]);

    let err = apply_channel_update(&mut cfg, &req("fax")).unwrap_err();
    assert_eq!(err, "Unknown channel: fax");
}

#[test]
fn legacy_agents_are_migrated() {
    fn conv(v: &serde_json::Value) -> bizclaw::json::JsonValue {
        match v {
            serde_json::Value::Null => bizclaw::json::JsonValue::Null,
            serde_json::Value::Bool(b) => bizclaw::json::JsonValue::Bool(*b),
            serde_json::Value::Number(n) => bizclaw::json::JsonValue::Number(n.to_string()),
            serde_json::Value::String(s) => bizclaw::json::JsonValue::Str(s.clone()),
            serde_json::Value::Array(a) => bizclaw::json::JsonValue::Array(a.iter().map(conv).collect()),
            serde_json::Value::Object(m) => {
                bizclaw::json::JsonValue::Object(m.iter().map(|(k, x)| (k.clone(), conv(x))).collect())
            }
        }
    }
    let saved: serde_json::Value = serde_json::from_str(
        r#"[
            {"name": "sales-bot", "role": "assistant", "provider": "openai", "model": "gpt-4o-mini"},
            {"name": "", "role": "ghost"},
            {"role": "nameless"},
            {"name": "hr-bot", "role": "researcher", "system_prompt": "You are HR"},
            {"name": "plain"}
        ]"#,
    )
    .unwrap();
    let es: Vec<bizclaw::json::JsonValue> = saved.as_array().unwrap().iter().map(conv).collect();
    let agents = bizclaw::gateway::migrated_agents(&es);
    assert_eq!(agents.len(), 3);
    assert_eq!(
        (agents[0].name.as_str(), agents[0].provider.as_str(), agents[0].model.as_str()),
        ("sales-bot", "openai", "gpt-4o-mini")
    );
    assert_eq!((agents[1].role.as_str(), agents[1].system_prompt.as_str()), ("researcher", "You are HR"));
    assert_eq!((agents[2].name.as_str(), agents[2].role.as_str(), agents[2].description.as_str()), ("plain", "assistant", ""));
}

#[test]
fn new_agent_request_defaults() {
    fn obj(ms: Vec<(&str, &str)>) -> bizclaw::json::JsonValue {
        bizclaw::json::JsonValue::Object(
            ms.into_iter().map(|(k, v)| (k.to_string(), bizclaw::json::JsonValue::Str(v.to_string()))).collect(),
        )
    }
    let r = bizclaw::gateway::new_agent_request(&obj(vec![]));
    assert_eq!((r.name.as_str(), r.role.as_str(), r.description.as_str()), ("agent", "assistant", "A helpful AI agent"));
    assert_eq!((r.provider, r.model, r.persona, r.system_prompt), (None, None, None, None));
    let r = bizclaw::gateway::new_agent_request(&obj(vec![
        ("name", "sales"),
        ("provider", ""),
        ("model", "qwen3"),
        ("persona", ""),
        ("system_prompt", "Bạn là nhân viên bán hàng"),
    ]));
    assert_eq!(r.name, "sales");
    assert_eq!(r.provider, None);
    assert_eq!(r.model, Some("qwen3".to_string()));
    assert_eq!(r.persona, Some(String::new()));
    assert_eq!(r.system_prompt, Some("Bạn là nhân viên bán hàng".to_string()));
}

#[test]
fn config_update_reads_typed_members() {
    let body: serde_json::Value = serde_json::from_str(
        r#"{"default_provider": "ollama", "default_temperature": 0.4, "api_key": 5,
            "identity": {"name": "Bé Ba", "persona": ""},
            "memory": {"auto_save": false, "backend": 1},
            "autonomy": {"level": "full"},
            "brain": {"threads": 4294967297, "max_tokens": 512, "temperature": "hot", "enabled": true}}"#,
    )
    .unwrap();
    fn conv(v: &serde_json::Value) -> bizclaw::json::JsonValue {
        match v {
            serde_json::Value::Null => bizclaw::json::JsonValue::Null,
            serde_json::Value::Bool(b) => bizclaw::json::JsonValue::Bool(*b),
            serde_json::Value::Number(n) => bizclaw::json::JsonValue::Number(n.to_string()),
            serde_json::Value::String(s) => bizclaw::json::JsonValue::Str(s.clone()),
            serde_json::Value::Array(a) => bizclaw::json::JsonValue::Array(a.iter().map(conv).collect()),
            serde_json::Value::Object(m) => {
                bizclaw::json::JsonValue::Object(m.iter().map(|(k, x)| (k.clone(), conv(x))).collect())
            }
        }
    }
    let u = bizclaw::gateway::config_update(&conv(&body));
    assert_eq!(u.default_provider, Some("ollama".to_string()));
    assert_eq!(u.default_model, None);
    assert_eq!(u.default_temperature, Some("0.4".to_string()));
    assert_eq!(u.api_key, None);
    assert_eq!(u.identity_name, Some("Bé Ba".to_string()));
    assert_eq!(u.identity_persona, Some(String::new()));
    assert_eq!(u.memory_auto_save, Some(false));
    assert_eq!(u.memory_backend, None);
    assert_eq!(u.autonomy_level, Some("full".to_string()));
    assert_eq!(u.autonomy_workspace_only, None);
    assert_eq!(u.brain_threads, Some(4294967297u64 as u32));
    assert_eq!(u.brain_max_tokens, Some(512));
    assert_eq!(u.brain_temperature, None);
    assert_eq!(u.brain_enabled, Some(true));
}

#[test]
fn telegram_connect_checks() {
    let agents = vec!["sales".to_string(), "support".to_string()];
    let body = |tok: JsonValue| JsonValue::Object(vec![("bot_token".to_string(), tok)]);
    assert_eq!(
        telegram_connect_check(&body(JsonValue::Str("  123:ABC  ".to_string())), "support", &agents),
        Ok("123:ABC".to_string())
    );
    assert_eq!(
        telegram_connect_check(&body(JsonValue::Str("   ".to_string())), "support", &agents),
        Err("bot_token is required".to_string())
    );
    assert_eq!(
        telegram_connect_check(&JsonValue::Object(vec![]), "support", &agents),
        Err("bot_token is required".to_string())
    );
    assert_eq!(
        telegram_connect_check(&body(JsonValue::Bool(true)), "support", &agents),
        Err("bot_token is required".to_string())
    );
    assert_eq!(
        telegram_connect_check(&body(JsonValue::Str("123:ABC".to_string())), "ghost", &agents),
        Err("Agent 'ghost' not found".to_string())
    );
}

#[test]
fn recreate_settings_layers() {
    let global = LlmSettings {
        provider: "openai".into(),
        model: "gpt-4o".into(),
        api_key: "k".into(),
        api_base_url: "".into(),
        system_prompt: "global".into(),
        name: "BizClaw".into(),
    };
    let s = recreate_settings(&global, Some(("ollama", "llama3", "live prompt")), Some("deepseek"), Some(""), None, "dev");
    assert_eq!(s.provider, "deepseek");
    assert_eq!(s.model, "llama3");
    assert_eq!(s.system_prompt, "live prompt");
    assert_eq!(s.name, "dev");
    assert_eq!(s.api_key, "k");
    let s = recreate_settings(&global, None, None, Some("m2"), Some(""), "x");
    assert_eq!(s.provider, "openai");
    assert_eq!(s.model, "m2");
    assert_eq!(s.system_prompt, "");
}
