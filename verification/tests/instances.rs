use bizclaw::instances::{primary_instance, save_instance, ChannelInstance, InstanceRequest};

fn req(id: &str, name: &str, ty: &str, enabled: bool) -> InstanceRequest {
    InstanceRequest {
        id: id.into(),
        name: name.into(),
        channel_type: ty.into(),
        enabled,
        agent_name: "a".into(),
        config: "{}".into(),
    }
}

#[test]
fn save_and_replace() {
    let mut v: Vec<ChannelInstance> = Vec::new();
    assert_eq!(save_instance(&mut v, &req("", "", "telegram", true), 5, "t"), Err("name and channel_type required".to_string()));
    assert!(v.is_empty());
    let id = save_instance(&mut v, &req("", "Main", "telegram", false), 1700, "t1").unwrap();
    assert_eq!(id, "telegram_1700");
    let id2 = save_instance(&mut v, &req("x", "Second", "telegram", true), 1800, "t2").unwrap();
    assert_eq!(id2, "x");
    assert_eq!(v.len(), 2);
    save_instance(&mut v, &req("telegram_1700", "Main2", "telegram", true), 1900, "t3").unwrap();
    assert_eq!(v.len(), 2);
    assert_eq!(v[0].name, "Main2");
    assert_eq!(v[0].updated_at, "t3");
    assert_eq!(primary_instance(&v, "telegram").unwrap().id, "telegram_1700");
    assert!(primary_instance(&v, "webhook").is_none());
}

fn inst(channel_type: &str, enabled: bool, agent: &str) -> bizclaw::instances::ChannelInstance {
    bizclaw::instances::ChannelInstance {
        id: format!("{channel_type}_1"),
        name: "x".to_string(),
        channel_type: channel_type.to_string(),
        enabled,
        agent_name: agent.to_string(),
        config: "{}".to_string(),
        updated_at: String::new(),
    }
}

#[test]
fn telegram_instances_at_start_up() {
    let list = vec![inst("zalo", true, "a"), inst("telegram", false, "b")];
    assert!(bizclaw::instances::has_telegram_instance(&list));
    assert!(!bizclaw::instances::has_telegram_instance(&list[..1]));
    assert!(bizclaw::instances::polls_telegram(&inst("telegram", true, "sales"), "123:abc"));
    assert!(!bizclaw::instances::polls_telegram(&inst("telegram", true, "sales"), ""));
    assert!(!bizclaw::instances::polls_telegram(&inst("telegram", false, "sales"), "123:abc"));
    assert!(!bizclaw::instances::polls_telegram(&inst("telegram", true, ""), "123:abc"));
    assert!(!bizclaw::instances::polls_telegram(&inst("discord", true, "sales"), "123:abc"));
}

#[test]
fn telegram_bot_target_agent() {
    use_target_cases();
}

fn use_target_cases() {
    let arr = |xs: &[&str]| {
        bizclaw::json::JsonValue::Array(xs.iter().map(|x| bizclaw::json::JsonValue::Str(x.to_string())).collect())
    };
    let bindings = bizclaw::json::JsonValue::Object(vec![
        ("ops".to_string(), arr(&["zalo"])),
        ("sales".to_string(), arr(&["email", "telegram"])),
        ("support".to_string(), arr(&["telegram"])),
    ]);
    let agents = vec!["default".to_string(), "ops".to_string()];
    assert_eq!(bizclaw::instances::telegram_target(&bindings, &agents), Some("sales".to_string()));
    let none_bound = bizclaw::json::JsonValue::Object(vec![("ops".to_string(), arr(&["zalo"]))]);
    assert_eq!(bizclaw::instances::telegram_target(&none_bound, &agents), Some("default".to_string()));
    assert_eq!(bizclaw::instances::telegram_target(&bizclaw::json::JsonValue::Null, &[]), None);
}
