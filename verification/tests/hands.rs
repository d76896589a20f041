use bizclaw::hands::{
    builtin_hands, default_icon, default_max_runtime, default_phase_timeout, default_true,
    default_version, Guardrail, GuardrailAction, GuardrailConfig, GuardrailTrigger, HandRegistry,
    HandSchedule, HandStatus,
};

#[test]
fn test_schedule_display() {
    assert_eq!(HandSchedule::Interval(300).to_string(), "every 5min");
    assert_eq!(HandSchedule::Interval(7200).to_string(), "every 2h");
    assert_eq!(HandSchedule::Manual.to_string(), "manual");
}

#[test]
fn schedule_display_other_forms() {
    assert_eq!(HandSchedule::Interval(45).to_string(), "every 45s");
    assert_eq!(HandSchedule::Interval(60).to_string(), "every 1min");
    assert_eq!(HandSchedule::Interval(3599).to_string(), "every 59min");
    assert_eq!(HandSchedule::Interval(3600).to_string(), "every 1h");
    assert_eq!(HandSchedule::Interval(0).to_string(), "every 0s");
    assert_eq!(HandSchedule::Once.to_string(), "once");
    assert_eq!(HandSchedule::Cron("0 6 * * *".to_string()).to_string(), "cron(0 6 * * *)");
}

#[test]
fn test_registry_defaults() {
    let reg = HandRegistry::with_defaults();
    assert_eq!(reg.count(), 7, "Should have 7 built-in hands");

    let names: Vec<_> = reg.list().iter().map(|h| h.manifest.name.as_str()).collect();
    assert!(names.contains(&"research"));
    assert!(names.contains(&"analytics"));
    assert!(names.contains(&"content"));
    assert!(names.contains(&"monitor"));
    assert!(names.contains(&"sync"));
    assert!(names.contains(&"outreach"));
    assert!(names.contains(&"security"));
}

#[test]
fn test_registry_enable_disable() {
    let mut reg = HandRegistry::with_defaults();
    assert!(reg.disable("monitor"));
    assert_eq!(reg.get("monitor").unwrap().status, HandStatus::Disabled);
    assert!(reg.enable("monitor"));
    assert_eq!(reg.get("monitor").unwrap().status, HandStatus::Idle);
}

#[test]
fn list_is_sorted_by_name() {
    let reg = HandRegistry::with_defaults();
    let names: Vec<_> = reg.list().iter().map(|h| h.manifest.name.clone()).collect();
    assert_eq!(
        names,
        vec!["analytics", "content", "monitor", "outreach", "research", "security", "sync"]
    );
}

#[test]
fn disable_sets_flag_and_unknown_names_fail() {
    let mut reg = HandRegistry::with_defaults();
    assert!(reg.disable("sync"));
    let h = reg.get("sync").unwrap();
    assert!(!h.manifest.enabled);
    assert!(!reg.disable("nope"));
    assert!(!reg.enable("nope"));
    assert!(reg.get("nope").is_none());
    assert_eq!(reg.count(), 7);
    assert!(reg.enable("sync"));
    assert!(reg.get("sync").unwrap().manifest.enabled);
}

#[test]
fn register_replaces_same_name() {
    let mut reg = HandRegistry::new();
    let mut m = builtin_hands().remove(0);
    reg.register(m.clone());
    assert_eq!(reg.count(), 1);
    m.label = "Other".to_string();
    reg.register(m);
    assert_eq!(reg.count(), 1);
    assert_eq!(reg.get("research").unwrap().manifest.label, "Other");
    assert_eq!(reg.position("research"), Some(0));
    assert_eq!(reg.position("x"), None);
}

#[test]
fn get_mut_changes_the_hand() {
    let mut reg = HandRegistry::with_defaults();
    reg.get_mut("content").unwrap().status = HandStatus::Running;
    assert_eq!(reg.get("content").unwrap().status, HandStatus::Running);
    assert!(reg.get_mut("missing").is_none());
}

#[test]
fn builtin_hand_shapes() {
    let hs = builtin_hands();
    assert_eq!(hs.len(), 7);
    assert_eq!(hs[3].name, "monitor");
    assert_eq!(hs[3].phases.len(), 2);
    assert_eq!(hs[3].max_runtime_secs, 120);
    assert_eq!(hs[0].schedule.to_string(), "every 6h");
    assert_eq!(hs[5].schedule.to_string(), "cron(0 9 * * 1-5)");
    assert!(hs[2].phases[2].requires_approval);
    assert!(hs[4].notify_channels.is_empty());
}

#[test]
fn manifest_defaults() {
    assert_eq!(default_phase_timeout(), 300);
    assert_eq!(default_max_runtime(), 1800);
    assert_eq!(default_version(), "1.0.0");
    assert_eq!(default_icon(), "🤖");
    assert!(default_true());
}

fn rule(name: &str, tool: &str, action: GuardrailAction, enabled: bool) -> Guardrail {
    Guardrail {
        name: name.into(),
        description: String::new(),
        trigger: GuardrailTrigger::ToolUse(tool.into()),
        action,
        enabled,
    }
}

#[test]
fn test_guardrail_check() {
    let config = GuardrailConfig {
        rules: vec![
            Guardrail {
                name: "block_shell".into(),
                description: "Block shell execution".into(),
                trigger: GuardrailTrigger::ToolUse("shell".into()),
                action: GuardrailAction::Block,
                enabled: true,
            },
            Guardrail {
                name: "approve_http".into(),
                description: "Require approval for HTTP requests".into(),
                trigger: GuardrailTrigger::ToolUse("http_request".into()),
                action: GuardrailAction::RequireApproval,
                enabled: true,
            },
        ],
    };

    assert!(config.check_tool("shell").is_some());
    assert!(config.check_tool("web_search").is_none());
    assert!(config.requires_approval("http_request"));
    assert!(!config.requires_approval("file"));
}

#[test]
fn guardrail_disabled_and_first_match() {
    let config = GuardrailConfig {
        rules: vec![
            rule("off", "shell", GuardrailAction::Block, false),
            rule("log", "shell", GuardrailAction::LogAndContinue, true),
            rule("second", "shell", GuardrailAction::Block, true),
            rule("third", "shell", GuardrailAction::Block, true),
        ],
    };
    assert_eq!(config.check_tool("shell").unwrap().name, "second");
    assert!(!config.requires_approval("shell"));
    assert!(GuardrailConfig::default().check_tool("shell").is_none());
}

#[test]
fn builtin_hand_schedules() {
    let hands = builtin_hands();
    let got: Vec<(String, String)> = hands.iter().map(|h| (h.name.clone(), h.schedule.to_string())).collect();
    let want = vec![
        ("research", "every 6h"),
        ("analytics", "cron(0 6 * * *)"),
        ("content", "cron(0 8 * * *)"),
        ("monitor", "every 5min"),
        ("sync", "every 30min"),
        ("outreach", "cron(0 9 * * 1-5)"),
        ("security", "every 1h"),
    ];
    assert_eq!(got, want.into_iter().map(|(a, b)| (a.to_string(), b.to_string())).collect::<Vec<_>>());
    assert!(hands.iter().all(|h| h.enabled));
    assert_eq!(hands[4].notify_channels.len(), 0);
    assert_eq!(hands[5].phases[1].name, "review");
    assert!(hands[5].phases[1].requires_approval);
}
