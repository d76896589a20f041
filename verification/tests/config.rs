use bizclaw::config::{
    default_allowed_commands, default_forbidden_paths, default_host, default_model,
    default_port, default_provider, AutonomyConfig, ChannelConfig, GatewayConfig,
    ZaloChannelConfig,
};

#[test]
fn config_defaults() {
    assert_eq!(default_provider(), "openai");
    assert_eq!(default_model(), "gpt-4o-mini");
    assert_eq!(default_port(), 3000);
    assert_eq!(default_host(), "127.0.0.1");
    let g = GatewayConfig::default();
    assert_eq!(g.port, 3000);
    assert!(g.require_pairing);
    let a = AutonomyConfig::default();
    assert_eq!(a.level, "supervised");
    assert_eq!(a.allowed_commands, default_allowed_commands());
    assert_eq!(default_forbidden_paths().len(), 7);
    assert!(ChannelConfig::default().zalo.is_none());
    let z = ZaloChannelConfig::default();
    assert_eq!(z.mode, "personal");
    assert_eq!(z.rate_limit.max_messages_per_minute, 20);
    assert!(z.allowlist.block_strangers);
}
