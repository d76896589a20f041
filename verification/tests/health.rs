use bizclaw::health::{health_report, CheckStatus, HealthFacts, Overall};

fn facts(provider: &str, model: &str, key: bool) -> HealthFacts {
    HealthFacts {
        config_path: "/home/u/.bizclaw/config.toml".to_string(),
        config_exists: true,
        provider: provider.to_string(),
        model: model.to_string(),
        api_key_set: key,
        brain_files_present: 5,
        brain_files_total: 7,
        ollama_reachable: false,
        agent_ready: true,
    }
}

fn lines(r: &bizclaw::health::HealthReport) -> Vec<(String, CheckStatus, String)> {
    r.checks.iter().map(|c| (c.name.clone(), c.status, c.detail.clone())).collect()
}

#[test]
fn everything_in_place_is_healthy() {
    let r = health_report(&facts("openai", "gpt-4o", true));
    assert_eq!((r.pass, r.fail, r.score_pct), (7, 0, 100));
    assert_eq!(r.overall, Overall::Healthy);
    assert_eq!(
        lines(&r),
        vec![
            ("Config File".to_string(), CheckStatus::Pass, "/home/u/.bizclaw/config.toml".to_string()),
            ("API Key".to_string(), CheckStatus::Pass, "openai: configured".to_string()),
            ("Model".to_string(), CheckStatus::Pass, "openai/gpt-4o".to_string()),
            ("Brain Workspace".to_string(), CheckStatus::Pass, "5/7 files".to_string()),
            ("Ollama Server".to_string(), CheckStatus::Skip, "Not needed for openai".to_string()),
            ("Agent Engine".to_string(), CheckStatus::Pass, "Initialized and ready".to_string()),
            ("Memory Backend".to_string(), CheckStatus::Pass, "SQLite FTS5".to_string()),
        ]
    );
}

#[test]
fn missing_key_degrades() {
    let r = health_report(&facts("openai", "gpt-4o", false));
    assert_eq!((r.pass, r.fail, r.score_pct), (6, 1, 85));
    assert_eq!(r.overall, Overall::Degraded);
    assert_eq!(r.checks[1].detail, "openai: API key missing!");
    assert_eq!(r.checks[1].status, CheckStatus::Fail);
}

#[test]
fn local_provider_needs_no_key() {
    let mut f = facts("ollama", "qwen2.5", false);
    f.ollama_reachable = true;
    let r = health_report(&f);
    assert_eq!(r.fail, 0);
    assert_eq!(r.checks[1].detail, "ollama: configured");
    assert_eq!(r.checks[4].status, CheckStatus::Pass);
    assert_eq!(r.checks[4].detail, "Running on localhost:11434");
}

#[test]
fn many_failures_are_critical() {
    let mut f = facts("ollama", "", false);
    f.config_exists = false;
    f.brain_files_present = 1;
    f.agent_ready = false;
    let r = health_report(&f);
    assert_eq!((r.pass, r.fail, r.score_pct), (2, 5, 28));
    assert_eq!(r.overall, Overall::Critical);
    assert_eq!(r.checks[2].status, CheckStatus::Warn);
    assert_eq!(r.checks[3].detail, "1/7 files");
    assert_eq!(r.checks[4].detail, "Not reachable at localhost:11434");
    assert_eq!(r.checks[5].detail, "Not initialized");
}
