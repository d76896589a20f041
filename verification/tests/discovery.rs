use bizclaw::discovery::{generate_agents_md, search_agents, AgentInfo};

fn sample_agents() -> Vec<AgentInfo> {
    vec![
        AgentInfo {
            name: "ceo".into(),
            role: "Chief Executive".into(),
            description: "Strategic decisions".into(),
            model: "sonnet-4".into(),
            tools: vec!["delegate".into()],
        },
        AgentInfo {
            name: "dev".into(),
            role: "Developer".into(),
            description: "Code implementation".into(),
            model: "deepseek-chat".into(),
            tools: vec!["shell".into(), "file".into()],
        },
    ]
}

#[test]
fn test_generate_agents_md() {
    let agents = sample_agents();
    let md = generate_agents_md(&agents);
    assert!(md.contains("# Available Agents"));
    assert!(md.contains("## ceo"));
    assert!(md.contains("## dev"));
    assert!(md.contains("delegate"));
}

#[test]
fn test_search_agents() {
    let agents = sample_agents();
    let results = search_agents(&agents, "code developer");
    assert_eq!(results.len(), 1);
    assert_eq!(results[0].name, "dev");
}

#[test]
fn test_empty_agents() {
    let md = generate_agents_md(&[]);
    assert!(md.is_empty());
}

#[test]
fn agents_md_exact_small_team() {
    let agents = vec![AgentInfo {
        name: "a".into(),
        role: "r".into(),
        description: String::new(),
        model: String::new(),
        tools: vec!["x".into(), "y".into()],
    }];
    let md = generate_agents_md(&agents);
    let expected = "# Available Agents\n\nYou are part of a team of 1 agents. You can delegate tasks or handoff conversations.\n\n## a\n- **Role**: r\n- **Tools**: x, y\n\n## How to Delegate\nUse the `delegate` tool: `{\"to\": \"agent-name\", \"task\": \"description\"}`\n\n## How to Handoff\nUse the `handoff` tool: `{\"to\": \"agent-name\", \"reason\": \"why\"}`\n";
    assert_eq!(md, expected);
}

#[test]
fn agents_md_compact_for_large_team() {
    let mut agents = Vec::new();
    for i in 0..16 {
        agents.push(AgentInfo {
            name: format!("agent{i}"),
            role: "worker".into(),
            description: "d".into(),
            model: if i == 0 { String::new() } else { "m".into() },
            tools: vec![],
        });
    }
    let md = generate_agents_md(&agents);
    assert!(md.starts_with("# Available Agents\n\nYou are part of a team of 16 agents. Use `delegate_search` to find the right agent.\n\n| Agent | Role | Model |\n|-------|------|-------|\n"));
    assert!(md.contains("| agent0 | worker | default |\n"));
    assert!(md.contains("| agent15 | worker | m |\n"));
    assert!(!md.contains("## How to Delegate"));
}

#[test]
fn search_orders_by_score_then_position() {
    let mk = |n: &str, d: &str| AgentInfo {
        name: n.into(),
        role: "r".into(),
        description: d.into(),
        model: String::new(),
        tools: vec![],
    };
    let agents = vec![mk("a", "alpha"), mk("b", "alpha beta"), mk("c", "gamma"), mk("d", "ALPHA")];
    let res = search_agents(&agents, "Alpha beta");
    let names: Vec<&str> = res.iter().map(|a| a.name.as_str()).collect();
    assert_eq!(names, vec!["b", "a", "d"]);
    assert!(search_agents(&agents, "   ").is_empty());
}
