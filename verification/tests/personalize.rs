use bizclaw::json::JsonValue;
use bizclaw::personalize::{
    brain_files, object_candidate, personalize_prompt, personalize_request, strip_code_fence,
};
use serde_json::Value;

fn json(v: &Value) -> JsonValue {
    match v {
        Value::Null => JsonValue::Null,
        Value::Bool(b) => JsonValue::Bool(*b),
        Value::Number(n) => JsonValue::Number(n.to_string()),
        Value::String(s) => JsonValue::Str(s.clone()),
        Value::Array(a) => JsonValue::Array(a.iter().map(json).collect()),
        Value::Object(m) => JsonValue::Object(m.iter().map(|(k, x)| (k.clone(), json(x))).collect()),
    }
}

fn parse(text: &str) -> JsonValue {
    json(&serde_json::from_str::<Value>(text).unwrap())
}

#[test]
fn request_needs_about_user() {
    let e = personalize_request(&parse(r#"{"agent_name": "X"}"#)).unwrap_err();
    assert_eq!(e, "Please describe yourself (about_user)");
    let e = personalize_request(&parse(r#"{"about_user": ""}"#)).unwrap_err();
    assert_eq!(e, "Please describe yourself (about_user)");
}

#[test]
fn request_defaults() {
    let q = personalize_request(&parse(r#"{"about_user": "Chủ quán cà phê", "language": 5}"#)).unwrap();
    assert_eq!(q.about_user, "Chủ quán cà phê");
    assert_eq!(q.agent_vibe, "helpful and professional");
    assert_eq!(q.agent_name, "BizClaw Agent");
    assert_eq!(q.language, "vi");
    assert_eq!(q.tenant, "");
    let q = personalize_request(&parse(
        r#"{"about_user": "dev", "agent_vibe": "witty", "agent_name": "Bé Ba", "language": "en", "tenant": "shop1"}"#,
    ))
    .unwrap();
    assert_eq!((q.agent_vibe.as_str(), q.agent_name.as_str(), q.language.as_str(), q.tenant.as_str()), ("witty", "Bé Ba", "en", "shop1"));
}

#[test]
fn prompt_text() {
    let q = personalize_request(&parse(r#"{"about_user": "a baker", "agent_vibe": "warm", "agent_name": "Bun", "language": "en"}"#)).unwrap();
    let (about_user, agent_vibe, agent_name, language) = ("a baker", "warm", "Bun", "en");
    let expected = format!(
        r#"You are a configuration assistant. Based on the user's description below, generate personalized brain files for an AI agent.

User describes themselves: "{about_user}"
Desired agent personality/vibe: "{agent_vibe}"
Agent name: "{agent_name}"
Language: "{language}"

Generate EXACTLY these 3 files. Output as JSON with keys "soul", "identity", "user". Each value is the markdown content for that file.

SOUL.md should define the agent's personality, tone, and behavioral rules based on the desired vibe.
IDENTITY.md should define the agent's name, role, and style.
USER.md should capture key facts about the user for personalization.

Output ONLY valid JSON, no markdown fences."#
    );
    assert_eq!(personalize_prompt(&q), expected);
}

fn std_unfenced(s: &str) -> String {
    s.trim().trim_start_matches("```json").trim_start_matches("```").trim_end_matches("```").trim().to_string()
}

#[test]
fn fences_are_removed() {
    for s in [
        "```json\n{\"soul\": \"x\"}\n```",
        "  ```json```json {x} ``` ``` ",
        "```\n{}\n``````",
        "plain {\"a\": 1}",
        "",
        "``",
    ] {
        assert_eq!(strip_code_fence(s), std_unfenced(s), "for {s:?}");
    }
    assert_eq!(strip_code_fence("```json\n{\"soul\": \"x\"}\n```"), "{\"soul\": \"x\"}");
}

#[test]
fn object_is_cut_out() {
    assert_eq!(object_candidate("Đây là: {\"soul\": \"x\"} cảm ơn"), "{\"soul\": \"x\"}");
    assert_eq!(object_candidate("no braces"), "no braces");
    assert_eq!(object_candidate("tail }"), "tail }");
    assert_eq!(object_candidate("{ head"), "{ head");
    assert_eq!(object_candidate("{a} and {b}"), "{a} and {b}");
}

#[test]
fn files_from_answer() {
    let parsed = parse(r##"{"identity": "# Bun", "soul": "# Soul", "user": 3}"##);
    let files = brain_files(&parsed);
    let got: Vec<(&str, &str)> = files.iter().map(|(f, c)| (f.as_str(), c.as_str())).collect();
    assert_eq!(got, vec![("SOUL.md", "# Soul"), ("IDENTITY.md", "# Bun")]);
    assert!(brain_files(&JsonValue::Null).is_empty());
}
