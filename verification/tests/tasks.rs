use bizclaw::json::JsonValue;
use bizclaw::tasks::{task_request, TaskAction, TaskTiming};
use serde_json::Value;

fn json(v: &Value) -> JsonValue {
    match v {
        Value::Null => JsonValue::Null,
        Value::Bool(b) => JsonValue::Bool(*b),
        Value::Number(n) => JsonValue::Number(n.to_string()),
        Value::String(s) => JsonValue::Str(s.clone()),
        Value::Array(a) => JsonValue::Array(a.iter().map(json).collect()),
        Value::Object(m) => JsonValue::Object(m.iter().map(|(k, x)| (k.clone(), json(x))).collect()),
    }
}

fn parse(text: &str) -> JsonValue {
    json(&serde_json::from_str::<Value>(text).unwrap())
}

#[test]
fn prompt_or_action_is_required() {
    assert_eq!(
        task_request(&parse(r#"{"name": "x", "prompt": "", "action": ""}"#)).unwrap_err(),
        "Either 'prompt' or 'action' is required"
    );
}

#[test]
fn cron_prompt_task() {
    let t = task_request(&parse(
        r#"{"name": "Báo cáo sáng", "prompt": "Tóm tắt doanh thu", "cron": "0 8 * * *", "agent_name": "sales", "deliver_to": ""}"#,
    ))
    .unwrap();
    assert_eq!(t.name, "Báo cáo sáng");
    assert!(matches!(t.action, TaskAction::AgentPrompt(ref p) if p == "Tóm tắt doanh thu"));
    assert!(matches!(t.timing, TaskTiming::Cron(ref e) if e == "0 8 * * *"));
    assert_eq!(t.agent_name, Some("sales".to_string()));
    assert_eq!(t.deliver_to, None);
}

#[test]
fn defaults_and_other_timings() {
    let t = task_request(&parse(r#"{"action": "ping"}"#)).unwrap();
    assert_eq!(t.name, "unnamed");
    assert!(matches!(t.action, TaskAction::Notify(ref a) if a == "ping"));
    assert!(matches!(t.timing, TaskTiming::Cron(ref e) if e == "0 * * * *"));
    let t = task_request(&parse(r#"{"action": "ping", "type": "once", "delay_secs": 90}"#)).unwrap();
    assert!(matches!(t.timing, TaskTiming::Once(90)));
    let t = task_request(&parse(r#"{"action": "ping", "task_type": "once"}"#)).unwrap();
    assert!(matches!(t.timing, TaskTiming::Once(60)));
    let t = task_request(&parse(r#"{"action": "ping", "task_type": "interval", "interval_secs": 45, "deliver_to": "telegram"}"#)).unwrap();
    assert!(matches!(t.timing, TaskTiming::Interval(45)));
    assert_eq!(t.deliver_to, Some("telegram".to_string()));
    let t = task_request(&parse(r#"{"prompt": "p", "task_type": "whatever", "expression": "1 2 3 4 5"}"#)).unwrap();
    assert!(matches!(t.timing, TaskTiming::Interval(300)));
    let t = task_request(&parse(r#"{"prompt": "p", "expression": "1 2 3 4 5"}"#)).unwrap();
    assert!(matches!(t.timing, TaskTiming::Cron(ref e) if e == "1 2 3 4 5"));
}
