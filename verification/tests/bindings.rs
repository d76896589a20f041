use bizclaw::bindings::{bound_channels, with_binding};
use bizclaw::json::{get, items_in, text_in, JsonValue};

fn obj(ms: Vec<(&str, JsonValue)>) -> JsonValue {
    JsonValue::Object(ms.into_iter().map(|(k, v)| (k.to_string(), v)).collect())
}

fn strs(xs: &[&str]) -> JsonValue {
    JsonValue::Array(xs.iter().map(|x| JsonValue::Str(x.to_string())).collect())
}

fn names(v: Option<&JsonValue>) -> Vec<String> {
    items_in(v).iter().filter_map(|x| text_in(Some(x)).map(String::from)).collect()
}

#[test]
fn binding_request_keeps_text_names() {
    let body = obj(vec![(
        "channels",
        JsonValue::Array(vec![JsonValue::Str("telegram".into()), JsonValue::Number("3".into()), JsonValue::Str("zalo".into())]),
    )]);
    assert_eq!(bound_channels(&body), vec!["telegram".to_string(), "zalo".to_string()]);
    assert!(bound_channels(&obj(vec![])).is_empty());
}

#[test]
fn binding_replaces_and_adds() {
    let current = obj(vec![("sales", strs(&["telegram"])), ("support", strs(&["email"]))]);
    let updated = with_binding(current, "sales", &vec!["zalo".to_string(), "webhook".to_string()]);
    assert_eq!(names(get(&updated, "sales")), vec!["zalo", "webhook"]);
    assert_eq!(names(get(&updated, "support")), vec!["email"]);
    let updated = with_binding(updated, "ops", &vec![]);
    assert!(get(&updated, "ops").is_some());
    assert!(names(get(&updated, "ops")).is_empty());
    assert_eq!(names(get(&updated, "sales")), vec!["zalo", "webhook"]);
    let fresh = with_binding(JsonValue::Null, "a", &vec!["cli".to_string()]);
    assert_eq!(names(get(&fresh, "a")), vec!["cli"]);
    assert!(get(&fresh, "b").is_none());
}
