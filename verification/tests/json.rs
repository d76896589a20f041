use bizclaw::json::{get, get_in, i64_in, items_in, text_in, u64_in, JsonValue};

fn obj(ms: Vec<(&str, JsonValue)>) -> JsonValue {
    JsonValue::Object(ms.into_iter().map(|(k, v)| (k.to_string(), v)).collect())
}

#[test]
fn members_and_missing_members() {
    let v = obj(vec![
        ("a", JsonValue::Str("x".into())),
        ("n", JsonValue::Number("-42".into())),
        ("big", JsonValue::Number("18446744073709551615".into())),
        ("f", JsonValue::Number("1.5".into())),
        ("list", JsonValue::Array(vec![JsonValue::Null, JsonValue::Bool(true)])),
    ]);
    assert_eq!(text_in(get(&v, "a")), Some("x"));
    assert_eq!(text_in(get(&v, "missing")), None);
    assert_eq!(text_in(get_in(get(&v, "a"), "deeper")), None);
    assert_eq!(i64_in(get(&v, "n")), Some(-42));
    assert_eq!(u64_in(get(&v, "n")), None);
    assert_eq!(u64_in(get(&v, "big")), Some(u64::MAX));
    assert_eq!(i64_in(get(&v, "big")), None);
    assert_eq!(i64_in(get(&v, "f")), None);
    assert_eq!(items_in(get(&v, "list")).len(), 2);
    assert_eq!(items_in(get(&v, "a")).len(), 0);
}
