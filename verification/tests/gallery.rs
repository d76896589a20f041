use bizclaw::gallery::{gallery_add, gallery_remove};
use bizclaw::json::{get, text_in, JsonValue};

fn skill(id: Option<&str>, name: &str) -> JsonValue {
    let mut ms = vec![("name".to_string(), JsonValue::Str(name.to_string()))];
    if let Some(i) = id {
        ms.push(("id".to_string(), JsonValue::Str(i.to_string())));
    }
    JsonValue::Object(ms)
}

fn ids(ss: &[JsonValue]) -> Vec<Option<&str>> {
    ss.iter().map(|s| text_in(get(s, "id"))).collect()
}

#[test]
fn skills_are_added_under_distinct_ids() {
    let mut skills = Vec::new();
    assert_eq!(gallery_add(&mut skills, skill(Some("seo"), "SEO")), Ok("seo".to_string()));
    assert_eq!(gallery_add(&mut skills, skill(None, "Mine")), Ok("custom".to_string()));
    assert_eq!(
        gallery_add(&mut skills, skill(Some("seo"), "SEO again")),
        Err("Skill 'seo' already exists".to_string())
    );
    // a skill without an ID is stored as sent, so it never clashes
    assert_eq!(gallery_add(&mut skills, skill(None, "Another")), Ok("custom".to_string()));
    assert_eq!(
        gallery_add(&mut skills, skill(Some("custom"), "Named custom")),
        Ok("custom".to_string())
    );
    assert_eq!(
        gallery_add(&mut skills, skill(Some("custom"), "Twice")),
        Err("Skill 'custom' already exists".to_string())
    );
    assert_eq!(ids(&skills), vec![Some("seo"), None, None, Some("custom")]);
}

#[test]
fn skills_are_removed_by_id() {
    let skills = vec![skill(Some("a"), "A"), skill(None, "N"), skill(Some("b"), "B"), skill(Some("a"), "A2")];
    let (kept, removed) = gallery_remove(skills, "a");
    assert!(removed);
    assert_eq!(ids(&kept), vec![None, Some("b")]);
    let (kept, removed) = gallery_remove(kept, "zzz");
    assert!(!removed);
    assert_eq!(kept.len(), 2);
}
