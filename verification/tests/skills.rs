use bizclaw::skills::{strip_frontmatter, SkillRegistry};

#[test]
fn test_strip_frontmatter() {
    let md = "---\nname: test\ndescription: demo\n---\n\n# Hello World\nContent here.";
    let result = strip_frontmatter(md);
    assert!(result.starts_with("# Hello World"));
}

#[test]
fn test_no_frontmatter() {
    let md = "# Just Markdown\nNo frontmatter.";
    let result = strip_frontmatter(md);
    assert_eq!(result, md);
}

#[test]
fn frontmatter_edge_cases() {
    assert_eq!(strip_frontmatter("---\nunclosed"), "---\nunclosed");
    assert_eq!(strip_frontmatter("------body"), "body");
    assert_eq!(strip_frontmatter("---a---  \n x"), "x");
    assert_eq!(strip_frontmatter(""), "");
}

#[test]
fn test_skill_registry_empty() {
    let reg = SkillRegistry::new("/tmp/none");
    assert_eq!(reg.count(), 0);
    assert_eq!(reg.total_size(), 0);
    assert_eq!(reg.base_dir(), "/tmp/none");
}

#[test]
fn load_and_get_ignore_case() {
    let mut reg = SkillRegistry::new("skills");
    reg.load_skill("Research", "---\nx: 1\n---\nDig deep.");
    assert_eq!(reg.count(), 1);
    let s = reg.get("RESEARCH").unwrap();
    assert_eq!(s.name, "Research");
    assert_eq!(s.content, "Dig deep.");
    assert_eq!(s.size_bytes, 22);
    assert!(reg.get("other").is_none());
    reg.load_skill("research", "new");
    assert_eq!(reg.count(), 1);
    assert_eq!(reg.get("research").unwrap().content, "new");
    assert_eq!(reg.total_size(), 3);
}

#[test]
fn list_sorted_and_total() {
    let mut reg = SkillRegistry::new("skills");
    reg.load_skill("zeta", "zz");
    reg.load_skill("alpha", "a");
    reg.load_skill("Mid", "mmm");
    let names: Vec<_> = reg.list().iter().map(|s| s.name.clone()).collect();
    assert_eq!(names, vec!["Mid", "alpha", "zeta"]);
    assert_eq!(reg.total_size(), 6);
}

#[test]
fn build_context_and_truncation() {
    let mut reg = SkillRegistry::new("skills");
    reg.load_skill("monitor", "Check things.");
    assert_eq!(
        reg.build_context("Monitor", 1000).unwrap(),
        "[Domain Expertise: monitor]\nCheck things.\n[End expertise]"
    );
    assert_eq!(
        reg.build_context("monitor", 10).unwrap(),
        "[Domain Ex\n...[truncated]"
    );
    assert!(reg.build_context("nobody", 10).is_none());
    assert_eq!(reg.try_build_context("monitor", 10).unwrap(), "[Domain Ex\n...[truncated]");
}

#[test]
fn try_build_context_refuses_split_character() {
    let mut reg = SkillRegistry::new("skills");
    reg.load_skill("é", "x");
    // "[Domain Expertise: " is 19 bytes; 'é' takes bytes 19 and 20
    assert!(reg.try_build_context("é", 20).is_none());
    assert!(reg.try_build_context("é", 21).is_some());
}
