use bizclaw::memory::{clean_query_chars, count_matches, fts_query, like_pattern};

fn chars(s: &str) -> Vec<char> {
    s.chars().collect()
}

#[test]
fn query_keeps_words_spaces_and_underscores() {
    assert_eq!(fts_query("hello, world!"), Some("hello world".to_string()));
    assert_eq!(fts_query("tên_khách 123?"), Some("tên_khách 123".to_string()));
    assert_eq!(fts_query("  padded  "), Some("  padded  ".to_string()));
}

#[test]
fn query_of_only_punctuation_is_nothing() {
    assert_eq!(fts_query("?!"), None);
    assert_eq!(fts_query("   "), None);
    assert_eq!(fts_query(""), None);
    assert_eq!(fts_query(" - * "), None);
}

#[test]
fn cleaning_drops_symbols() {
    let r: String = clean_query_chars(&chars("a\"b*c(d)")).into_iter().collect();
    assert_eq!(r, "abcd");
}

#[test]
fn like_pattern_is_lowercase() {
    assert_eq!(like_pattern("HeLLo Ư"), "%hello ư%");
}

#[test]
fn matches_are_counted_without_overlap() {
    assert_eq!(count_matches(&chars("abababa"), &chars("aba")), "abababa".matches("aba").count());
    assert_eq!(count_matches(&chars("abababa"), &chars("aba")), 2);
    assert_eq!(count_matches(&chars("abc"), &chars("")), 4);
    assert_eq!(count_matches(&chars("ab"), &chars("abc")), 0);
    assert_eq!(count_matches(&chars("cà phê cà phê"), &chars("cà")), 2);
}
