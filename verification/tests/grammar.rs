use bizclaw::grammar::JsonGrammar;

#[test]
fn test_grammar_token_analysis() {
    let vocab = vec![
        "{".to_string(),
        "}".to_string(),
        "[".to_string(),
        "]".to_string(),
        "\"hello\"".to_string(),
        ":".to_string(),
        ",".to_string(),
        " ".to_string(),
    ];
    let grammar = JsonGrammar::new(&vocab);
    assert_eq!(grammar.token_props[0].brace_delta, 1);
    assert_eq!(grammar.token_props[1].brace_delta, -1);
    assert_eq!(grammar.token_props[2].bracket_delta, 1);
    assert!(grammar.token_props[5].is_colon);
    assert!(grammar.token_props[7].is_whitespace_only);
}

#[test]
fn test_grammar_completion() {
    let vocab = vec![
        "{".to_string(),
        "}".to_string(),
        "\"key\"".to_string(),
        ":".to_string(),
        "\"val\"".to_string(),
    ];
    let mut grammar = JsonGrammar::new(&vocab);

    grammar.accept_token(0); // {
    assert!(!grammar.is_complete());

    grammar.accept_token(2); // "key"
    grammar.accept_token(3); // :
    grammar.accept_token(4); // "val"

    grammar.accept_token(1); // }
    assert!(grammar.is_complete());
}

#[test]
fn grammar_initial_mask_allows_only_openers() {
    let vocab = vec!["{".to_string(), "}".to_string(), "hello".to_string(), "[".to_string()];
    let grammar = JsonGrammar::new(&vocab);
    assert_eq!(grammar.allowed_mask(), vec![true, false, false, true]);
}

#[test]
fn grammar_escaped_quote_stays_in_string() {
    let vocab = vec!["\"a\\\"b\"".to_string(), "\"open".to_string()];
    let grammar = JsonGrammar::new(&vocab);
    assert!(!grammar.token_props[0].quote_toggle);
    assert!(grammar.token_props[1].quote_toggle);
}

#[test]
fn grammar_reset_and_sticky_completion() {
    let vocab = vec!["{".to_string(), "}".to_string(), "{}".to_string()];
    let mut g = JsonGrammar::new(&vocab);
    g.accept_token(2);
    assert!(!g.is_complete());
    g.accept_token(0);
    assert!(!g.is_complete());
    g.accept_token(1);
    assert!(g.is_complete());
    g.accept_token(0);
    assert!(g.is_complete());
    g.accept_token(99);
    assert!(g.is_complete());
    g.reset();
    assert!(!g.is_complete());
    assert_eq!(g.allowed_mask(), vec![true, false, false]);
}

#[test]
fn completion_stays_and_reset_clears() {
    let vocab = vec!["{".to_string(), "}".to_string(), "[".to_string(), " ".to_string()];
    let mut g = JsonGrammar::new(&vocab);
    assert!(!g.is_complete());
    g.accept_token(0);
    g.accept_token(99);
    assert!(!g.is_complete());
    g.accept_token(1);
    assert!(g.is_complete());
    g.accept_token(2);
    g.accept_token(3);
    assert!(g.is_complete());
    g.reset();
    assert!(!g.is_complete());
}
