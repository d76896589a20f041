use bizclaw::conversation::{TurnAction, TurnState};
use bizclaw::conversation::{
    build_system_prompt, compact_history, compaction_summary, dedup_memories, estimate_tokens,
    fallback_answer, knowledge_context, knowledge_message, memory_context, memory_entry_text,
    memory_keywords, memory_message, numbered_block, permission_denied_text, should_compact,
    tool_error_text, tool_not_found_text, tools_offered, trim_history, truncate_tool_output,
    ChatMessage, Role,
};

fn msg(role: Role, content: &str) -> ChatMessage {
    ChatMessage { role, content: content.to_string() }
}

#[test]
fn history_trimming_keeps_system_and_last_forty() {
    let mut v: Vec<u32> = (0..50).collect();
    trim_history(&mut v);
    assert_eq!(v.len(), 41);
    assert_eq!(v[0], 0);
    assert_eq!(v[1], 10);
    assert_eq!(v[40], 49);
    let mut short: Vec<u32> = (0..41).collect();
    trim_history(&mut short);
    assert_eq!(short.len(), 41);
}

#[test]
fn compaction_replaces_old_messages() {
    let mut v: Vec<u32> = (0..15).collect();
    compact_history(&mut v, 100);
    assert_eq!(v, vec![0, 100, 6, 7, 8, 9, 10, 11, 12, 13, 14]);
    let mut small: Vec<u32> = (0..10).collect();
    compact_history(&mut small, 100);
    assert_eq!(small.len(), 10);
}

#[test]
fn compaction_summary_text() {
    let long = "x".repeat(120);
    let msgs = vec![msg(Role::User, "hi"), msg(Role::System, "sys"), msg(Role::Assistant, &long), msg(Role::Tool, "ok")];
    let s = compaction_summary(&msgs);
    let expected = format!(
        "[Compacted: 4 earlier messages]\nUser: hi\nAI: {}...\nTool: ok\n[End of compacted context]",
        "x".repeat(100)
    );
    assert_eq!(s, expected);
}

#[test]
fn token_estimates() {
    let msgs = vec![msg(Role::User, "abcdefg"), msg(Role::Assistant, "xy")];
    assert_eq!(estimate_tokens(&msgs), 2);
    assert!(should_compact(71, 100, 11));
    assert!(!should_compact(70, 100, 11));
    assert!(!should_compact(71, 100, 10));
    assert!(!should_compact(5, 0, 20));
}

#[test]
fn tool_output_truncation() {
    assert_eq!(truncate_tool_output("short".into()), "short");
    let big = "a".repeat(4005);
    let t = truncate_tool_output(big);
    assert_eq!(t, format!("{}...\n[truncated, 4005 total chars]", "a".repeat(4000)));
}

#[test]
fn system_prompt_with_brain_context() {
    assert_eq!(build_system_prompt("P", "  \n"), "P");
    assert_eq!(build_system_prompt("P", "ctx"), "P\n\nctx");
}

#[test]
fn numbered_blocks_fit_the_limit() {
    let items = vec!["aaaa".to_string(), "bbbb".to_string(), "cc".to_string()];
    assert_eq!(numbered_block(&items, 100), "1. aaaa\n2. bbbb\n3. cc\n");
    assert_eq!(numbered_block(&items, 16), "1. aaaa\n2. bbbb\n");
    assert_eq!(numbered_block(&items, 15), "1. aaaa\n");
    assert_eq!(numbered_block(&items, 3), "");
}

#[test]
fn knowledge_and_memory_contexts() {
    assert!(knowledge_context(&vec![]).is_none());
    let r = knowledge_context(&vec![("doc".to_string(), "text".to_string())]).unwrap();
    assert_eq!(r, "1. [doc] text\n");
    assert!(memory_context(&vec![]).is_none());
    let ms: Vec<String> = (1..=7).map(|i| format!("m{i}")).collect();
    assert_eq!(memory_context(&ms).unwrap(), "1. m1\n2. m2\n3. m3\n4. m4\n5. m5\n");
    let d = dedup_memories(&vec![
        ("1".to_string(), "a".to_string()),
        ("2".to_string(), "b".to_string()),
        ("1".to_string(), "c".to_string()),
    ]);
    assert_eq!(d, vec!["a", "b"]);
    assert_eq!(knowledge_message("K"), "[Knowledge Base — relevant documents]\nK\n[End of knowledge context]");
    assert_eq!(memory_message("M"), "[Past conversations]\nM\n[End of past conversations]");
    assert_eq!(memory_entry_text("q", "a"), "User: q\nAssistant: a");
}

#[test]
fn keywords_skip_short_and_stop_words() {
    assert_eq!(memory_keywords("What is the weather in Hanoi today?"), vec!["weather", "Hanoi", "today"]);
    assert_eq!(memory_keywords("THE cat_food, apples; bananas! cherries dates figs"),
        vec!["cat_food", "apples", "bananas", "cherries", "dates"]);
    assert!(memory_keywords("a an it").is_empty());
}

#[test]
fn tool_loop_texts() {
    assert!(tools_offered(0));
    assert!(tools_offered(2));
    assert!(!tools_offered(3));
    assert_eq!(fallback_answer(false), "I'm not sure how to respond.");
    assert_eq!(fallback_answer(true), "I executed the requested tools.");
    assert_eq!(permission_denied_text("rm"), "Permission denied: command 'rm' not allowed");
    assert_eq!(tool_not_found_text("x"), "Tool not found: x");
    assert_eq!(tool_error_text("boom"), "Tool error: boom");
}

#[test]
fn tool_definitions_are_listed_again_after_five_minutes() {
    let mut cache = bizclaw::conversation::PromptCache::new(vec!["shell", "web_search"], 1_000);
    assert_eq!(cache.tool_defs(), &vec!["shell", "web_search"]);
    assert!(!cache.is_stale(1_000));
    assert!(!cache.is_stale(301_000));
    assert!(cache.is_stale(301_001));
    assert!(!cache.is_stale(500));
    cache.refresh(vec!["shell"], 301_001);
    assert_eq!(cache.tool_defs(), &vec!["shell"]);
    assert!(!cache.is_stale(601_001));
    assert!(cache.is_stale(601_002));
}

#[test]
fn turn_answers_without_tool_calls() {
    let (mut st, first) = TurnState::begin();
    assert!(matches!(first, TurnAction::Ask { offer_tools: true }));
    match st.step(Some("Hello!".to_string()), 0) {
        TurnAction::Answer { recorded, answer } => {
            assert_eq!(recorded, vec!["Hello!".to_string()]);
            assert_eq!(answer, "Hello!");
        }
        other => panic!("unexpected {:?}", other),
    }
    assert_eq!(st.tool_rounds(), 0);

    let (mut st, _) = TurnState::begin();
    match st.step(None, 0) {
        TurnAction::Answer { answer, .. } => assert_eq!(answer, "I'm not sure how to respond."),
        other => panic!("unexpected {:?}", other),
    }
}

#[test]
fn turn_runs_at_most_three_tool_rounds() {
    let (mut st, _) = TurnState::begin();
    assert!(matches!(st.step(None, 2), TurnAction::RunTools { then_offer_tools: true }));
    assert!(matches!(st.step(None, 1), TurnAction::RunTools { then_offer_tools: true }));
    assert!(matches!(st.step(None, 1), TurnAction::RunTools { then_offer_tools: false }));
    assert_eq!(st.tool_rounds(), 3);
    match st.step(Some("more tools".to_string()), 1) {
        TurnAction::Answer { recorded, answer } => {
            assert_eq!(recorded, vec!["I executed the requested tools.".to_string()]);
            assert_eq!(answer, "I executed the requested tools.");
        }
        other => panic!("unexpected {:?}", other),
    }
    assert_eq!(st.tool_rounds(), 3);
}

#[test]
fn turn_empty_text_after_tools() {
    let (mut st, _) = TurnState::begin();
    assert!(matches!(st.step(None, 1), TurnAction::RunTools { then_offer_tools: true }));
    match st.step(Some(String::new()), 0) {
        TurnAction::Answer { recorded, answer } => {
            assert_eq!(recorded, vec![String::new(), "I executed the requested tools.".to_string()]);
            assert_eq!(answer, "I executed the requested tools.");
        }
        other => panic!("unexpected {:?}", other),
    }
    assert_eq!(st.tool_rounds(), 1);
}
