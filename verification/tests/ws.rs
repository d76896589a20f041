use bizclaw::ws::{agent_chat_start, agent_reply, WsOut, CHUNK_CHARS};
use bizclaw::ws::{active_model, active_provider, capabilities, chunk_reply, route_for, ChatRoute, WsAction, WsRole, WsSession};

#[test]
fn defaults_and_capabilities() {
    assert_eq!(active_model(""), "tinyllama");
    assert_eq!(active_model("m"), "m");
    assert_eq!(active_provider(""), "openai");
    assert_eq!(capabilities(true).len(), 5);
    assert_eq!(capabilities(false), vec!["chat", "stream", "ping"]);
    assert_eq!(route_for("brain"), ChatRoute::Ollama);
    assert_eq!(route_for("openai"), ChatRoute::OpenAi);
    assert_eq!(route_for("gemini"), ChatRoute::OllamaThenOpenAi);
}

#[test]
fn session_messages() {
    let mut s = WsSession::new(false, "ollama");
    assert_eq!(s.history().len(), 1);
    assert_eq!(s.history()[0].0, WsRole::System);
    match s.on_message("chat", "", None) {
        WsAction::Error(e) => assert_eq!(e, "Empty message"),
        _ => panic!("expected error"),
    }
    assert_eq!(s.request_count(), 1);
    assert_eq!(s.history().len(), 1);
    match s.on_message("chat", "hello", Some(false)) {
        WsAction::DirectChat { request_id, stream, route } => {
            assert_eq!(request_id, "req_2");
            assert!(!stream);
            assert_eq!(route, ChatRoute::Ollama);
        }
        _ => panic!("expected direct chat"),
    }
    s.record_reply("hi there");
    assert_eq!(s.history().len(), 3);
    assert!(matches!(s.on_message("ping", "", None), WsAction::Pong));
    assert!(matches!(s.on_message("status", "", None), WsAction::Status));
    match s.on_message("dance", "", None) {
        WsAction::Error(e) => assert_eq!(e, "Unknown message type: dance"),
        _ => panic!("expected error"),
    }
    let mut a = WsSession::new(true, "openai");
    match a.on_message("chat", "x", None) {
        WsAction::AgentChat { request_id, stream } => {
            assert_eq!(request_id, "req_1");
            assert!(stream);
        }
        _ => panic!("expected agent chat"),
    }
    assert_eq!(a.history().len(), 1);
}

#[test]
fn history_stays_bounded() {
    let mut s = WsSession::new(false, "openai");
    for i in 0..30 {
        s.on_message("chat", &format!("m{i}"), None);
    }
    assert_eq!(s.history().len(), 21);
    assert_eq!(s.history()[0].0, WsRole::System);
    assert_eq!(s.history()[20].1, "m29");
    assert_eq!(s.request_count(), 30);
}

#[test]
fn chunks() {
    assert_eq!(chunk_reply("abcdefghij", 8), vec!["abcdefgh", "ij"]);
    assert_eq!(chunk_reply("", 8), Vec::<String>::new());
    assert_eq!(chunk_reply("xin chào", 4), vec!["xin ", "chào"]);
}

#[test]
fn agent_reply_streams_chunks_then_done() {
    assert_eq!(CHUNK_CHARS, 8);
    match agent_chat_start("req_1", "openai", "gpt") {
        WsOut::ChatStart { request_id, provider, model, agent } => {
            assert_eq!(request_id, "req_1");
            assert_eq!(provider, "openai");
            assert_eq!(model, "gpt");
            assert!(agent);
        }
        other => panic!("unexpected {:?}", other),
    }
    let reply = "abcdefghijklmnopqrst".to_string();
    let out = agent_reply("req_1", "openai", "gpt", true, Some(Ok(reply.clone())));
    assert_eq!(out.len(), 4);
    let expected = ["abcdefgh", "ijklmnop", "qrst"];
    for (i, piece) in expected.iter().enumerate() {
        match &out[i] {
            WsOut::ChatChunk { request_id, content, index } => {
                assert_eq!(request_id, "req_1");
                assert_eq!(content, piece);
                assert_eq!(*index, i as u64);
            }
            other => panic!("unexpected {:?}", other),
        }
    }
    match &out[3] {
        WsOut::ChatDone { request_id, total_tokens, full_content } => {
            assert_eq!(request_id, "req_1");
            assert_eq!(*total_tokens, Some(3));
            assert_eq!(full_content, &reply);
        }
        other => panic!("unexpected {:?}", other),
    }
}

#[test]
fn agent_reply_multibyte_chunks_by_characters() {
    let out = agent_reply("req_2", "p", "m", true, Some(Ok("héllo wörld!".to_string())));
    assert_eq!(out.len(), 3);
    match &out[0] {
        WsOut::ChatChunk { content, .. } => assert_eq!(content, "héllo wö"),
        other => panic!("unexpected {:?}", other),
    }
    match &out[1] {
        WsOut::ChatChunk { content, index, .. } => {
            assert_eq!(content, "rld!");
            assert_eq!(*index, 1);
        }
        other => panic!("unexpected {:?}", other),
    }
    match &out[2] {
        WsOut::ChatDone { total_tokens, .. } => assert_eq!(*total_tokens, Some(2)),
        other => panic!("unexpected {:?}", other),
    }
}

#[test]
fn agent_reply_empty_stream_is_done_only() {
    let out = agent_reply("req_3", "p", "m", true, Some(Ok(String::new())));
    assert_eq!(out.len(), 1);
    match &out[0] {
        WsOut::ChatDone { total_tokens, full_content, .. } => {
            assert_eq!(*total_tokens, Some(0));
            assert_eq!(full_content, "");
        }
        other => panic!("unexpected {:?}", other),
    }
}

#[test]
fn agent_reply_whole_error_and_missing_engine() {
    let out = agent_reply("req_4", "ollama", "llama3", false, Some(Ok("hi there".to_string())));
    assert_eq!(out.len(), 2);
    match &out[0] {
        WsOut::ChatResponse { request_id, content, provider, model } => {
            assert_eq!(request_id, "req_4");
            assert_eq!(content, "hi there");
            assert_eq!(provider, "ollama");
            assert_eq!(model, "llama3");
        }
        other => panic!("unexpected {:?}", other),
    }
    match &out[1] {
        WsOut::ChatDone { total_tokens, full_content, .. } => {
            assert_eq!(*total_tokens, None);
            assert_eq!(full_content, "hi there");
        }
        other => panic!("unexpected {:?}", other),
    }
    let out = agent_reply("req_5", "p", "m", true, Some(Err("boom".to_string())));
    assert_eq!(out.len(), 1);
    match &out[0] {
        WsOut::ChatError { request_id, error } => {
            assert_eq!(request_id, "req_5");
            assert_eq!(error, "boom");
        }
        other => panic!("unexpected {:?}", other),
    }
    let out = agent_reply("req_6", "p", "m", true, None);
    match &out[0] {
        WsOut::Error(e) => assert_eq!(e, "Agent engine not available"),
        other => panic!("unexpected {:?}", other),
    }
}
