use bizclaw::llamacpp::{install_instructions, is_llamacpp_available, llamacpp_library_paths};
use bizclaw::mcp::{tool_call_output, ContentBlock, ListedTool, McpClient, McpServerConfig};

fn config(enabled: bool) -> McpServerConfig {
    McpServerConfig { name: "fs".into(), command: "mcp-fs".into(), args: vec![], env: vec![], enabled }
}

#[test]
fn client_state() {
    let mut c = McpClient::new(config(true));
    assert_eq!(c.name(), "fs");
    assert!(!c.is_connected());
    assert!(c.tools().is_empty());
    assert_eq!(c.next_id(), 1);
    assert_eq!(c.next_id(), 2);
    assert!(c.check_enabled().is_ok());
    c.set_connected(true);
    assert!(c.is_connected());
    c.set_tools(&vec![ListedTool { name: "read".into(), description: None, input_schema: None }]);
    assert_eq!(c.tools().len(), 1);
    assert_eq!(c.tools()[0].description, "");
    assert_eq!(c.tools()[0].input_schema, "{\"type\":\"object\",\"properties\":{}}");
    assert_eq!(c.tools()[0].server_name, "fs");
    c.disconnect();
    assert!(!c.is_connected());
    assert!(c.tools().is_empty());
    assert_eq!(McpClient::new(config(false)).check_enabled(), Err("MCP server 'fs' is disabled".to_string()));
}

#[test]
fn tool_results() {
    let blocks = vec![
        ContentBlock { content_type: "text".into(), text: Some("a".into()) },
        ContentBlock { content_type: "image".into(), text: Some("img".into()) },
        ContentBlock { content_type: "text".into(), text: None },
        ContentBlock { content_type: "text".into(), text: Some("b".into()) },
    ];
    assert_eq!(tool_call_output("t", false, &blocks), Ok("a\nb".to_string()));
    assert_eq!(tool_call_output("t", true, &blocks), Err("Tool 't' returned error: a\nimg\nb".to_string()));
}

#[test]
fn llamacpp_detection() {
    assert_eq!(llamacpp_library_paths().len(), 5);
    assert!(!is_llamacpp_available(&[false, false, false, false, false]));
    assert!(is_llamacpp_available(&[false, false, true, false, false]));
    assert!(install_instructions().contains("cmake .. -DBUILD_SHARED_LIBS=ON"));
}

#[test]
fn llamacpp_backend_states() {
    let mut b = bizclaw::llamacpp::LlamaCppBackend::new();
    assert!(!b.is_loaded());
    assert_eq!(b.info(), "llama.cpp backend: not loaded");
    assert_eq!(b.generate("hi", 8), Err("Model not loaded".to_string()));
    assert_eq!(b.load_model("/m/x.gguf", false, true), Err("Model file not found: /m/x.gguf".to_string()));
    let e = b.load_model("/m/x.gguf", true, false).unwrap_err();
    assert_eq!(
        e,
        "llama.cpp library not found. Install with: \
         apt install -y cmake build-essential && \
         git clone https://github.com/ggerganov/llama.cpp && \
         cd llama.cpp && mkdir build && cd build && \
         cmake .. -DBUILD_SHARED_LIBS=ON && \
         cmake --build . --config Release && \
         sudo cp lib/libllama.so /usr/local/lib/ && \
         sudo ldconfig"
    );
    assert!(!b.is_loaded());
    assert_eq!(b.load_model("/m/x.gguf", true, true), Ok(()));
    assert!(b.is_loaded());
    assert_eq!(b.info(), format!("llama.cpp backend: {} (ctx={}, threads={}, gpu={})", "/m/x.gguf", 2048, 4, 0));
    assert!(b.generate("hi", 8).unwrap_err().starts_with("llama.cpp FFI requires"));
    let c = bizclaw::llamacpp::LlamaCppBackend::with_config(4096, 8, -1);
    let mut c = c;
    c.load_model("m.gguf", true, true).unwrap();
    assert_eq!(c.info(), "llama.cpp backend: m.gguf (ctx=4096, threads=8, gpu=-1)");
}
