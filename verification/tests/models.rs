use bizclaw::json::JsonValue;
use bizclaw::models::{http_answer, model_ids, ollama_answer, ModelsAnswer};
use bizclaw::gateway::Provider;
use bizclaw::models::{
    api_key_for, http_error_text, models_plan, remove_all_chars, shown_models, trim_slashes_chars,
    ModelsPlan,
};

fn provider(name: &str, base_url: &str, models_path: &str, auth_style: &str, api_key: &str) -> Provider {
    Provider {
        name: name.to_string(),
        label: name.to_string(),
        icon: String::new(),
        provider_type: "cloud".to_string(),
        api_key: api_key.to_string(),
        base_url: base_url.to_string(),
        chat_path: "/chat/completions".to_string(),
        models_path: models_path.to_string(),
        auth_style: auth_style.to_string(),
        env_keys: vec!["FIRST_KEY".to_string(), "SECOND_KEY".to_string()],
        models: vec!["cached-model".to_string()],
        is_active: false,
        enabled: true,
        created_at: String::new(),
        updated_at: String::new(),
    }
}

fn chars(s: &str) -> Vec<char> {
    s.chars().collect()
}

fn pairs(h: &[(String, String)]) -> Vec<(&str, &str)> {
    h.iter().map(|(a, b)| (a.as_str(), b.as_str())).collect()
}

#[test]
fn removes_every_v1() {
    let r = remove_all_chars(&chars("a/v1/v1b/v"), &chars("/v1"));
    assert_eq!(r.iter().collect::<String>(), "ab/v");
}

#[test]
fn trims_trailing_slashes_only() {
    let r = trim_slashes_chars(&chars("/x//"));
    assert_eq!(r.iter().collect::<String>(), "/x");
}

#[test]
fn ollama_lists_tags() {
    let p = provider("ollama", "http://localhost:11434/v1", "/models", "none", "");
    match models_plan("ollama", &p, &[]) {
        ModelsPlan::Ollama { url } => assert_eq!(url, "http://localhost:11434/api/tags"),
        other => panic!("unexpected plan {:?}", other),
    }
    let p = provider("ollama", "http://localhost:11434/", "", "none", "");
    match models_plan("ollama", &p, &[]) {
        ModelsPlan::Ollama { url } => assert_eq!(url, "http://localhost:11434/api/tags"),
        other => panic!("unexpected plan {:?}", other),
    }
}

#[test]
fn brain_scans_files() {
    let p = provider("brain", "", "", "none", "");
    assert!(matches!(models_plan("brain", &p, &[]), ModelsPlan::ScanFiles));
}

#[test]
fn missing_base_or_path_is_unconfigured() {
    let p = provider("custom", "", "/models", "bearer", "k");
    assert!(matches!(models_plan("custom", &p, &[]), ModelsPlan::Unconfigured));
    let p = provider("custom", "https://x.example", "", "bearer", "k");
    assert!(matches!(models_plan("custom", &p, &[]), ModelsPlan::Unconfigured));
}

#[test]
fn bearer_token_from_stored_key() {
    let p = provider("openai", "https://api.openai.com/v1/", "/models", "bearer", "sk-1");
    match models_plan("openai", &p, &[Some("ignored".to_string()), None]) {
        ModelsPlan::Http { url, headers } => {
            assert_eq!(url, "https://api.openai.com/v1/models");
            assert_eq!(pairs(&headers), vec![("Authorization", "Bearer sk-1")]);
        }
        other => panic!("unexpected plan {:?}", other),
    }
}

#[test]
fn no_key_no_credentials() {
    let p = provider("openai", "https://api.openai.com/v1", "/models", "bearer", "");
    match models_plan("openai", &p, &[None, None]) {
        ModelsPlan::Http { url, headers } => {
            assert_eq!(url, "https://api.openai.com/v1/models");
            assert!(headers.is_empty());
        }
        other => panic!("unexpected plan {:?}", other),
    }
}

#[test]
fn anthropic_key_from_environment() {
    let p = provider("anthropic", "https://api.anthropic.com/v1", "/models", "bearer", "");
    match models_plan("anthropic", &p, &[None, Some("env-key".to_string())]) {
        ModelsPlan::Http { url, headers } => {
            assert_eq!(url, "https://api.anthropic.com/v1/models");
            assert_eq!(
                pairs(&headers),
                vec![("x-api-key", "env-key"), ("anthropic-version", "2023-06-01")]
            );
        }
        other => panic!("unexpected plan {:?}", other),
    }
}

#[test]
fn gemini_key_in_query() {
    let p = provider("gemini", "https://generativelanguage.googleapis.com/v1beta", "/models", "none", "g-1");
    match models_plan("gemini", &p, &[]) {
        ModelsPlan::Http { url, headers } => {
            assert_eq!(url, "https://generativelanguage.googleapis.com/v1beta/models?key=g-1");
            assert!(headers.is_empty());
        }
        other => panic!("unexpected plan {:?}", other),
    }
}

#[test]
fn api_key_choice() {
    assert_eq!(api_key_for("stored", &[Some("env".to_string())]), "stored");
    assert_eq!(api_key_for("", &[None, Some("second".to_string()), Some("third".to_string())]), "second");
    assert_eq!(api_key_for("", &[None, None]), "");
}

#[test]
fn live_list_only_when_not_empty() {
    let cached = vec!["a".to_string()];
    let (m, live) = shown_models(vec!["x".to_string(), "y".to_string()], cached.clone());
    assert_eq!(m, vec!["x".to_string(), "y".to_string()]);
    assert!(live);
    let (m, live) = shown_models(Vec::new(), cached);
    assert_eq!(m, vec!["a".to_string()]);
    assert!(!live);
}

#[test]
fn http_error_text_cuts_body() {
    let body = "é".repeat(250);
    let t = http_error_text("404 Not Found", &body);
    assert_eq!(t, format!("API returned HTTP 404 Not Found: {}", "é".repeat(200)));
    assert_eq!(http_error_text("500", "oops"), "API returned HTTP 500: oops");
}

fn obj(members: Vec<(&str, JsonValue)>) -> JsonValue {
    JsonValue::Object(members.into_iter().map(|(k, v)| (k.to_string(), v)).collect())
}

fn s(t: &str) -> JsonValue {
    JsonValue::Str(t.to_string())
}

#[test]
fn model_ids_from_answers() {
    let v = obj(vec![(
        "data",
        JsonValue::Array(vec![obj(vec![("id", s("gpt-4o"))]), obj(vec![("x", s("y"))]), obj(vec![("id", s("o1"))])]),
    )]);
    assert_eq!(model_ids(&v, "data", "id"), vec!["gpt-4o".to_string(), "o1".to_string()]);
    assert_eq!(model_ids(&v, "models", "name"), Vec::<String>::new());
    assert_eq!(model_ids(&obj(vec![("data", s("no"))]), "data", "id"), Vec::<String>::new());
}

#[test]
fn ollama_and_http_answers() {
    let ollama = obj(vec![("models", JsonValue::Array(vec![obj(vec![("name", s("llama3"))])]))]);
    match ollama_answer(Ok((200, "200 OK".to_string(), Some(ollama)))) {
        ModelsAnswer::Live(ids) => assert_eq!(ids, vec!["llama3".to_string()]),
        other => panic!("unexpected {:?}", other),
    }
    assert!(matches!(ollama_answer(Ok((200, "200 OK".to_string(), None))), ModelsAnswer::TryHttp));
    match ollama_answer(Ok((404, "404 Not Found".to_string(), None))) {
        ModelsAnswer::Cached(e) => assert_eq!(e, "Ollama returned HTTP 404 Not Found"),
        other => panic!("unexpected {:?}", other),
    }
    match ollama_answer(Err("refused".to_string())) {
        ModelsAnswer::Cached(e) => assert_eq!(e, "Ollama not reachable: refused"),
        other => panic!("unexpected {:?}", other),
    }
    match http_answer(Ok((500, "500".to_string(), "boom".to_string(), None))) {
        ModelsAnswer::Cached(e) => assert_eq!(e, "API returned HTTP 500: boom"),
        other => panic!("unexpected {:?}", other),
    }
    match http_answer(Ok((200, "200".to_string(), "{".to_string(), None))) {
        ModelsAnswer::Cached(e) => assert_eq!(e, "Failed to parse models response"),
        other => panic!("unexpected {:?}", other),
    }
    match http_answer(Err("dns".to_string())) {
        ModelsAnswer::Cached(e) => assert_eq!(e, "Connection failed: dns"),
        other => panic!("unexpected {:?}", other),
    }
}
