use ola::api::{ApiClient, SelectedProvider};
use ola::wire;

fn lines(items: &[&str]) -> Vec<String> {
    items.iter().map(|s| s.to_string()).collect()
}

#[test]
fn ndjson_two_lines_concatenate() {
    let input = lines(&[r#"{"response":"A"}"#, r#"{"response":"B"}"#]);
    assert_eq!(wire::ollama_stream_text(&input), "AB");
}

#[test]
fn ndjson_malformed_line_is_skipped() {
    let input = lines(&[r#"{"response":"A"}"#, "not json at all", r#"{"response":"B"}"#]);
    assert_eq!(wire::ollama_stream_text(&input), "AB");
}

#[test]
fn ndjson_empty_lines_are_skipped() {
    let input = lines(&["", r#"{"response":"A"}"#, ""]);
    assert_eq!(wire::ollama_stream_text(&input), "A");
}

#[test]
fn sse_openai_stream_extracts_delta() {
    let input = lines(&[
        r#"data: {"choices":[{"delta":{"content":"Hi"}}]}"#,
        "data: [DONE]",
    ]);
    assert_eq!(wire::openai_stream_text(&input), "Hi");
}

#[test]
fn sse_openai_line_without_prefix_contributes_nothing() {
    let input = lines(&[
        r#"{"choices":[{"delta":{"content":"ignored"}}]}"#,
        r#"data: {"choices":[{"delta":{"content":"kept"}}]}"#,
    ]);
    assert_eq!(wire::openai_stream_text(&input), "kept");
}

#[test]
fn sse_anthropic_stream_extracts_delta_text() {
    let input = lines(&[
        r#"data: {"delta":{"text":"Hel"}}"#,
        "",
        r#"data: {"delta":{"text":"lo"}}"#,
        "data: [DONE]",
    ]);
    assert_eq!(wire::anthropic_stream_text(&input), "Hello");
}

#[test]
fn openai_full_body_content() {
    let body = r#"{"choices":[{"message":{"role":"assistant","content":"Answer"}}]}"#;
    assert_eq!(wire::openai_full_text(body).unwrap(), "Answer");
}

#[test]
fn openai_full_body_missing_content_is_empty() {
    let body = r#"{"choices":[]}"#;
    assert_eq!(wire::openai_full_text(body).unwrap(), "");
}

#[test]
fn openai_full_body_parse_failure_is_fatal() {
    let r = wire::openai_full_text("{broken");
    assert_eq!(r, Err(wire::WireError::InvalidJson));
}

#[test]
fn anthropic_full_body_concatenates_texts() {
    let body = r#"{"content":[{"type":"text","text":"One "},{"type":"text","text":"Two"}]}"#;
    assert_eq!(wire::anthropic_full_text(body).unwrap(), "One Two");
}

#[test]
fn anthropic_full_body_parse_failure_is_fatal() {
    assert!(wire::anthropic_full_text("nope").is_err());
}

#[test]
fn gemini_full_body_concatenates_parts() {
    let body = r#"{"candidates":[{"content":{"parts":[{"text":"Hello "},{"text":"Gemini"}]}}]}"#;
    assert_eq!(wire::gemini_full_text(body).unwrap(), "Hello Gemini");
}

#[test]
fn ollama_model_names_parse() {
    let body = r#"{"models":[{"name":"llama2"},{"name":"mistral"}]}"#;
    let names = wire::ollama_model_names(body).unwrap();
    assert_eq!(names, vec!["llama2".to_string(), "mistral".to_string()]);
    assert!(wire::ollama_model_names("bad").is_err());
}

#[test]
fn client_extracts_per_provider() {
    let client = ApiClient::new("Ollama", "", None).unwrap();
    let body = "{\"response\":\"A\"}\n{\"response\":\"B\"}\n";
    assert_eq!(client.extract_full_response(body).unwrap(), "AB");

    let client = ApiClient::new("OpenAI", "sk-x", None).unwrap();
    let frag = client
        .extract_stream_fragment(r#"data: {"choices":[{"delta":{"content":"Hi"}}]}"#);
    assert_eq!(frag.unwrap(), "Hi");
    assert_eq!(client.extract_stream_fragment("data: [DONE]"), None);

    let client = ApiClient::new("Gemini", "key", None).unwrap();
    assert_eq!(client.extract_stream_fragment("data: {}"), None);
}

#[test]
fn client_requests_match_protocols() {
    let client = ApiClient::new("OpenAI", "sk-key", None).unwrap();
    let req = client.request("ask \"this\"", "gpt-4", true);
    assert_eq!(req.url, "https://api.openai.com/v1/chat/completions");
    assert_eq!(
        req.body,
        "{\"model\":\"gpt-4\",\"messages\":[{\"role\":\"user\",\"content\":\"ask \\\"this\\\"\"}],\"stream\":true}"
    );
    assert_eq!(req.headers[0].0, "Authorization");
    assert_eq!(req.headers[0].1, "Bearer sk-key");

    let client = ApiClient::new("Anthropic", "sk-ant-key", Some("http://mock")).unwrap();
    let req = client.request("p", "sonnet-2.1", false);
    assert_eq!(req.url, "http://mock/v1/messages");
    assert_eq!(
        req.body,
        "{\"model\":\"sonnet-2.1\",\"messages\":[{\"role\":\"user\",\"content\":\"p\"}],\"max_tokens\":2048,\"stream\":false}"
    );
    assert_eq!(req.headers[0].0, "X-API-Key");
    assert_eq!(req.headers[1].1, "2023-06-01");

    let client = ApiClient::new("Ollama", "", None).unwrap();
    let req = client.request("hi\nthere", "llama2", true);
    assert_eq!(req.url, "http://localhost:11434/api/generate");
    assert_eq!(
        req.body,
        "{\"model\":\"llama2\",\"prompt\":\"hi\\nthere\",\"stream\":true,\"options\":{\"num_predict\":2048}}"
    );

    let client = ApiClient::new("Gemini", "g-key", None).unwrap();
    let req = client.request("q", "gemini-1.5-pro", false);
    assert_eq!(
        req.url,
        "https://generativelanguage.googleapis.com/v1beta/models/gemini-1.5-pro:generateContent?key=g-key"
    );
    assert_eq!(
        req.body,
        "{\"contents\":[{\"role\":\"user\",\"parts\":[{\"text\":\"q\"}]}],\"generationConfig\":{\"temperature\":0.7,\"maxOutputTokens\":2048}}"
    );
}

#[test]
fn client_selection_and_names() {
    let client = ApiClient::new("OpenAI", "k", None).unwrap();
    assert_eq!(client.get_provider_name(), "OpenAI");
    assert!(matches!(client.provider, SelectedProvider::OpenAI(_)));

    let client = ApiClient::new("Anthropic", "k", None).unwrap();
    assert_eq!(client.get_provider_name(), "Anthropic");

    let client = ApiClient::new("Ollama", "", None).unwrap();
    assert_eq!(client.get_provider_name(), "Ollama");

    let client = ApiClient::new("Gemini", "k", None).unwrap();
    assert_eq!(client.get_provider_name(), "Gemini");

    let err = ApiClient::new("Mistral", "k", None).unwrap_err();
    assert_eq!(err.message(), "Unsupported provider: Mistral");
}
