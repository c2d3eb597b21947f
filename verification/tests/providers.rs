use ptconductor::domain::OutputFormat;
use ptconductor::engine::AiRequest;
use ptconductor::error::EngineError;
use ptconductor::urls::UrlParts;
use ptconductor::providers::{
    base_url_acceptable, chat_answer, check_codex_output_size, check_login_status, codex_prompt, codex_response,
    codex_result, is_loopback, judge_login, ollama_answer, ollama_request_body, ollama_settings,
    openai_answer, openai_request_body,
    openai_settings, provider_kind, status_error, transport_error, validated_base_url,
    validated_model, CodexProvider, MockProvider, ProviderKind,
};

fn request() -> AiRequest {
    AiRequest {
        workflow_id: "fingerprint".to_owned(),
        step_id: "analyze".to_owned(),
        prompt: "Return JSON observations".to_owned(),
        output_format: OutputFormat::Json,
    }
}

fn provider_message(error: EngineError) -> String {
    match error {
        EngineError::Provider(message) => message,
        other => panic!("expected a provider error, got {:?}", other),
    }
}

#[test]
fn rejects_non_tls_key_destination_and_nonlocal_ollama() {
    assert!(openai_settings("test", Some("http://example.com/v1"), "key").is_err());
    assert!(ollama_settings("test", Some("http://example.com/")).is_err());
    assert!(provider_kind("codex", Some("https://example.com")).is_err());
}

#[test]
fn endpoints_join_below_the_base_url() {
    let openai = openai_settings("gpt-test", None, "key").unwrap();
    assert_eq!(openai.endpoint, "https://api.openai.com/v1/chat/completions");
    assert_eq!(openai.model, "gpt-test");
    let local = openai_settings("m", Some("http://127.0.0.1:8080/v1"), "key").unwrap();
    assert_eq!(local.endpoint, "http://127.0.0.1:8080/v1/chat/completions");
    let ollama = ollama_settings("llama3.2", None).unwrap();
    assert_eq!(ollama.endpoint, "http://127.0.0.1:11434/api/chat");
    assert_eq!(
        provider_message(ollama_settings("m", Some("http://example.com/")).unwrap_err()),
        "Ollama endpoint must be loopback for local mode"
    );
    assert_eq!(
        provider_message(openai_settings("m", None, "  ").unwrap_err()),
        "OPENAI_API_KEY is empty"
    );
    assert_eq!(
        provider_message(openai_settings("bad model", None, "key").unwrap_err()),
        "a model name is required"
    );
}

#[test]
fn base_urls_refuse_credentials_queries_and_fragments() {
    for bad in [
        "https://user@example.com/",
        "https://user:pw@example.com/",
        "https://example.com/?q=1",
        "https://example.com/#top",
        "ftp://example.com/",
        "not a url",
    ] {
        assert!(validated_base_url(bad, false).is_err(), "{}", bad);
    }
    let (url, host) = validated_base_url("https://example.com/v1", true).unwrap();
    assert_eq!(url, "https://example.com/v1/");
    assert_eq!(host.as_deref(), Some("example.com"));
    assert!(validated_base_url("http://localhost:1/", true).is_ok());
    assert!(is_loopback(&Some("::1".to_owned())));
    assert!(!is_loopback(&Some("example.com".to_owned())));
}

#[test]
fn provider_kinds_and_models() {
    assert_eq!(provider_kind("mock", None).unwrap(), ProviderKind::Mock);
    assert_eq!(provider_kind("openai", Some("https://x.test")).unwrap(), ProviderKind::OpenAi);
    assert_eq!(provider_kind("ollama", None).unwrap(), ProviderKind::Ollama);
    assert_eq!(provider_kind("codex", None).unwrap(), ProviderKind::Codex);
    assert_eq!(
        provider_message(provider_kind("acme", None).unwrap_err()),
        "unknown provider `acme`"
    );
    assert_eq!(
        provider_message(provider_kind("codex", Some("https://example.com")).unwrap_err()),
        "Codex does not use a base URL"
    );
    assert_eq!(validated_model("gpt-6-sol").unwrap(), "gpt-6-sol");
    assert!(validated_model("").is_err());
    assert!(validated_model("two words").is_err());
}

#[test]
fn status_errors_name_the_code_and_not_the_body() {
    let error = status_error("OpenAI-compatible", 401).message();
    assert_eq!(
        error,
        "provider error: OpenAI-compatible authentication or access denied (HTTP 401)"
    );
    assert!(!error.contains("test-only-key"));
    assert_eq!(
        provider_message(status_error("Ollama", 404)),
        "Ollama endpoint or model not found (HTTP 404)"
    );
    assert_eq!(
        provider_message(status_error("Ollama", 429)),
        "Ollama rate limit or quota exceeded (HTTP 429)"
    );
    assert_eq!(provider_message(status_error("Ollama", 503)), "Ollama server error (HTTP 503)");
    assert_eq!(provider_message(status_error("Ollama", 418)), "Ollama request rejected (HTTP 418)");
    assert_eq!(
        provider_message(transport_error("Ollama", true, true)),
        "Ollama request timed out"
    );
    assert_eq!(
        provider_message(transport_error("Ollama", false, true)),
        "Ollama connection failed"
    );
    assert_eq!(provider_message(transport_error("Ollama", false, false)), "Ollama request failed");
}

#[test]
fn chat_answers_need_content() {
    let answer = chat_answer(
        "openai",
        "OpenAI-compatible",
        Some("{\"technologies\":[]}".to_owned()),
        Some("test".to_owned()),
    )
    .unwrap();
    assert_eq!(answer.content, "{\"technologies\":[]}");
    assert_eq!(answer.provider, "openai");
    assert_eq!(answer.model.as_deref(), Some("test"));
    assert_eq!(
        provider_message(chat_answer("ollama", "Ollama", Some(" ".to_owned()), None).unwrap_err()),
        "Ollama response had no message content"
    );
    assert!(chat_answer("ollama", "Ollama", None, None).is_err());
}

#[test]
fn codex_is_configured_for_a_read_only_stdin_run() {
    let provider = CodexProvider::new("gpt-6-sol").unwrap();
    assert_eq!(provider.executable, "codex");
    let args = provider.exec_arguments();
    for required in ["read-only", "never", "--ephemeral", "--ignore-user-config", "-"] {
        assert!(args.iter().any(|argument| argument == required));
    }
    assert!(!args.iter().any(|argument| argument.contains("Return JSON observations")));
    let prompt = codex_prompt(&request()).unwrap();
    assert!(prompt.contains("Return only one valid JSON object"));
    assert!(prompt.ends_with("Return JSON observations"));
    let mut long = request();
    long.prompt = "x".repeat(256 * 1024);
    assert_eq!(
        provider_message(codex_prompt(&long).unwrap_err()),
        "Codex prompt exceeds 256 KiB"
    );
}

#[test]
fn codex_login_must_be_chatgpt() {
    assert!(check_login_status(true, b"Logged in using ChatGPT\n", b"").is_ok());
    let refused = check_login_status(true, b"Logged in using an API key\n", b"");
    assert!(provider_message(refused.unwrap_err()).contains("signed in with ChatGPT"));
    assert!(check_login_status(false, b"Logged in using ChatGPT\n", b"").is_err());
    assert!(check_login_status(true, b"chatgpt", b"APIKEY").is_err());
}

#[test]
fn codex_output_is_checked() {
    assert!(check_codex_output_size(1024 * 1024).is_ok());
    assert_eq!(
        provider_message(check_codex_output_size(1024 * 1024 + 1).unwrap_err()),
        "Codex output exceeds 1 MiB"
    );
    assert_eq!(codex_result(true, b"{\"a\":1}\n".to_vec()).unwrap(), "{\"a\":1}\n");
    assert_eq!(
        provider_message(codex_result(false, b"x".to_vec()).unwrap_err()),
        "Codex run failed; check your ChatGPT login and Codex usage limits"
    );
    assert_eq!(
        provider_message(codex_result(true, vec![0xff, 0xfe]).unwrap_err()),
        "Codex output was not UTF-8"
    );
    assert_eq!(
        provider_message(codex_result(true, b" \n".to_vec()).unwrap_err()),
        "Codex returned no output"
    );
}

#[test]
fn the_mock_answers_deterministically() {
    let mock = MockProvider;
    assert_eq!(mock.id(), "mock");
    assert!(!mock.is_remote());
    let json = mock.complete(&request());
    let mut expected = serde_json::Map::new();
    expected.insert("workflow".to_owned(), serde_json::Value::String("fingerprint".to_owned()));
    expected.insert("step".to_owned(), serde_json::Value::String("analyze".to_owned()));
    expected.insert(
        "analysis".to_owned(),
        serde_json::Value::String("deterministic mock output".to_owned()),
    );
    assert_eq!(json.content, serde_json::Value::Object(expected).to_string());
    assert_eq!(json.model.as_deref(), Some("deterministic-mock"));
    let mut text_request = request();
    text_request.output_format = OutputFormat::Text;
    assert_eq!(
        mock.complete(&text_request).content,
        "Mock analysis for workflow `fingerprint` step `analyze`:\n\nReturn JSON observations"
    );
}

#[test]
fn openai_sends_json_mode_and_parses_response() {
    let settings = openai_settings("test-model", Some("http://127.0.0.1:9/"), "test-only-key").unwrap();
    let sent: serde_json::Value =
        serde_json::from_str(&openai_request_body(&settings, &request())).unwrap();
    assert_eq!(sent["model"], "test-model");
    assert_eq!(sent["response_format"]["type"], "json_object");
    assert_eq!(sent["messages"][0]["content"], "Return JSON observations");
    assert_eq!(sent["stream"], false);
    let result = openai_answer(
        br#"{"model":"test","choices":[{"message":{"content":"{\"technologies\":[]}"}}]}"#,
    )
    .unwrap();
    assert_eq!(result.content, r#"{"technologies":[]}"#);
    assert_eq!(result.provider, "openai");
    assert_eq!(result.model.as_deref(), Some("test"));
    let mut text = request();
    text.output_format = OutputFormat::Text;
    let plain: serde_json::Value =
        serde_json::from_str(&openai_request_body(&settings, &text)).unwrap();
    assert!(plain.get("response_format").is_none());
}

#[test]
fn ollama_sends_non_streaming_json_request() {
    let settings = ollama_settings("local", Some("http://127.0.0.1:9/")).unwrap();
    let body = ollama_request_body(&settings, &request());
    let sent: serde_json::Value = serde_json::from_str(&body).unwrap();
    assert_eq!(sent["format"], "json");
    assert_eq!(sent["stream"], false);
    assert_eq!(sent["model"], "local");
    assert_eq!(
        body,
        r#"{"format":"json","messages":[{"content":"Return JSON observations","role":"user"}],"model":"local","stream":false}"#
    );
    let result =
        ollama_answer(br#"{"model":"local","message":{"content":"{\"technologies\":[]}"}}"#)
            .unwrap();
    assert_eq!(result.content, r#"{"technologies":[]}"#);
    assert_eq!(result.provider, "ollama");
}

#[test]
fn errors_do_not_echo_response_body() {
    let error = status_error("OpenAI-compatible", 401).message();
    assert!(error.contains("HTTP 401"));
    assert!(!error.contains("test-only-key"));
    assert!(!error.contains("private prompt"));
}

#[test]
fn codex_uses_chatgpt_login_and_passes_prompt_via_stdin() {
    let provider = CodexProvider::new("gpt-6-sol").unwrap();
    assert!(check_login_status(true, b"Logged in using ChatGPT\n", b"").is_ok());
    let args = provider.exec_arguments();
    for required in ["read-only", "never", "--ephemeral", "--ignore-user-config", "-"] {
        assert!(args.iter().any(|argument| argument == required));
    }
    assert!(!args.iter().any(|argument| argument.contains("Return JSON observations")));
    let prompt = codex_prompt(&request()).unwrap();
    assert!(prompt.contains("Return only one valid JSON object"));
    assert!(prompt.contains("Return JSON observations"));
    let content = codex_result(true, b"{\"technologies\":[]}\n".to_vec()).unwrap();
    let response = codex_response(&provider, content);
    assert_eq!(response.provider, "codex");
    assert_eq!(response.model.as_deref(), Some("gpt-6-sol"));
    assert_eq!(response.content.trim(), r#"{"technologies":[]}"#);
}

#[test]
fn codex_rejects_api_key_authentication() {
    let error = check_login_status(true, b"Logged in using an API key\n", b"")
        .unwrap_err()
        .message();
    assert!(error.contains("signed in with ChatGPT"));
}

fn parts(scheme: &str, host: Option<&str>) -> UrlParts {
    UrlParts {
        scheme: scheme.to_owned(),
        username: String::new(),
        password: None,
        host: host.map(str::to_owned),
        path: "/v1".to_owned(),
        query: None,
        fragment: None,
        serialized: format!("{}://{}/v1", scheme, host.unwrap_or("")),
    }
}

#[test]
fn parsed_base_urls_are_judged_by_their_parts() {
    assert!(base_url_acceptable(&parts("https", Some("example.com")), true));
    assert!(!base_url_acceptable(&parts("http", Some("example.com")), true));
    assert!(base_url_acceptable(&parts("http", Some("example.com")), false));
    assert!(base_url_acceptable(&parts("http", Some("localhost")), true));
    assert!(base_url_acceptable(&parts("http", Some("[::1]")), true));
    assert!(!base_url_acceptable(&parts("ftp", Some("example.com")), false));
    assert!(!base_url_acceptable(&parts("https", None), false));
    let mut with_user = parts("https", Some("example.com"));
    with_user.username = "user".to_owned();
    assert!(!base_url_acceptable(&with_user, false));
    let mut with_password = parts("https", Some("example.com"));
    with_password.password = Some("pw".to_owned());
    assert!(!base_url_acceptable(&with_password, false));
    let mut with_query = parts("https", Some("example.com"));
    with_query.query = Some("q=1".to_owned());
    assert!(!base_url_acceptable(&with_query, false));
    let mut with_fragment = parts("https", Some("example.com"));
    with_fragment.fragment = Some("top".to_owned());
    assert!(!base_url_acceptable(&with_fragment, false));
}

#[test]
fn decoded_login_reports_are_judged_case_insensitively() {
    assert!(judge_login(true, "Logged in using CHATGPT", "").is_ok());
    assert!(judge_login(true, "", "signed in: ChatGPT").is_ok());
    assert!(judge_login(false, "Logged in using ChatGPT", "").is_err());
    assert!(judge_login(true, "Logged in using ChatGPT", "API-Key present").is_err());
    assert!(judge_login(true, "Logged in", "").is_err());
    assert!(check_login_status(true, &[0xff, b' ', b'c', b'h', b'a', b't', b'g', b'p', b't'], b"").is_ok());
}

#[test]
fn chat_replies_must_be_json_with_content() {
    assert_eq!(
        provider_message(openai_answer(b"<html>").unwrap_err()),
        "OpenAI-compatible response was not valid JSON"
    );
    assert_eq!(
        provider_message(openai_answer(br#"{"choices":[]}"#).unwrap_err()),
        "OpenAI-compatible response had no message content"
    );
    assert_eq!(
        provider_message(ollama_answer(br#"{"message":{"content":7}}"#).unwrap_err()),
        "Ollama response had no message content"
    );
    let answer = ollama_answer(br#"{"model":3,"message":{"content":"ok"}}"#).unwrap();
    assert_eq!(answer.content, "ok");
    assert_eq!(answer.model, None);
}

#[test]
fn json_strings_are_escaped_as_serde_json_writes_them() {
    let mut tricky = request();
    tricky.step_id = "a\"b\\c\n\t\u{1}\u{7f}é".to_owned();
    tricky.workflow_id = "w\r\u{8}\u{c}\u{1f}".to_owned();
    let content = MockProvider.complete(&tricky).content;
    let mut expected = serde_json::Map::new();
    expected.insert("workflow".to_owned(), serde_json::Value::String(tricky.workflow_id.clone()));
    expected.insert("step".to_owned(), serde_json::Value::String(tricky.step_id.clone()));
    expected.insert(
        "analysis".to_owned(),
        serde_json::Value::String("deterministic mock output".to_owned()),
    );
    assert_eq!(content, serde_json::Value::Object(expected).to_string());
    assert!(content.contains("\\u0001"));
}
