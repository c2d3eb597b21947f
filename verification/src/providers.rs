//! Provider configuration and the decisions of the built-in AI providers: endpoint and
//! model checks, request prompts, and the reading of answers and failures. The network
//! and process work happens outside the library.
use vstd::prelude::*;
use vstd::utf8::{decode_utf8, valid_utf8};

use crate::bytes::{decode_lossy, decode_strict, utf8_lossy};
use crate::domain::OutputFormat;
use crate::engine::{AiRequest, AiResponse};
use crate::error::{EngineError, ErrorView};
use crate::json::{json_chat_reply, json_quoted, json_string, parse_chat_reply};
use crate::text::{
    ascii_lower_exec, ascii_lower_seq, chars_of, contains_exec, contains_seq, decimal,
    decimal_exec, has_white_space, has_white_space_str, is_blank, is_blank_str, join2, join3,
    opt_view, str_eq, string_of,
};
use crate::urls::{join_url, parse_url, parsed_url, set_url_path, url_joined, url_with_path, UrlParts, UrlPartsView};

verus! {

pub const OPENAI_BASE_URL: &'static str = "https://api.openai.com/v1/";

pub const OLLAMA_BASE_URL: &'static str = "http://127.0.0.1:11434/";

/// The largest prompt, in bytes, that the Codex provider sends.
pub const CODEX_PROMPT_LIMIT: usize = 262144;

/// The largest output, in bytes, that the Codex provider accepts.
pub const CODEX_OUTPUT_LIMIT: usize = 1048576;

/// The provider kinds that can be configured.
#[derive(Debug, Clone, Copy, PartialEq, Eq, Structural)]
pub enum ProviderKind {
    Mock,
    OpenAi,
    Ollama,
    Codex,
}

/// A provider failure with the given text.
pub open spec fn provider_error(text: Seq<char>) -> ErrorView {
    ErrorView::Provider(text)
}

/// The kind of provider that a configuration names.
pub open spec fn provider_kind_outcome(kind: Seq<char>, has_base_url: bool) -> Result<ProviderKind, ErrorView> {
    if kind == "mock"@ {
        Ok(ProviderKind::Mock)
    } else if kind == "openai"@ {
        Ok(ProviderKind::OpenAi)
    } else if kind == "ollama"@ {
        Ok(ProviderKind::Ollama)
    } else if kind == "codex"@ && !has_base_url {
        Ok(ProviderKind::Codex)
    } else if kind == "codex"@ {
        Err(provider_error("Codex does not use a base URL"@))
    } else {
        Err(provider_error("unknown provider `"@ + kind + "`"@))
    }
}

/// Chooses the provider kind for `kind` (`mock`, `openai`, `ollama` or `codex`). Codex
/// takes no base URL.
pub fn provider_kind(kind: &str, base_url: Option<&str>) -> (r: Result<ProviderKind, EngineError>)
    ensures
        match provider_kind_outcome(kind@, base_url is Some) {
            Ok(k) => r == Ok::<ProviderKind, EngineError>(k),
            Err(e) => r matches Err(x) && x@ == e,
        },
{
    if str_eq(kind, "mock") {
        Ok(ProviderKind::Mock)
    } else if str_eq(kind, "openai") {
        Ok(ProviderKind::OpenAi)
    } else if str_eq(kind, "ollama") {
        Ok(ProviderKind::Ollama)
    } else if str_eq(kind, "codex") && base_url.is_none() {
        Ok(ProviderKind::Codex)
    } else if str_eq(kind, "codex") {
        Err(EngineError::Provider("Codex does not use a base URL".to_owned()))
    } else {
        Err(EngineError::Provider(join3("unknown provider `", kind, "`")))
    }
}

/// A model name must be present and hold no white space.
pub open spec fn model_ok(model: Seq<char>) -> bool {
    !is_blank(model) && !has_white_space(model)
}

/// Checks a model name.
pub fn validated_model(model: &str) -> (r: Result<String, EngineError>)
    ensures
        model_ok(model@) ==> (r matches Ok(m) && m@ == model@),
        !model_ok(model@) ==> (r matches Err(e) && e@ == provider_error("a model name is required"@)),
{
    if is_blank_str(model) || has_white_space_str(model) {
        return Err(EngineError::Provider("a model name is required".to_owned()));
    }
    Ok(model.to_owned())
}

/// The hosts that count as this machine.
pub open spec fn loopback_host(host: Option<Seq<char>>) -> bool {
    match host {
        Some(h) => h == "localhost"@ || h == "127.0.0.1"@ || h == "[::1]"@ || h == "::1"@,
        None => false,
    }
}

/// Whether a URL host is this machine.
pub fn is_loopback(host: &Option<String>) -> (r: bool)
    ensures
        r == loopback_host(opt_view(*host)),
{
    match host {
        Some(h) => str_eq(h.as_str(), "localhost") || str_eq(h.as_str(), "127.0.0.1") || str_eq(
            h.as_str(),
            "[::1]",
        ) || str_eq(h.as_str(), "::1"),
        None => false,
    }
}

pub open spec fn invalid_endpoint_view() -> ErrorView {
    provider_error(
        "invalid provider base URL (OpenAI-compatible keys require HTTPS except loopback)"@,
    )
}

/// The error for a base URL that cannot be used.
pub fn invalid_endpoint() -> (e: EngineError)
    ensures
        e@ == invalid_endpoint_view(),
{
    EngineError::Provider(
        "invalid provider base URL (OpenAI-compatible keys require HTTPS except loopback)".to_owned(),
    )
}

/// A base URL is usable when it has a host, no credentials, query or fragment, an
/// `http` or `https` scheme, and, when TLS is required, uses `https` unless it is local.
pub open spec fn base_url_accepted(p: UrlPartsView, requires_tls: bool) -> bool {
    &&& p.host is Some
    &&& p.username.len() == 0
    &&& p.password is None
    &&& p.query is None
    &&& p.fragment is None
    &&& (p.scheme == "http"@ || p.scheme == "https"@)
    &&& !(requires_tls && p.scheme == "http"@ && !loopback_host(p.host))
}

/// Judges the parts of a parsed base URL.
pub fn base_url_acceptable(parts: &UrlParts, requires_tls: bool) -> (r: bool)
    ensures
        r == base_url_accepted(parts@, requires_tls),
{
    let scheme = parts.scheme.as_str();
    parts.host.is_some() && parts.username.unicode_len() == 0 && parts.password.is_none()
        && parts.query.is_none() && parts.fragment.is_none() && (str_eq(scheme, "http") || str_eq(
        scheme,
        "https",
    )) && !(requires_tls && str_eq(scheme, "http") && !is_loopback(&parts.host))
}

/// The checked base URL, with its path ending in `/`.
pub open spec fn base_url_outcome(value: Seq<char>, requires_tls: bool) -> Result<Seq<char>, ErrorView> {
    match parsed_url(value) {
        None => Err(invalid_endpoint_view()),
        Some(p) => if !base_url_accepted(p, requires_tls) {
            Err(invalid_endpoint_view())
        } else if p.path.len() > 0 && p.path[p.path.len() - 1] == '/' {
            Ok(p.serialized)
        } else {
            match url_with_path(value, p.path + "/"@) {
                Some(s) => Ok(s),
                None => Err(invalid_endpoint_view()),
            }
        },
    }
}

/// Checks a provider base URL and makes its path end in `/`, so that endpoints join
/// below it. Returns the URL's serialization and its host.
pub fn validated_base_url(value: &str, requires_tls: bool) -> (r: Result<(String, Option<String>), EngineError>)
    ensures
        match base_url_outcome(value@, requires_tls) {
            Ok(s) => r matches Ok((u, h)) && u@ == s && opt_view(h) == parsed_url(value@)->0.host,
            Err(e) => r matches Err(x) && x@ == e,
        },
        parsed_url(value@) matches Some(p) && base_url_accepted(p, requires_tls) ==> r is Ok,
{
    let parts = match parse_url(value) {
        Some(p) => p,
        None => {
            return Err(invalid_endpoint());
        },
    };
    if !base_url_acceptable(&parts, requires_tls) {
        return Err(invalid_endpoint());
    }
    let path = chars_of(parts.path.as_str());
    if path.len() > 0 && path[path.len() - 1] == '/' {
        return Ok((parts.serialized, parts.host));
    }
    let new_path = join2(parts.path.as_str(), "/");
    match set_url_path(value, new_path.as_str()) {
        Some(s) => Ok((s, parts.host)),
        None => Err(invalid_endpoint()),
    }
}

/// The endpoint and model that an OpenAI-compatible provider uses.
#[derive(Debug, Clone, PartialEq)]
pub struct OpenAiSettings {
    pub endpoint: String,
    pub model: String,
}

/// The endpoint and model that an Ollama provider uses.
#[derive(Debug, Clone, PartialEq)]
pub struct OllamaSettings {
    pub endpoint: String,
    pub model: String,
}

/// Checks an OpenAI-compatible configuration: a key must be present, the base URL (the
/// public API unless given) must be usable with TLS, and the model must be named.
pub open spec fn openai_outcome(model: Seq<char>, base_url: Seq<char>, api_key: Seq<char>) -> Result<(Seq<char>, Seq<char>), ErrorView> {
    if is_blank(api_key) {
        Err(provider_error("OPENAI_API_KEY is empty"@))
    } else {
        match base_url_outcome(base_url, true) {
            Err(e) => Err(e),
            Ok(base) => match url_joined(base, "chat/completions"@) {
                None => Err(invalid_endpoint_view()),
                Some(endpoint) => if !model_ok(model) {
                    Err(provider_error("a model name is required"@))
                } else {
                    Ok((endpoint, model))
                },
            },
        }
    }
}

/// The base URL in use: the given one, else the default.
pub open spec fn chosen_base(base_url: Option<&str>, default: &str) -> Seq<char> {
    match base_url {
        Some(b) => b@,
        None => default@,
    }
}

/// The settings of an OpenAI-compatible provider with the given key.
pub fn openai_settings(model: &str, base_url: Option<&str>, api_key: &str) -> (r: Result<OpenAiSettings, EngineError>)
    ensures
        match openai_outcome(model@, chosen_base(base_url, OPENAI_BASE_URL), api_key@) {
            Ok((endpoint, m)) => r matches Ok(s) && s.endpoint@ == endpoint && s.model@ == m,
            Err(e) => r matches Err(x) && x@ == e,
        },
{
    if is_blank_str(api_key) {
        return Err(EngineError::Provider("OPENAI_API_KEY is empty".to_owned()));
    }
    let base_text = match base_url {
        Some(b) => b,
        None => OPENAI_BASE_URL,
    };
    let (base, _) = match validated_base_url(base_text, true) {
        Ok(b) => b,
        Err(e) => {
            return Err(e);
        },
    };
    let endpoint = match join_url(base.as_str(), "chat/completions") {
        Some(e) => e,
        None => {
            return Err(invalid_endpoint());
        },
    };
    let model = match validated_model(model) {
        Ok(m) => m,
        Err(e) => {
            return Err(e);
        },
    };
    Ok(OpenAiSettings { endpoint, model })
}

/// Checks an Ollama configuration: the base URL (the local default unless given) must be
/// usable and local, and the model must be named.
pub open spec fn ollama_outcome(model: Seq<char>, base_url: Seq<char>) -> Result<(Seq<char>, Seq<char>), ErrorView> {
    match base_url_outcome(base_url, false) {
        Err(e) => Err(e),
        Ok(base) => if !loopback_host(parsed_url(base_url)->0.host) {
            Err(provider_error("Ollama endpoint must be loopback for local mode"@))
        } else {
            match url_joined(base, "api/chat"@) {
                None => Err(invalid_endpoint_view()),
                Some(endpoint) => if !model_ok(model) {
                    Err(provider_error("a model name is required"@))
                } else {
                    Ok((endpoint, model))
                },
            }
        },
    }
}

/// The settings of an Ollama provider.
pub fn ollama_settings(model: &str, base_url: Option<&str>) -> (r: Result<OllamaSettings, EngineError>)
    ensures
        match ollama_outcome(model@, chosen_base(base_url, OLLAMA_BASE_URL)) {
            Ok((endpoint, m)) => r matches Ok(s) && s.endpoint@ == endpoint && s.model@ == m,
            Err(e) => r matches Err(x) && x@ == e,
        },
{
    let base_text = match base_url {
        Some(b) => b,
        None => OLLAMA_BASE_URL,
    };
    let (base, host) = match validated_base_url(base_text, false) {
        Ok(b) => b,
        Err(e) => {
            return Err(e);
        },
    };
    if !is_loopback(&host) {
        return Err(EngineError::Provider("Ollama endpoint must be loopback for local mode".to_owned()));
    }
    let endpoint = match join_url(base.as_str(), "api/chat") {
        Some(e) => e,
        None => {
            return Err(invalid_endpoint());
        },
    };
    let model = match validated_model(model) {
        Ok(m) => m,
        Err(e) => {
            return Err(e);
        },
    };
    Ok(OllamaSettings { endpoint, model })
}

/// The JSON body sent to an OpenAI-compatible chat endpoint, as serde_json writes it
/// (object keys in order): the model, one user message holding the prompt, no
/// streaming, and JSON mode for JSON requests.
pub open spec fn openai_body(model: Seq<char>, request: AiRequest) -> Seq<char> {
    "{\"messages\":[{\"content\":"@ + json_quoted(request.prompt@) + ",\"role\":\"user\"}],\"model\":"@
        + json_quoted(model) + (if request.output_format == OutputFormat::Json {
        ",\"response_format\":{\"type\":\"json_object\"}"@
    } else {
        ""@
    }) + ",\"stream\":false}"@
}

/// The JSON body sent to an Ollama chat endpoint, as serde_json writes it (object keys
/// in order): JSON format for JSON requests, one user message holding the prompt, the
/// model, and no streaming.
pub open spec fn ollama_body(model: Seq<char>, request: AiRequest) -> Seq<char> {
    (if request.output_format == OutputFormat::Json {
        "{\"format\":\"json\","@
    } else {
        "{"@
    }) + "\"messages\":[{\"content\":"@ + json_quoted(request.prompt@) + ",\"role\":\"user\"}],\"model\":"@
        + json_quoted(model) + ",\"stream\":false}"@
}

/// Writes the request body for an OpenAI-compatible chat endpoint.
pub fn openai_request_body(settings: &OpenAiSettings, request: &AiRequest) -> (r: String)
    ensures
        r@ == openai_body(settings.model@, *request),
{
    let mut body = "{\"messages\":[{\"content\":".to_owned();
    let prompt = json_string(request.prompt.as_str());
    body.append(prompt.as_str());
    body.append(",\"role\":\"user\"}],\"model\":");
    let model = json_string(settings.model.as_str());
    body.append(model.as_str());
    let ghost head = body@;
    if request.output_format == OutputFormat::Json {
        body.append(",\"response_format\":{\"type\":\"json_object\"}");
        body.append(",\"stream\":false}");
        assert(body@ =~= head + ",\"response_format\":{\"type\":\"json_object\"}"@ + ",\"stream\":false}"@);
    } else {
        body.append(",\"stream\":false}");
        assert(body@ =~= head + ""@ + ",\"stream\":false}"@) by {
            reveal_strlit("");
        }
    }
    body
}

/// Writes the request body for an Ollama chat endpoint.
pub fn ollama_request_body(settings: &OllamaSettings, request: &AiRequest) -> (r: String)
    ensures
        r@ == ollama_body(settings.model@, *request),
{
    let mut body = if request.output_format == OutputFormat::Json {
        "{\"format\":\"json\",".to_owned()
    } else {
        "{".to_owned()
    };
    body.append("\"messages\":[{\"content\":");
    let prompt = json_string(request.prompt.as_str());
    body.append(prompt.as_str());
    body.append(",\"role\":\"user\"}],\"model\":");
    let model = json_string(settings.model.as_str());
    body.append(model.as_str());
    body.append(",\"stream\":false}");
    body
}

/// How a failed HTTP exchange is described, without any response or request content.
pub open spec fn transport_text(provider: Seq<char>, timed_out: bool, connect_failed: bool) -> Seq<char> {
    provider + " "@ + (if timed_out {
        "request timed out"@
    } else if connect_failed {
        "connection failed"@
    } else {
        "request failed"@
    })
}

/// The error for a request that failed in transport.
pub fn transport_error(provider: &str, timed_out: bool, connect_failed: bool) -> (e: EngineError)
    ensures
        e@ == provider_error(transport_text(provider@, timed_out, connect_failed)),
{
    let reason = if timed_out {
        "request timed out"
    } else if connect_failed {
        "connection failed"
    } else {
        "request failed"
    };
    EngineError::Provider(join3(provider, " ", reason))
}

/// What an unsuccessful HTTP status means.
pub open spec fn status_description(status: u16) -> Seq<char> {
    if status == 401 || status == 403 {
        "authentication or access denied"@
    } else if status == 404 {
        "endpoint or model not found"@
    } else if status == 429 {
        "rate limit or quota exceeded"@
    } else if 500 <= status <= 599 {
        "server error"@
    } else {
        "request rejected"@
    }
}

/// The text of the error for an unsuccessful HTTP status. It holds the provider's name,
/// the meaning and the code, and nothing from the response body.
pub open spec fn status_text(provider: Seq<char>, status: u16) -> Seq<char> {
    provider + " "@ + status_description(status) + " (HTTP "@ + decimal(status as nat) + ")"@
}

/// The error for an unsuccessful HTTP status.
pub fn status_error(provider: &str, status: u16) -> (e: EngineError)
    ensures
        e@ == provider_error(status_text(provider@, status)),
{
    let description = if status == 401 || status == 403 {
        "authentication or access denied"
    } else if status == 404 {
        "endpoint or model not found"
    } else if status == 429 {
        "rate limit or quota exceeded"
    } else if 500 <= status && status <= 599 {
        "server error"
    } else {
        "request rejected"
    };
    let mut text = join3(provider, " ", description);
    text.append(" (HTTP ");
    let digits = string_of(&decimal_exec(status as u64));
    text.append(digits.as_str());
    text.append(")");
    EngineError::Provider(text)
}

/// The answer of a chat endpoint: its message content must be present and not blank.
pub open spec fn chat_answer_outcome(provider_label: Seq<char>, content: Option<Seq<char>>) -> Result<Seq<char>, ErrorView> {
    match content {
        Some(c) => if !is_blank(c) {
            Ok(c)
        } else {
            Err(provider_error(provider_label + " response had no message content"@))
        },
        None => Err(provider_error(provider_label + " response had no message content"@)),
    }
}

/// Reads the answer of a chat endpoint into a response of provider `provider_id`.
pub fn chat_answer(
    provider_id: &str,
    provider_label: &str,
    content: Option<String>,
    model: Option<String>,
) -> (r: Result<AiResponse, EngineError>)
    ensures
        match chat_answer_outcome(provider_label@, opt_view(content)) {
            Ok(c) => r matches Ok(resp) && resp.content@ == c && resp.provider@ == provider_id@
                && opt_view(resp.model) == opt_view(model),
            Err(e) => r matches Err(x) && x@ == e,
        },
{
    match content {
        Some(c) => {
            if !is_blank_str(c.as_str()) {
                return Ok(AiResponse { provider: provider_id.to_owned(), model, content: c });
            }
        },
        None => {},
    }
    Err(EngineError::Provider(join2(provider_label, " response had no message content")))
}

/// The answer read from the bytes of a chat endpoint's reply: they must be JSON, and the
/// string at `content_pointer` must be present and not blank; the reply's `model`, where
/// it is a string, names the model.
pub open spec fn chat_reply_outcome(
    provider_label: Seq<char>,
    body: Seq<u8>,
    content_pointer: Seq<char>,
) -> Result<(Seq<char>, Option<Seq<char>>), ErrorView> {
    match json_chat_reply(body, content_pointer) {
        None => Err(provider_error(provider_label + " response was not valid JSON"@)),
        Some((content, model)) => match chat_answer_outcome(provider_label, content) {
            Ok(c) => Ok((c, model)),
            Err(e) => Err(e),
        },
    }
}

/// The response read from a chat reply, or the error that names what it lacked.
pub open spec fn chat_reply_read(
    r: Result<AiResponse, EngineError>,
    provider_id: Seq<char>,
    provider_label: Seq<char>,
    body: Seq<u8>,
    content_pointer: Seq<char>,
) -> bool {
    match chat_reply_outcome(provider_label, body, content_pointer) {
        Ok((content, model)) => r matches Ok(resp) && resp.content@ == content && resp.provider@
            == provider_id && opt_view(resp.model) == model,
        Err(e) => r matches Err(x) && x@ == e,
    }
}

fn read_chat_reply(provider_id: &str, provider_label: &str, body: &[u8], content_pointer: &str) -> (r: Result<AiResponse, EngineError>)
    ensures
        chat_reply_read(r, provider_id@, provider_label@, body@, content_pointer@),
{
    match parse_chat_reply(body, content_pointer) {
        None => Err(EngineError::Provider(join2(provider_label, " response was not valid JSON"))),
        Some((content, model)) => chat_answer(provider_id, provider_label, content, model),
    }
}

/// Reads the reply of an OpenAI-compatible chat endpoint: the content of the first
/// choice's message.
pub fn openai_answer(body: &[u8]) -> (r: Result<AiResponse, EngineError>)
    ensures
        chat_reply_read(r, "openai"@, "OpenAI-compatible"@, body@, "/choices/0/message/content"@),
{
    read_chat_reply("openai", "OpenAI-compatible", body, "/choices/0/message/content")
}

/// Reads the reply of an Ollama chat endpoint: the content of its message.
pub fn ollama_answer(body: &[u8]) -> (r: Result<AiResponse, EngineError>)
    ensures
        chat_reply_read(r, "ollama"@, "Ollama"@, body@, "/message/content"@),
{
    read_chat_reply("ollama", "Ollama", body, "/message/content")
}

/// Runs a local Codex CLI signed in with ChatGPT. The CLI manages its own session;
/// PTConductor never reads or copies its cached credentials.
#[derive(Debug, Clone, PartialEq)]
pub struct CodexProvider {
    pub model: String,
    pub executable: String,
}

impl CodexProvider {
    /// A Codex provider for a checked model, run as `codex` from the search path.
    pub fn new(model: &str) -> (r: Result<CodexProvider, EngineError>)
        ensures
            model_ok(model@) ==> (r matches Ok(p) && p.model@ == model@ && p.executable@ == "codex"@),
            !model_ok(model@) ==> (r matches Err(e) && e@ == provider_error("a model name is required"@)),
    {
        let model = match validated_model(model) {
            Ok(m) => m,
            Err(e) => {
                return Err(e);
            },
        };
        Ok(CodexProvider { model, executable: "codex".to_owned() })
    }

    /// The arguments of the Codex invocation: no approvals, a read-only sandbox, no
    /// session or user configuration, and the prompt read from standard input (`-`).
    pub fn exec_arguments(&self) -> (r: Vec<String>)
        ensures
            r@.map_values(|a: String| a@) == seq![
                "--ask-for-approval"@,
                "never"@,
                "exec"@,
                "--sandbox"@,
                "read-only"@,
                "--ephemeral"@,
                "--ignore-user-config"@,
                "--skip-git-repo-check"@,
                "--model"@,
                self.model@,
                "-"@,
            ],
    {
        let mut args: Vec<String> = Vec::new();
        args.push("--ask-for-approval".to_owned());
        args.push("never".to_owned());
        args.push("exec".to_owned());
        args.push("--sandbox".to_owned());
        args.push("read-only".to_owned());
        args.push("--ephemeral".to_owned());
        args.push("--ignore-user-config".to_owned());
        args.push("--skip-git-repo-check".to_owned());
        args.push("--model".to_owned());
        args.push(self.model.clone());
        args.push("-".to_owned());
        assert(args@.map_values(|a: String| a@) =~= seq![
            "--ask-for-approval"@,
            "never"@,
            "exec"@,
            "--sandbox"@,
            "read-only"@,
            "--ephemeral"@,
            "--ignore-user-config"@,
            "--skip-git-repo-check"@,
            "--model"@,
            self.model@,
            "-"@,
        ]);
        args
    }
}

/// The instruction that precedes every Codex prompt.
pub open spec fn codex_instruction(format: OutputFormat) -> Seq<char> {
    if format == OutputFormat::Json {
        "Return only one valid JSON object. Do not use tools, execute commands, or access files.\n\n"@
    } else {
        "Do not use tools, execute commands, or access files. Answer using only the supplied prompt.\n\n"@
    }
}

/// The prompt sent to Codex: the instruction, then the request's prompt. Prompts over
/// 256 KiB of UTF-8 are refused.
pub fn codex_prompt(request: &AiRequest) -> (r: Result<String, EngineError>)
    ensures
        ({
            let text = codex_instruction(request.output_format) + request.prompt@;
            &&& vstd::utf8::encode_utf8(text).len() <= CODEX_PROMPT_LIMIT ==> (r matches Ok(p) && p@ == text)
            &&& vstd::utf8::encode_utf8(text).len() > CODEX_PROMPT_LIMIT ==> (r matches Err(e) && e@ == provider_error("Codex prompt exceeds 256 KiB"@))
        }),
{
    let instruction = if request.output_format == OutputFormat::Json {
        "Return only one valid JSON object. Do not use tools, execute commands, or access files.\n\n"
    } else {
        "Do not use tools, execute commands, or access files. Answer using only the supplied prompt.\n\n"
    };
    let prompt = join2(instruction, request.prompt.as_str());
    if prompt.as_str().as_bytes().len() > CODEX_PROMPT_LIMIT {
        return Err(EngineError::Provider("Codex prompt exceeds 256 KiB".to_owned()));
    }
    Ok(prompt)
}

/// The text of a `codex login status` report: its standard output and error, lowercased.
pub open spec fn login_details(stdout: Seq<u8>, stderr: Seq<u8>) -> Seq<char> {
    ascii_lower_seq(utf8_lossy(stdout) + " "@ + utf8_lossy(stderr))
}

/// A login is accepted when the status command succeeded and reports a ChatGPT sign-in
/// with no mention of an API key.
pub open spec fn login_accepted(success: bool, details: Seq<char>) -> bool {
    &&& success
    &&& contains_seq(details, "chatgpt"@)
    &&& !contains_seq(details, "api key"@)
    &&& !contains_seq(details, "api-key"@)
    &&& !contains_seq(details, "apikey"@)
}

pub open spec fn login_rejected_view() -> ErrorView {
    provider_error(
        "Codex must be signed in with ChatGPT, not an API key; run `codex login status` and `codex login`"@,
    )
}

/// Judges a `codex login status` report from its decoded standard output and error.
pub fn judge_login(success: bool, stdout: &str, stderr: &str) -> (r: Result<(), EngineError>)
    ensures
        ({
            let details = ascii_lower_seq(stdout@ + " "@ + stderr@);
            &&& login_accepted(success, details) ==> r is Ok
            &&& !login_accepted(success, details) ==> (r matches Err(e) && e@ == login_rejected_view())
        }),
{
    let joined = join3(stdout, " ", stderr);
    let details = ascii_lower_exec(&chars_of(joined.as_str()));
    let ok = success && contains_exec(&details, &chars_of("chatgpt")) && !contains_exec(
        &details,
        &chars_of("api key"),
    ) && !contains_exec(&details, &chars_of("api-key")) && !contains_exec(
        &details,
        &chars_of("apikey"),
    );
    if !ok {
        return Err(
            EngineError::Provider(
                "Codex must be signed in with ChatGPT, not an API key; run `codex login status` and `codex login`".to_owned(),
            ),
        );
    }
    Ok(())
}

/// Judges the output of `codex login status`, decoding each stream as
/// `String::from_utf8_lossy` does.
pub fn check_login_status(success: bool, stdout: &[u8], stderr: &[u8]) -> (r: Result<(), EngineError>)
    ensures
        login_accepted(success, login_details(stdout@, stderr@)) ==> r is Ok,
        !login_accepted(success, login_details(stdout@, stderr@)) ==> (r matches Err(e) && e@ == login_rejected_view()),
{
    let out = decode_lossy(stdout);
    let err = decode_lossy(stderr);
    judge_login(success, out.as_str(), err.as_str())
}

/// Refuses Codex output over 1 MiB.
pub fn check_codex_output_size(length: usize) -> (r: Result<(), EngineError>)
    ensures
        length <= CODEX_OUTPUT_LIMIT ==> r is Ok,
        length > CODEX_OUTPUT_LIMIT ==> (r matches Err(e) && e@ == provider_error("Codex output exceeds 1 MiB"@)),
{
    if length > CODEX_OUTPUT_LIMIT {
        return Err(EngineError::Provider("Codex output exceeds 1 MiB".to_owned()));
    }
    Ok(())
}

/// The outcome of a finished Codex run: it must have exited successfully with UTF-8
/// output that is not blank.
pub open spec fn codex_result_outcome(success: bool, output: Seq<u8>) -> Result<Seq<char>, ErrorView> {
    if !success {
        Err(provider_error("Codex run failed; check your ChatGPT login and Codex usage limits"@))
    } else if !valid_utf8(output) {
        Err(provider_error("Codex output was not UTF-8"@))
    } else if is_blank(decode_utf8(output)) {
        Err(provider_error("Codex returned no output"@))
    } else {
        Ok(decode_utf8(output))
    }
}

/// Reads the result of a finished Codex run.
pub fn codex_result(success: bool, output: Vec<u8>) -> (r: Result<String, EngineError>)
    ensures
        match codex_result_outcome(success, output@) {
            Ok(c) => r matches Ok(s) && s@ == c,
            Err(e) => r matches Err(x) && x@ == e,
        },
{
    if !success {
        return Err(
            EngineError::Provider(
                "Codex run failed; check your ChatGPT login and Codex usage limits".to_owned(),
            ),
        );
    }
    let content = match decode_strict(output) {
        Some(c) => c,
        None => {
            return Err(EngineError::Provider("Codex output was not UTF-8".to_owned()));
        },
    };
    if is_blank_str(content.as_str()) {
        return Err(EngineError::Provider("Codex returned no output".to_owned()));
    }
    Ok(content)
}

/// The response of a Codex run.
pub fn codex_response(provider: &CodexProvider, content: String) -> (r: AiResponse)
    ensures
        r.provider@ == "codex"@,
        opt_view(r.model) == Some(provider.model@),
        r.content@ == content@,
{
    AiResponse { provider: "codex".to_owned(), model: Some(provider.model.clone()), content }
}

/// Deterministic provider used for local development and engine tests.
#[derive(Debug, Clone, Copy, PartialEq, Eq, Default)]
pub struct MockProvider;

/// The content of the mock's answer: a JSON object naming the workflow and step for JSON
/// requests, else a text that repeats the prompt.
pub open spec fn mock_content(request: AiRequest) -> Seq<char> {
    if request.output_format == OutputFormat::Json {
        "{\"analysis\":\"deterministic mock output\",\"step\":"@ + json_quoted(request.step_id@)
            + ",\"workflow\":"@ + json_quoted(request.workflow_id@) + "}"@
    } else {
        "Mock analysis for workflow `"@ + request.workflow_id@ + "` step `"@ + request.step_id@
            + "`:\n\n"@ + request.prompt@
    }
}

impl MockProvider {
    pub fn id(&self) -> (r: &'static str)
        ensures
            r@ == "mock"@,
    {
        "mock"
    }

    pub fn is_remote(&self) -> (r: bool)
        ensures
            !r,
    {
        false
    }

    /// The mock's deterministic answer.
    pub fn complete(&self, request: &AiRequest) -> (r: AiResponse)
        ensures
            r.provider@ == "mock"@,
            opt_view(r.model) == Some("deterministic-mock"@),
            r.content@ == mock_content(*request),
    {
        let content = if request.output_format == OutputFormat::Json {
            let mut text = "{\"analysis\":\"deterministic mock output\",\"step\":".to_owned();
            let step = json_string(request.step_id.as_str());
            text.append(step.as_str());
            text.append(",\"workflow\":");
            let workflow = json_string(request.workflow_id.as_str());
            text.append(workflow.as_str());
            text.append("}");
            text
        } else {
            let mut text = join3(
                "Mock analysis for workflow `",
                request.workflow_id.as_str(),
                "` step `",
            );
            text.append(request.step_id.as_str());
            text.append("`:\n\n");
            text.append(request.prompt.as_str());
            text
        };
        AiResponse {
            provider: "mock".to_owned(),
            model: Some("deterministic-mock".to_owned()),
            content,
        }
    }
}

} // verus!
