use rovdex::config::{ProviderConfig, ProviderKind, WorkspaceConfig};
use rovdex::context::Context;
use rovdex::json::JsonValue;
use rovdex::message::Message;
use rovdex::provider::{
    build_openai_payload, openai_role, parse_openai_response, Backend, EchoProvider, OpenAiChatCompletionResponse,
    OpenAiChoice, OpenAiCompatibleProvider, OpenAiMessage, ProviderError, ProviderRequest, ProviderResponse,
    ProviderSelection, RouterProvider, ScriptedProvider,
};
use rovdex::message::Role;

fn context() -> Context {
    Context::from_path(String::from("/work/project"), &vec![String::from("/work/project")], &vec![false])
}

fn text(v: Option<&JsonValue>) -> Option<&str> {
    match v {
        Some(x) => x.as_str(),
        None => None,
    }
}

fn item(v: &JsonValue, i: usize) -> &JsonValue {
    match v {
        JsonValue::Array(items) => &items[i],
        _ => panic!("not an array"),
    }
}

#[test]
fn builds_openai_payload_from_request() {
    let request = ProviderRequest {
        context: context(),
        selection: ProviderSelection::new("openai", "gpt-4.1-mini"),
        messages: vec![Message::system("system prompt"), Message::user("hello")],
        tools: Vec::new(),
    };

    let payload = build_openai_payload(&request);
    assert_eq!(text(payload.get("model")), Some("gpt-4.1-mini"));
    let messages = payload.get("messages").expect("messages");
    assert_eq!(text(item(messages, 0).get("role")), Some("system"));
    assert_eq!(text(item(messages, 1).get("content")), Some("hello"));
}

#[test]
fn parses_openai_response_content() {
    let response = parse_openai_response(OpenAiChatCompletionResponse {
        choices: vec![OpenAiChoice { message: OpenAiMessage { content: Some(String::from("remote answer")) } }],
    });
    let response = match response {
        Ok(r) => r,
        Err(e) => panic!("provider response: {}", e.message()),
    };

    assert_eq!(response.content, "remote answer");
}

#[test]
fn empty_openai_response_is_an_error() {
    let r = parse_openai_response(OpenAiChatCompletionResponse { choices: Vec::new() });
    match r {
        Err(e) => assert_eq!(e.message(), "openai-compatible response did not include assistant content"),
        Ok(_) => panic!("expected an error"),
    }
    let r = parse_openai_response(OpenAiChatCompletionResponse {
        choices: vec![OpenAiChoice { message: OpenAiMessage { content: None } }],
    });
    assert!(matches!(r, Err(ProviderError::NoContent)));
}

#[test]
fn roles_have_wire_names() {
    assert_eq!(openai_role(&Role::System), "system");
    assert_eq!(openai_role(&Role::User), "user");
    assert_eq!(openai_role(&Role::Assistant), "assistant");
    assert_eq!(openai_role(&Role::Tool), "tool");
}

#[test]
fn echo_provider_echoes_the_last_user_message() {
    let mut request = ProviderRequest {
        context: context(),
        selection: ProviderSelection::new("local", "echo"),
        messages: vec![Message::system("s"), Message::user("first"), Message::assistant("a"), Message::user("second"), Message::tool("t", "x")],
        tools: Vec::new(),
    };
    assert_eq!(EchoProvider.complete(&request).content, "Echo: second");
    request.selection = ProviderSelection::new("local", "planner");
    assert_eq!(EchoProvider.complete(&request).content, "Planner: second");
    request.messages = vec![Message::system("s")];
    let r = EchoProvider.complete(&request);
    assert_eq!(r.content, "Planner: ");
    assert!(r.tool_calls.is_empty());
    assert_eq!(EchoProvider.name(), "local");
}

#[test]
fn scripted_provider_answers_in_order_then_runs_out() {
    let mut p = ScriptedProvider::new(vec![ProviderResponse::final_message("one"), ProviderResponse::final_message("two")]);
    assert_eq!(p.complete().ok().map(|r| r.content), Some(String::from("one")));
    assert_eq!(p.complete().ok().map(|r| r.content), Some(String::from("two")));
    match p.complete() {
        Err(e) => assert_eq!(e.message(), "scripted provider exhausted"),
        Ok(_) => panic!("expected exhaustion"),
    }
}

#[test]
fn openai_provider_endpoint_and_key() {
    let config = WorkspaceConfig::default();
    let mut settings = config.provider("openai").expect("openai").clone();
    settings.api_base = Some(String::from("https://example.test/v1//"));
    let p = OpenAiCompatibleProvider::from_config(settings);
    assert_eq!(p.chat_url().ok(), Some(String::from("https://example.test/v1/chat/completions")));
    assert_eq!(p.api_key_env().ok(), Some("OPENAI_API_KEY"));
    assert_eq!(p.api_key(Some(String::from("sk"))).ok(), Some(String::from("sk")));
    match p.api_key(None) {
        Err(e) => assert_eq!(e.message(), "environment variable OPENAI_API_KEY is required for provider openai"),
        Ok(_) => panic!("expected an error"),
    }
    let bare = OpenAiCompatibleProvider::from_config(ProviderConfig::new("bare", "Bare"));
    match bare.chat_url() {
        Err(e) => assert_eq!(e.message(), "provider bare is missing api_base"),
        Ok(_) => panic!("expected an error"),
    }
    assert!(matches!(bare.api_key(Some(String::from("k"))), Err(ProviderError::MissingApiKeyEnv(_))));
}

#[test]
fn router_routes_by_provider_id() {
    let config = WorkspaceConfig::default();
    let router = RouterProvider::from_config(&config);
    assert!(matches!(router.backend_for("local"), Ok(Backend::Echo(_))));
    match router.backend_for("openai") {
        Ok(Backend::OpenAiCompatible(p)) => assert!(p.config.kind == ProviderKind::RemoteOpenAiCompatible),
        _ => panic!("expected the remote backend"),
    }
    match router.backend_for("missing") {
        Err(e) => assert_eq!(e.message(), "unknown provider backend: missing"),
        Ok(_) => panic!("expected an error"),
    }
    let default = RouterProvider::default();
    assert!(matches!(default.backend_for("local"), Ok(Backend::Echo(_))));
    assert!(default.backend_for("openai").is_err());
    assert_eq!(router.name(), "router");
}
