use rag_agent::chat::{
    ChatMessage, ChatRequest, ChatResponse, ChatRole, ChatSession, ChatState, OptionsBuilder,
    Prompt, validate_chat_status, require_parsed,
};
use rag_agent::error::RagError;
use rag_agent::provider::LLMProvider;

fn simple_prompt(system: &str, user: &str) -> Prompt {
    Prompt::new(system.to_string(), vec![], user.to_string())
}

#[test]
fn chat_body_is_the_exact_wire_json() {
    let request = ChatRequest::new(
        "ollama",
        "qwen2:7b",
        "http://10.0.0.213:11434".to_string(),
        "api_key".to_string(),
        false,
        "json".to_string(),
        None,
        simple_prompt("be brief", "hello"),
    )
    .unwrap();
    let body = request.create_chat_body().unwrap();
    assert_eq!(
        body,
        "{\"model\":\"qwen2:7b\",\"messages\":[{\"role\":\"system\",\"content\":\"be brief\"},{\"role\":\"user\",\"content\":\"hello\"}],\"stream\":false,\"format\":\"json\"}"
    );
}

#[test]
fn chat_body_carries_options_and_omits_unset_format() {
    let options = OptionsBuilder::new().num_ctx(128000).build();
    let request = ChatRequest::new(
        "ollama",
        "m",
        "http://x".to_string(),
        "k".to_string(),
        false,
        "".to_string(),
        Some(options),
        simple_prompt("s", "p"),
    )
    .unwrap();
    let body = request.create_chat_body().unwrap();
    assert_eq!(
        body,
        "{\"model\":\"m\",\"messages\":[{\"role\":\"system\",\"content\":\"s\"},{\"role\":\"user\",\"content\":\"p\"}],\"stream\":false,\"options\":{\"num_ctx\":128000}}"
    );
}

#[test]
fn chat_body_escapes_content() {
    let request = ChatRequest::new(
        "ollama",
        "m",
        "http://x".to_string(),
        "k".to_string(),
        false,
        "json".to_string(),
        None,
        simple_prompt("s", "say \"hi\"\n"),
    )
    .unwrap();
    let body = request.create_chat_body().unwrap();
    assert!(body.ends_with(
        "{\"role\":\"user\",\"content\":\"say \\\"hi\\\"\\n\"}],\"stream\":false,\"format\":\"json\"}"
    ));
}

#[test]
fn chat_endpoints_follow_the_provider() {
    let request = ChatRequest::new(
        "ollama",
        "m",
        "http://10.0.0.213:11434".to_string(),
        "k".to_string(),
        false,
        "json".to_string(),
        None,
        simple_prompt("s", "p"),
    )
    .unwrap();
    assert_eq!(
        request.get_chat_api_url().unwrap(),
        "http://10.0.0.213:11434/api/chat"
    );
    assert_eq!(
        request.get_embed_api_url().unwrap(),
        "http://10.0.0.213:11434/api/embed"
    );

    let request = ChatRequest::new(
        "openai",
        "m",
        "http://ignored".to_string(),
        "k".to_string(),
        false,
        "json".to_string(),
        None,
        simple_prompt("s", "p"),
    )
    .unwrap();
    assert_eq!(
        request.get_chat_api_url().unwrap(),
        "https://api.openai.com/v1/chat/completions"
    );
    assert_eq!(
        request.get_embed_api_url().unwrap(),
        "https://api.openai.com/v1/embeddings"
    );
}

#[test]
fn unsupported_provider_is_a_config_error() {
    let r = ChatRequest::new(
        "someone-else",
        "m",
        "http://h".to_string(),
        "k".to_string(),
        false,
        "json".to_string(),
        None,
        simple_prompt("s", "p"),
    );
    match r {
        Err(RagError::ConfigError(name)) => assert_eq!(name, "someone-else"),
        other => panic!("expected a configuration error, got {:?}", other),
    }
}

#[test]
fn single_turn_when_continue_flag_is_off() {
    // a conversation with continue_chat = false performs exactly one
    // turn and never solicits user input
    let mut session = ChatSession::start(
        Some("retrieved context".to_string()),
        "what is temperature".to_string(),
        false,
    );
    assert_eq!(session.state(), ChatState::AwaitingResponse);
    let request = session.build_request(
        "answer from context",
        LLMProvider::Ollama,
        "qwen2:7b",
        "http://10.0.0.213:11434",
        "api_key",
        "json".to_string(),
        None,
    );
    // system + seeded context + current prompt
    assert_eq!(request.messages.len(), 3);
    session.on_model_reply("{\"answer\":\"a measure of heat\"}".to_string());
    assert_eq!(session.state(), ChatState::Terminated);
    assert_ne!(session.state(), ChatState::AwaitingUserInput);
    assert_eq!(session.history().len(), 2);
}

#[test]
fn continuing_chat_solicits_input_and_appends_history() {
    let mut session = ChatSession::start(None, "first question".to_string(), true);
    assert_eq!(session.history().len(), 1);
    session.on_model_reply("first answer".to_string());
    assert_eq!(session.state(), ChatState::AwaitingUserInput);
    assert_eq!(session.history().len(), 2);
    assert_eq!(session.history()[1].get_content(), &"first answer".to_string());
    assert_eq!(session.history()[1].get_role(), ChatRole::Assistant);

    session.on_user_input("  second question  ");
    assert_eq!(session.state(), ChatState::AwaitingResponse);
    assert_eq!(session.current_prompt(), &"second question".to_string());
    // history is append-only: nothing was lost or rewritten
    assert_eq!(session.history().len(), 2);
}

#[test]
fn exit_token_terminates_case_insensitively() {
    let mut session = ChatSession::start(None, "q".to_string(), true);
    session.on_model_reply("a".to_string());
    session.on_user_input("  ExIt  ");
    assert_eq!(session.state(), ChatState::Terminated);
}

#[test]
fn model_failure_terminates_and_keeps_history() {
    let mut session = ChatSession::start(None, "q".to_string(), true);
    session.on_model_failure();
    assert_eq!(session.state(), ChatState::Terminated);
    assert_eq!(session.history().len(), 1);
}

#[test]
fn non_success_status_is_a_provider_error_naming_the_url() {
    let url = "http://10.0.0.213:11434/api/chat".to_string();
    match validate_chat_status(502, &url) {
        Err(RagError::ProviderError(status, at)) => {
            assert_eq!(status, 502);
            assert_eq!(at, url);
        }
        other => panic!("expected a provider error, got {:?}", other),
    }
    assert!(validate_chat_status(200, &url).is_ok());
}

#[test]
fn unparseable_reply_is_a_hard_decode_error() {
    let url = "http://10.0.0.213:11434/api/chat".to_string();
    let r = require_parsed(None, &url);
    assert!(matches!(r, Err(RagError::DecodeError(_))));
    let reply = ChatResponse::from_message(
        None,
        ChatMessage::new(ChatRole::Assistant, "{}".to_string()),
    );
    let ok = require_parsed(Some(reply), &url).unwrap();
    assert_eq!(ok.get_message().unwrap().get_content(), &"{}".to_string());
}
