use rag_agent::config::{
    EmptyEmbedRequest, EmptyEmbedResponse, NewEmbedRequest, NewEmbedResponse, NewVectorDbConfig,
};
use rag_agent::error::RagError;
use rag_agent::provider::{get_chat_api_url, LLMProvider};
use rag_agent::strutil::{eq_ignore_ascii_case, join_with_space, trim, u64_to_dec_string};

#[test]
fn embed_request_serializes_to_the_exact_wire_body() {
    let request = NewEmbedRequest("nomic-embed-text", vec!["hello", "wo\"rld"]);
    let body = request.to_json().unwrap();
    assert_eq!(
        body,
        "{\"model\":\"nomic-embed-text\",\"input\":[\"hello\",\"wo\\\"rld\"]}"
    );
}

#[test]
fn empty_embed_request_serializes_to_an_empty_batch() {
    let request = EmptyEmbedRequest();
    assert_eq!(request.get_model(), "");
    assert_eq!(request.get_input().len(), 0);
    assert_eq!(request.to_json().unwrap(), "{\"model\":\"\",\"input\":[]}");
}

#[test]
fn embed_request_accumulates_inputs_in_order() {
    let mut request = EmptyEmbedRequest();
    request.set_model("m".to_string());
    request.add_input("first");
    request.add_input("second");
    assert_eq!(request.get_model(), "m");
    assert_eq!(
        request.get_input(),
        vec!["first".to_string(), "second".to_string()]
    );
}

#[test]
fn embed_response_holds_its_vectors() {
    let mut response = EmptyEmbedResponse();
    assert_eq!(response.get_model(), "");
    assert_eq!(response.get_embeddings().len(), 0);
    response.set_model("m".to_string());
    response.add_embedding(vec![1, 2, 3]);
    assert_eq!(response.get_embeddings(), vec![vec![1, 2, 3]]);

    let other = NewEmbedResponse("m".to_string(), vec![vec![4, 5]]);
    assert_eq!(other.get_embeddings(), vec![vec![4, 5]]);
}

#[test]
fn db_config_renders_the_connection_string() {
    let config = NewVectorDbConfig("10.0.0.213", 5555, "rupesh", "vectordb");
    assert_eq!(
        config.to_string(),
        "host=10.0.0.213 port=5555 user=rupesh dbname=vectordb"
    );
    let copy = config.clone();
    assert_eq!(copy.to_string(), config.to_string());
    assert_eq!(copy.timeout, 5);
}

#[test]
fn provider_names_resolve_without_regard_to_case() {
    assert!(matches!(
        LLMProvider::get_provider("OLLAMA"),
        Ok(LLMProvider::Ollama)
    ));
    assert!(matches!(
        LLMProvider::get_provider("OpenAI"),
        Ok(LLMProvider::OpenAI)
    ));
    match LLMProvider::get_provider("someone-else") {
        Err(RagError::ConfigError(name)) => assert_eq!(name, "someone-else"),
        other => panic!("expected a configuration error, got {:?}", other),
    }
}

#[test]
fn api_urls_follow_the_provider() {
    assert_eq!(
        LLMProvider::get_api_url("openai").unwrap(),
        "https://api.openai.com"
    );
    assert_eq!(
        LLMProvider::get_api_url("ollama").unwrap(),
        "http://10.0.0.213:11434"
    );
    assert_eq!(get_chat_api_url("ollama").unwrap(), "http://10.0.0.213:11434");
    assert!(get_chat_api_url("nobody").is_err());
}

#[test]
fn error_details_name_the_culprit() {
    assert_eq!(RagError::IOError("root".to_string()).detail(), "root");
    assert_eq!(
        RagError::ProviderError(500, "http://u".to_string()).detail(),
        "http://u"
    );
    assert_eq!(RagError::DecodeError("body".to_string()).detail(), "body");
    assert_eq!(RagError::SchemaError("table".to_string()).detail(), "table");
    assert_eq!(RagError::StorageError("db".to_string()).detail(), "db");
    assert_eq!(RagError::ConfigError("flag".to_string()).detail(), "flag");
}

#[test]
fn text_helpers_behave() {
    assert_eq!(trim("  padded\t\n"), "padded");
    assert_eq!(trim("   "), "");
    assert_eq!(trim("bare"), "bare");
    assert!(eq_ignore_ascii_case("ExIt", "exit"));
    assert!(!eq_ignore_ascii_case("exits", "exit"));
    assert_eq!(u64_to_dec_string(0), "0");
    assert_eq!(u64_to_dec_string(128000), "128000");
    assert_eq!(
        join_with_space(&vec!["a".to_string(), "b".to_string(), "c".to_string()]),
        "a b c"
    );
    assert_eq!(join_with_space(&vec![]), "");
}
