//! The closed set of supported model providers, their endpoints, and the
//! configuration values every component consumes.

use vstd::prelude::*;

use crate::error::RagError;
use crate::strutil::{eq_ignore_ascii_case, lower_chars};

verus! {

/// The supported chat-and-embedding providers.
#[derive(Debug, Clone, Copy, PartialEq, Eq, Structural)]
pub enum LLMProvider {
    OpenAI,
    Ollama,
}

/// The provider a name denotes, compared without regard to ASCII case;
/// unsupported names denote none.
pub open spec fn spec_provider_of(name: Seq<char>) -> Option<LLMProvider> {
    if lower_chars(name) == "ollama"@ {
        Some(LLMProvider::Ollama)
    } else if lower_chars(name) == "openai"@ {
        Some(LLMProvider::OpenAI)
    } else {
        None
    }
}

/// The fixed base URL of the OpenAI API.
pub open spec fn spec_open_ai_url() -> Seq<char> {
    "https://api.openai.com"@
}

/// The default base URL of the local chat API.
pub open spec fn spec_chat_api_url() -> Seq<char> {
    "http://10.0.0.213:11434"@
}

/// The chat endpoint URL of a provider given its base URL.
pub open spec fn spec_chat_url(p: LLMProvider, api_url: Seq<char>) -> Seq<char> {
    match p {
        LLMProvider::OpenAI => spec_open_ai_url() + "/"@ + "v1/chat/completions"@,
        LLMProvider::Ollama => api_url + "/"@ + "api/chat"@,
    }
}

/// The embedding endpoint URL of a provider given its base URL.
pub open spec fn spec_embed_url(p: LLMProvider, api_url: Seq<char>) -> Seq<char> {
    match p {
        LLMProvider::OpenAI => spec_open_ai_url() + "/"@ + "v1/embeddings"@,
        LLMProvider::Ollama => api_url + "/"@ + "api/embed"@,
    }
}

impl LLMProvider {
    /// Resolves a provider name, without regard to ASCII case; an
    /// unsupported name is a configuration error carrying that name.
    pub fn get_provider(provider: &str) -> (r: Result<LLMProvider, RagError>)
        ensures
            match r {
                Ok(p) => spec_provider_of(provider@) == Some(p),
                Err(e) => spec_provider_of(provider@) is None && e is ConfigError
                    && e.spec_detail() == provider@,
            },
    {
        proof {
            lemma_lowercase_keywords();
        }
        if eq_ignore_ascii_case(provider, "ollama") {
            Ok(LLMProvider::Ollama)
        } else if eq_ignore_ascii_case(provider, "openai") {
            Ok(LLMProvider::OpenAI)
        } else {
            Err(RagError::ConfigError(provider.to_owned()))
        }
    }

    /// The base API URL for a provider name: the fixed OpenAI URL, or the
    /// configured default chat URL for Ollama.
    pub fn get_api_url(provider: &str) -> (r: Result<String, RagError>)
        ensures
            match r {
                Ok(u) => match spec_provider_of(provider@) {
                    Some(LLMProvider::OpenAI) => u@ == spec_open_ai_url(),
                    Some(LLMProvider::Ollama) => u@ == spec_chat_api_url(),
                    None => false,
                },
                Err(e) => spec_provider_of(provider@) is None && e is ConfigError,
            },
    {
        let p = LLMProvider::get_provider(provider)?;
        match p {
            LLMProvider::OpenAI => Ok(open_ai_url().to_owned()),
            LLMProvider::Ollama => Ok(chat_api_url().to_owned()),
        }
    }
}

/// The lowercase images of the provider keywords are themselves.
proof fn lemma_lowercase_keywords()
    ensures
        lower_chars("ollama"@) == "ollama"@,
        lower_chars("openai"@) == "openai"@,
{
    reveal_strlit("ollama");
    reveal_strlit("openai");
    assert(lower_chars("ollama"@) =~= "ollama"@);
    assert(lower_chars("openai"@) =~= "openai"@);
}

/// The fixed base URL of the OpenAI API.
pub fn open_ai_url() -> (r: &'static str)
    ensures
        r@ == spec_open_ai_url(),
{
    "https://api.openai.com"
}

/// The default base URL of the local chat API.
pub fn chat_api_url() -> (r: &'static str)
    ensures
        r@ == spec_chat_api_url(),
{
    "http://10.0.0.213:11434"
}

/// The chat endpoint URL for a resolved provider: the provider's fixed
/// base for OpenAI, the given base for Ollama, with the provider's chat
/// path appended.
pub fn chat_endpoint(p: LLMProvider, api_url: &str) -> (r: String)
    ensures
        r@ == spec_chat_url(p, api_url@),
{
    match p {
        LLMProvider::OpenAI => open_ai_url().to_owned().concat("/").concat("v1/chat/completions"),
        LLMProvider::Ollama => api_url.to_owned().concat("/").concat("api/chat"),
    }
}

/// The embedding endpoint URL for a resolved provider.
pub fn embed_endpoint(p: LLMProvider, api_url: &str) -> (r: String)
    ensures
        r@ == spec_embed_url(p, api_url@),
{
    match p {
        LLMProvider::OpenAI => open_ai_url().to_owned().concat("/").concat("v1/embeddings"),
        LLMProvider::Ollama => api_url.to_owned().concat("/").concat("api/embed"),
    }
}

/// The chat endpoint for a provider name, resolved then joined; an
/// unsupported name is a configuration error.
pub fn get_chat_api_url(provider: &str) -> (r: Result<String, RagError>)
    ensures
        match r {
            Ok(u) => match spec_provider_of(provider@) {
                Some(LLMProvider::OpenAI) => u@ == spec_open_ai_url(),
                Some(LLMProvider::Ollama) => u@ == spec_chat_api_url(),
                None => false,
            },
            Err(e) => spec_provider_of(provider@) is None && e is ConfigError,
        },
{
    let p = LLMProvider::get_provider(provider)?;
    match p {
        LLMProvider::OpenAI => Ok(open_ai_url().to_owned()),
        LLMProvider::Ollama => Ok(chat_api_url().to_owned()),
    }
}

/// The provider coordinates every agent carries: a provider name, a base
/// API URL, and an API key.
#[derive(Debug, Clone)]
pub struct ModelAPIProvider {
    pub provider: String,
    pub api_url: String,
    pub api_key: String,
}

impl ModelAPIProvider {
    /// Resolution of the coordinates' provider name is done by
    /// `LLMProvider::get_provider`; this method does nothing and exists
    /// for callers that invoke it on the coordinates.
    pub fn get_provider() {
    }
}

/// A provider paired with the embedding model it serves.
pub struct EmbeddingProvider {
    pub llm_provider: ModelAPIProvider,
    pub model: String,
}

impl EmbeddingProvider {
    /// An embedding provider from its coordinates and model name.
    pub fn new(llm_provider: ModelAPIProvider, model: String) -> (r: EmbeddingProvider)
        ensures
            r.llm_provider.provider@ == llm_provider.provider@,
            r.llm_provider.api_url@ == llm_provider.api_url@,
            r.llm_provider.api_key@ == llm_provider.api_key@,
            r.model@ == model@,
    {
        EmbeddingProvider { llm_provider, model }
    }
}

/// The application's version string.
pub fn version() -> (r: &'static str)
    ensures
        r@ == "1.0.0"@,
{
    "1.0.0"
}

} // verus!
