//! Chat messages, request assembly, the JSON wire body, and the
//! multi-turn conversation state machine.
//!
//! A request's message list is rebuilt fresh every turn from the current
//! history snapshot — never mutated in place — and history itself is
//! append-only. The network call and the reading of the system-prompt
//! file stay outside the library; the library assembles and checks every
//! byte that is sent.

use vstd::prelude::*;

use crate::error::RagError;
use crate::jsonout::{json_quote, json_string_of};
use crate::provider::{chat_endpoint, embed_endpoint, spec_chat_url, spec_embed_url, LLMProvider};
use crate::provider::spec_provider_of;
use crate::strutil::{dec_chars, eq_ignore_ascii_case, lower_chars, spec_trim, trim,
    u64_to_dec_string};

verus! {

/// The role of one chat message.
#[derive(Debug, Clone, Copy, PartialEq, Eq, Structural)]
pub enum ChatRole {
    User,
    Assistant,
    System,
    Tool,
}

/// The wire name of a role.
pub open spec fn spec_role_text(r: ChatRole) -> Seq<char> {
    match r {
        ChatRole::User => "user"@,
        ChatRole::Assistant => "assistant"@,
        ChatRole::System => "system"@,
        ChatRole::Tool => "tool"@,
    }
}

/// The wire name of a role, as sent in a request body.
pub fn role_text(r: ChatRole) -> (t: &'static str)
    ensures
        t@ == spec_role_text(r),
{
    match r {
        ChatRole::User => "user",
        ChatRole::Assistant => "assistant",
        ChatRole::System => "system",
        ChatRole::Tool => "tool",
    }
}

/// One chat message: who speaks and what is said.
#[derive(Debug, Clone)]
pub struct ChatMessage {
    role: ChatRole,
    content: String,
}

/// The mathematical image of a chat message.
pub struct ChatMessageView {
    pub role: ChatRole,
    pub content: Seq<char>,
}

impl View for ChatMessage {
    type V = ChatMessageView;

    closed spec fn view(&self) -> ChatMessageView {
        ChatMessageView { role: self.role, content: self.content@ }
    }
}

impl DeepView for ChatMessage {
    type V = ChatMessageView;

    open spec fn deep_view(&self) -> ChatMessageView {
        self.view()
    }
}

impl ChatMessage {
    /// A message from its role and content.
    pub fn new(role: ChatRole, content: String) -> (r: ChatMessage)
        ensures
            r@.role == role,
            r@.content == content@,
    {
        ChatMessage { role, content }
    }

    /// The message's text.
    pub fn get_content(&self) -> (r: &String)
        ensures
            r@ == self@.content,
    {
        &self.content
    }

    /// The message's role.
    pub fn get_role(&self) -> (r: ChatRole)
        ensures
            r == self@.role,
    {
        self.role
    }

    /// A field-for-field copy.
    pub fn copy(&self) -> (r: ChatMessage)
        ensures
            r@ == self@,
    {
        ChatMessage { role: self.role, content: self.content.clone() }
    }
}

/// The sampling options a request carries; fixed per request, never
/// carried over mutably between turns.
#[derive(Debug, Clone)]
pub struct ModelOptions {
    pub num_ctx: Option<u64>,
}

/// Builds `ModelOptions` value by value.
pub struct OptionsBuilder {
    pub num_ctx: Option<u64>,
}

impl OptionsBuilder {
    /// A builder with nothing set.
    pub fn new() -> (r: OptionsBuilder)
        ensures
            r.num_ctx is None,
    {
        OptionsBuilder { num_ctx: None }
    }

    /// Sets the context-window size.
    pub fn num_ctx(self, n: u64) -> (r: OptionsBuilder)
        ensures
            r.num_ctx == Some(n),
    {
        OptionsBuilder { num_ctx: Some(n) }
    }

    /// The finished options.
    pub fn build(self) -> (r: ModelOptions)
        ensures
            r.num_ctx == self.num_ctx,
    {
        ModelOptions { num_ctx: self.num_ctx }
    }
}

/// A prompt: the system message text, prior context messages, and the
/// current user prompt. The system-prompt file is read outside the
/// library; this type carries its text.
pub struct Prompt {
    pub system_message: String,
    pub content: Vec<Option<ChatMessage>>,
    pub prompt: String,
}

impl Prompt {
    /// A prompt from the system text, context messages, and user prompt.
    pub fn new(system_message: String, content: Vec<Option<ChatMessage>>, prompt: String) -> (r:
        Prompt)
        ensures
            r.system_message@ == system_message@,
            r.content.deep_view() == content.deep_view(),
            r.prompt@ == prompt@,
    {
        Prompt { system_message, content, prompt }
    }
}

/// The user messages contributed by the present context entries, in
/// order; absent entries contribute nothing.
pub open spec fn spec_context_messages(contexts: Seq<Option<ChatMessageView>>) -> Seq<
    ChatMessageView,
>
    decreases contexts.len(),
{
    if contexts.len() == 0 {
        Seq::empty()
    } else {
        let head = match contexts[0] {
            Some(m) => seq![ChatMessageView { role: ChatRole::User, content: m.content }],
            None => Seq::<ChatMessageView>::empty(),
        };
        head + spec_context_messages(contexts.skip(1))
    }
}

/// The message list of a fresh request: the system message, then the
/// context entries as user messages, then the current prompt.
pub open spec fn spec_prompt_messages(
    system: Seq<char>,
    contexts: Seq<Option<ChatMessageView>>,
    prompt: Seq<char>,
) -> Seq<ChatMessageView> {
    seq![ChatMessageView { role: ChatRole::System, content: system }] + spec_context_messages(
        contexts,
    ) + seq![ChatMessageView { role: ChatRole::User, content: prompt }]
}

/// One chat request: the provider coordinates and the full message list
/// for this turn.
#[derive(Debug, Clone)]
pub struct ChatRequest {
    pub provider: LLMProvider,
    pub model: String,
    pub api_url: String,
    pub api_key: String,
    pub messages: Vec<ChatMessage>,
    pub stream: bool,
    pub format: String,
    pub options: Option<ModelOptions>,
}

proof fn lemma_context_snoc(contexts: Seq<Option<ChatMessageView>>, x: Option<ChatMessageView>)
    ensures
        spec_context_messages(contexts.push(x)) == spec_context_messages(contexts) + (match x {
            Some(m) => seq![ChatMessageView { role: ChatRole::User, content: m.content }],
            None => Seq::<ChatMessageView>::empty(),
        }),
    decreases contexts.len(),
{
    let tail = (match x {
        Some(m) => seq![ChatMessageView { role: ChatRole::User, content: m.content }],
        None => Seq::<ChatMessageView>::empty(),
    });
    if contexts.len() == 0 {
        assert(contexts.push(x)[0] == x);
        assert(contexts.push(x).skip(1) =~= Seq::<Option<ChatMessageView>>::empty());
        assert(spec_context_messages(contexts.push(x)) == tail + spec_context_messages(
            contexts.push(x).skip(1),
        ));
        assert(spec_context_messages(contexts.push(x)) =~= spec_context_messages(contexts) + tail);
    } else {
        assert(contexts.push(x)[0] == contexts[0]);
        assert(contexts.push(x).skip(1) =~= contexts.skip(1).push(x));
        lemma_context_snoc(contexts.skip(1), x);
        let head = match contexts[0] {
            Some(m) => seq![ChatMessageView { role: ChatRole::User, content: m.content }],
            None => Seq::<ChatMessageView>::empty(),
        };
        assert(head + (spec_context_messages(contexts.skip(1)) + tail) =~= (head
            + spec_context_messages(contexts.skip(1))) + tail);
    }
}

impl ChatRequest {
    /// A request for one turn from an already resolved provider, its
    /// message list assembled fresh: the system message first, every
    /// present context entry as a user message, and the current prompt
    /// last. The provider union is constructed once and passed by value.
    pub fn assemble(
        provider: LLMProvider,
        model: &str,
        api_url: String,
        api_key: String,
        stream: bool,
        format: String,
        options: Option<ModelOptions>,
        prompt: Prompt,
    ) -> (r: ChatRequest)
        ensures
            r.provider == provider,
            r.model@ == model@,
            r.api_url@ == api_url@,
            r.api_key@ == api_key@,
            r.stream == stream,
            r.format@ == format@,
            r.options == options,
            r.messages.deep_view() == spec_prompt_messages(
                prompt.system_message@,
                prompt.content.deep_view(),
                prompt.prompt@,
            ),
    {
        let mut messages: Vec<ChatMessage> = Vec::new();
        messages.push(ChatMessage::new(ChatRole::System, prompt.system_message.clone()));
        let ghost contexts = prompt.content.deep_view();
        let ghost sys_msg = ChatMessageView {
            role: ChatRole::System,
            content: prompt.system_message@,
        };
        let mut i: usize = 0;
        proof {
            assert(contexts.take(0) =~= Seq::<Option<ChatMessageView>>::empty());
            assert(messages.deep_view() =~= seq![sys_msg] + spec_context_messages(
                contexts.take(0),
            ));
        }
        while i < prompt.content.len()
            invariant
                i <= prompt.content@.len(),
                contexts == prompt.content.deep_view(),
                contexts.len() == prompt.content@.len(),
                sys_msg == (ChatMessageView {
                    role: ChatRole::System,
                    content: prompt.system_message@,
                }),
                messages.deep_view() == seq![sys_msg] + spec_context_messages(
                    contexts.take(i as int),
                ),
            decreases prompt.content@.len() - i,
        {
            let ghost before = messages.deep_view();
            match &prompt.content[i] {
                Some(m) => {
                    messages.push(ChatMessage::new(ChatRole::User, m.get_content().clone()));
                    proof {
                        assert(contexts[i as int] matches Some(mv) && mv.content == m@.content);
                        assert(messages.deep_view() =~= before.push(
                            ChatMessageView { role: ChatRole::User, content: m@.content },
                        ));
                    }
                },
                None => {
                    proof {
                        assert(contexts[i as int] is None);
                    }
                },
            }
            proof {
                assert(contexts.take(i + 1).drop_last() =~= contexts.take(i as int));
                assert(contexts.take(i + 1) =~= contexts.take(i as int).push(contexts[i as int]));
                lemma_context_snoc(contexts.take(i as int), contexts[i as int]);
                assert(messages.deep_view() =~= seq![sys_msg] + spec_context_messages(
                    contexts.take(i + 1),
                ));
            }
            i += 1;
        }
        proof {
            assert(contexts.take(prompt.content@.len() as int) =~= contexts);
        }
        let ghost before_user = messages.deep_view();
        messages.push(ChatMessage::new(ChatRole::User, prompt.prompt.clone()));
        proof {
            assert(messages.deep_view() =~= before_user.push(
                ChatMessageView { role: ChatRole::User, content: prompt.prompt@ },
            ));
            assert(messages.deep_view() =~= spec_prompt_messages(
                prompt.system_message@,
                contexts,
                prompt.prompt@,
            ));
        }
        ChatRequest {
            provider,
            model: model.to_owned(),
            api_url,
            api_key,
            messages,
            stream,
            format,
            options,
        }
    }

    /// A request for one turn from a provider name. An unsupported name
    /// is a configuration error carrying that name, raised before any
    /// network call.
    pub fn new(
        provider: &str,
        model: &str,
        api_url: String,
        api_key: String,
        stream: bool,
        format: String,
        options: Option<ModelOptions>,
        prompt: Prompt,
    ) -> (r: Result<ChatRequest, RagError>)
        ensures
            match r {
                Ok(req) => {
                    &&& spec_provider_of(provider@) == Some(req.provider)
                    &&& req.model@ == model@
                    &&& req.api_url@ == api_url@
                    &&& req.api_key@ == api_key@
                    &&& req.stream == stream
                    &&& req.format@ == format@
                    &&& req.options == options
                    &&& req.messages.deep_view() == spec_prompt_messages(
                        prompt.system_message@,
                        prompt.content.deep_view(),
                        prompt.prompt@,
                    )
                },
                Err(e) => spec_provider_of(provider@) is None && e is ConfigError
                    && e.spec_detail() == provider@,
            },
    {
        let resolved = LLMProvider::get_provider(provider)?;
        Ok(
            ChatRequest::assemble(
                resolved,
                model,
                api_url,
                api_key,
                stream,
                format,
                options,
                prompt,
            ),
        )
    }

    /// The chat endpoint this request posts to.
    pub fn get_chat_api_url(&self) -> (r: Result<String, RagError>)
        ensures
            r matches Ok(u) && u@ == spec_chat_url(self.provider, self.api_url@),
    {
        Ok(chat_endpoint(self.provider, self.api_url.as_str()))
    }

    /// The embedding endpoint of the same provider coordinates.
    pub fn get_embed_api_url(&self) -> (r: Result<String, RagError>)
        ensures
            r matches Ok(u) && u@ == spec_embed_url(self.provider, self.api_url@),
    {
        Ok(embed_endpoint(self.provider, self.api_url.as_str()))
    }
}

/// The JSON of one message on the wire:
/// `{"role":"R","content":C}`.
pub open spec fn spec_message_json(m: ChatMessageView) -> Seq<char> {
    "{\"role\":\""@ + spec_role_text(m.role) + "\",\"content\":"@ + json_string_of(m.content)
        + "}"@
}

/// The JSON array of a message list.
pub open spec fn spec_messages_json(msgs: Seq<ChatMessageView>) -> Seq<char>
    decreases msgs.len(),
{
    if msgs.len() == 0 {
        Seq::empty()
    } else if msgs.len() == 1 {
        spec_message_json(msgs[0])
    } else {
        spec_messages_json(msgs.drop_last()) + ","@ + spec_message_json(msgs.last())
    }
}

/// The wire text of a boolean.
pub open spec fn spec_bool_text(b: bool) -> Seq<char> {
    if b {
        "true"@
    } else {
        "false"@
    }
}

/// The format member of the body: the configured response format, as a
/// JSON string, present exactly when one is configured.
pub open spec fn spec_format_json(format: Seq<char>) -> Seq<char> {
    if format.len() == 0 {
        Seq::empty()
    } else {
        ",\"format\":"@ + json_string_of(format)
    }
}

/// The options member of the body, when options are attached.
pub open spec fn spec_options_json(options: Option<ModelOptions>) -> Seq<char> {
    match options {
        Some(o) => match o.num_ctx {
            Some(n) => ",\"options\":{\"num_ctx\":"@ + dec_chars(n as int) + "}"@,
            None => ",\"options\":{}"@,
        },
        None => Seq::empty(),
    }
}

/// The whole chat body on the wire:
/// `{"model":M,"messages":[...],"stream":S}` with the format and options
/// members spliced in before the closing brace.
pub open spec fn spec_chat_body_json(
    model: Seq<char>,
    msgs: Seq<ChatMessageView>,
    stream: bool,
    format: Seq<char>,
    options: Option<ModelOptions>,
) -> Seq<char> {
    "{\"model\":"@ + json_string_of(model) + ",\"messages\":["@ + spec_messages_json(msgs) + "],\"stream\":"@
        + spec_bool_text(stream) + spec_format_json(format) + spec_options_json(options) + "}"@
}

impl ChatRequest {
    /// The request's JSON wire body, assembled and checked member by
    /// member. The result shape mirrors the callers' expectations;
    /// success is owed on every input.
    pub fn create_chat_body(&self) -> (r: Result<String, RagError>)
        ensures
            r matches Ok(s) && s@ == spec_chat_body_json(
                self.model@,
                self.messages.deep_view(),
                self.stream,
                self.format@,
                self.options,
            ),
    {
        let quoted_model = json_quote(self.model.as_str());
        let mut body = String::new();
        body.append("{\"model\":");
        body.append(quoted_model.as_str());
        body.append(",\"messages\":[");
        let ghost msgs = self.messages.deep_view();
        let mut i: usize = 0;
        while i < self.messages.len()
            invariant
                i <= self.messages@.len(),
                msgs == self.messages.deep_view(),
                body@ == "{\"model\":"@ + json_string_of(self.model@) + ",\"messages\":["@
                    + spec_messages_json(msgs.take(i as int)),
            decreases self.messages@.len() - i,
        {
            if i > 0 {
                body.append(",");
            }
            let m = &self.messages[i];
            let quoted_content = json_quote(m.get_content().as_str());
            body.append("{\"role\":\"");
            body.append(role_text(m.get_role()));
            body.append("\",\"content\":");
            body.append(quoted_content.as_str());
            body.append("}");
            proof {
                let taken = msgs.take(i + 1);
                assert(taken.drop_last() =~= msgs.take(i as int));
                assert(taken.last() == msgs[i as int]);
                if i == 0 {
                    assert(spec_messages_json(taken) == spec_message_json(msgs[0]));
                }
                assert(body@ =~= "{\"model\":"@ + json_string_of(self.model@) + ",\"messages\":["@
                    + spec_messages_json(taken));
            }
            i += 1;
        }
        proof {
            assert(msgs.take(self.messages@.len() as int) =~= msgs);
        }
        body.append("],\"stream\":");
        if self.stream {
            body.append("true");
        } else {
            body.append("false");
        }
        if !self.format.as_str().is_empty() {
            body.append(",\"format\":");
            let quoted_format = json_quote(self.format.as_str());
            body.append(quoted_format.as_str());
        }
        match &self.options {
            Some(o) => {
                match o.num_ctx {
                    Some(n) => {
                        body.append(",\"options\":{\"num_ctx\":");
                        let num = u64_to_dec_string(n);
                        body.append(num.as_str());
                        body.append("}");
                    },
                    None => {
                        body.append(",\"options\":{}");
                    },
                }
            },
            None => {},
        }
        body.append("}");
        proof {
            assert(body@ =~= spec_chat_body_json(
                self.model@,
                msgs,
                self.stream,
                self.format@,
                self.options,
            ));
        }
        Ok(body)
    }
}

/// A chat response: the serving model and the model's reply, with the
/// provider's timing and accounting members carried as received.
#[derive(Debug, Clone)]
pub struct ChatResponse {
    pub model: Option<String>,
    pub created_at: Option<String>,
    pub message: ChatMessage,
    pub done_reason: Option<String>,
    pub done: Option<bool>,
    pub context: Option<Vec<i32>>,
    pub total_duration: Option<i64>,
    pub load_duration: Option<i64>,
    pub prompt_eval_count: Option<i32>,
    pub prompt_eval_duration: Option<i64>,
    pub eval_count: Option<i32>,
    pub eval_duration: Option<i64>,
}

impl ChatResponse {
    /// A response holding just a model name and a reply.
    pub fn from_message(model: Option<String>, message: ChatMessage) -> (r: ChatResponse)
        ensures
            r.message@ == message@,
    {
        ChatResponse {
            model,
            created_at: None,
            message,
            done_reason: None,
            done: None,
            context: None,
            total_duration: None,
            load_duration: None,
            prompt_eval_count: None,
            prompt_eval_duration: None,
            eval_count: None,
            eval_duration: None,
        }
    }

    /// The model's reply; this response shape always carries one.
    pub fn get_message(&self) -> (r: Option<&ChatMessage>)
        ensures
            r matches Some(m) && m@ == self.message@,
    {
        Some(&self.message)
    }
}

/// A response in the alternative provider shape: the reply sits in the
/// first choice, where any choice exists.
#[derive(Debug, Clone)]
pub struct OpenAiResponse {
    pub id: Option<String>,
    pub object: Option<String>,
    pub created: Option<i64>,
    pub model: Option<String>,
    pub choices: Vec<Choice>,
    pub usage: Option<Usage>,
    pub service_tier: Option<String>,
    pub system_fingerprint: Option<String>,
}

/// One choice of the alternative response shape.
#[derive(Debug, Clone)]
pub struct Choice {
    pub text: Option<String>,
    pub index: Option<i32>,
    pub message: ChatMessage,
    pub logprobs: Option<String>,
    pub finish_reason: Option<String>,
}

/// The usage accounting member; carried, never read.
#[derive(Debug, Clone)]
pub struct Usage {}

impl OpenAiResponse {
    /// The reply in the first choice, or nothing when no choice came.
    pub fn get_message(&self) -> (r: Option<&ChatMessage>)
        ensures
            match r {
                Some(m) => self.choices@.len() > 0 && m@ == self.choices@[0].message@,
                None => self.choices@.len() == 0,
            },
    {
        if self.choices.len() == 0 {
            return None;
        }
        Some(&self.choices[0].message)
    }
}

/// The one way a caller reads a reply out of either response shape.
pub trait ChatResponseTrait {
    fn get_message(&self) -> Option<&ChatMessage>;
}

impl ChatResponseTrait for ChatResponse {
    fn get_message(&self) -> Option<&ChatMessage> {
        Some(&self.message)
    }
}

impl ChatResponseTrait for OpenAiResponse {
    fn get_message(&self) -> Option<&ChatMessage> {
        if self.choices.len() == 0 {
            return None;
        }
        Some(&self.choices[0].message)
    }
}

/// A non-success status from the chat provider is a provider error
/// naming the URL that was called; nothing else is.
pub fn validate_chat_status(status: u16, url: &String) -> (r: Result<(), RagError>)
    ensures
        match r {
            Ok(()) => status == 200,
            Err(e) => status != 200 && e is ProviderError && e.provider_status() == status
                && e.spec_detail() == url@,
        },
{
    if status != 200 {
        return Err(RagError::ProviderError(status, url.clone()));
    }
    Ok(())
}

/// A response body that did not parse is a hard decode error naming the
/// URL; a parsed one is handed through unchanged. Falling back to raw
/// text is deliberately not done.
pub fn require_parsed(parsed: Option<ChatResponse>, url: &String) -> (r: Result<
    ChatResponse,
    RagError,
>)
    ensures
        match r {
            Ok(resp) => parsed matches Some(p) && resp.message@ == p.message@,
            Err(e) => parsed is None && e is DecodeError && e.spec_detail() == url@,
        },
{
    match parsed {
        Some(p) => Ok(p),
        None => Err(RagError::DecodeError(url.clone())),
    }
}

/// Where the conversation stands.
#[derive(Debug, Clone, Copy, PartialEq, Eq, Structural)]
pub enum ChatState {
    /// A request is assembled and the model's reply is awaited.
    AwaitingResponse,
    /// The next prompt is awaited from the pluggable input source.
    AwaitingUserInput,
    /// No further calls are made.
    Terminated,
}

/// The state after a successful model reply: another user turn is
/// solicited only when the continue flag is on.
pub open spec fn spec_after_reply(continue_chat: bool) -> ChatState {
    if continue_chat {
        ChatState::AwaitingUserInput
    } else {
        ChatState::Terminated
    }
}

/// With the continue flag off, a conversation performs exactly one chat
/// turn: the state after the first reply is `Terminated`, and the state
/// that solicits user input is never entered.
pub proof fn lemma_single_turn(continue_chat: bool)
    requires
        !continue_chat,
    ensures
        spec_after_reply(continue_chat) == ChatState::Terminated,
        spec_after_reply(continue_chat) != ChatState::AwaitingUserInput,
{
}

/// The reserved token that ends the conversation, compared without
/// regard to ASCII case after trimming.
pub open spec fn spec_is_exit(input: Seq<char>) -> bool {
    lower_chars(spec_trim(input)) == "exit"@
}

/// One conversation: its state, its append-only history seeded with the
/// retrieved context, the prompt for the next turn, and the continue
/// flag.
pub struct ChatSession {
    state: ChatState,
    history: Vec<ChatMessage>,
    current_prompt: String,
    continue_chat: bool,
}

impl ChatSession {
    /// Where the conversation stands.
    pub fn state(&self) -> (r: ChatState)
        ensures
            r == self@.0,
    {
        self.state
    }

    /// The history so far, oldest first.
    pub fn history(&self) -> (r: &Vec<ChatMessage>)
        ensures
            r.deep_view() == self@.1,
    {
        &self.history
    }

    /// The prompt the next request will carry.
    pub fn current_prompt(&self) -> (r: &String)
        ensures
            r@ == self@.2,
    {
        &self.current_prompt
    }

    /// Whether another user turn is solicited after each reply.
    pub fn continues(&self) -> (r: bool)
        ensures
            r == self@.3,
    {
        self.continue_chat
    }

    /// Starts a conversation: the history is seeded with the retrieved
    /// context (or an empty text) as its first entry, and the initial
    /// query becomes the current prompt.
    pub fn start(context: Option<String>, initial_prompt: String, continue_chat: bool) -> (r:
        ChatSession)
        ensures
            r@.0 == ChatState::AwaitingResponse,
            r@.1 == seq![
                ChatMessageView {
                    role: ChatRole::User,
                    content: match context {
                        Some(c) => c@,
                        None => Seq::<char>::empty(),
                    },
                },
            ],
            r@.2 == initial_prompt@,
            r@.3 == continue_chat,
    {
        let seed = match context {
            Some(c) => c,
            None => String::new(),
        };
        let mut history: Vec<ChatMessage> = Vec::new();
        history.push(ChatMessage::new(ChatRole::User, seed));
        proof {
            assert(history.deep_view() =~= Seq::<ChatMessageView>::empty().push(
                history@[0]@,
            ));
        }
        ChatSession {
            state: ChatState::AwaitingResponse,
            history,
            current_prompt: initial_prompt,
            continue_chat,
        }
    }

    /// The request for this turn, assembled fresh from the system text,
    /// the whole history, and the current prompt, for a provider that
    /// the caller has already resolved.
    pub fn build_request(
        &self,
        system_prompt: &str,
        provider: LLMProvider,
        model: &str,
        api_url: &str,
        api_key: &str,
        format: String,
        options: Option<ModelOptions>,
    ) -> (r: ChatRequest)
        requires
            self@.0 == ChatState::AwaitingResponse,
        ensures
            r.messages.deep_view() == spec_prompt_messages(
                system_prompt@,
                Seq::new(self@.1.len(), |i: int| Some(self@.1[i])),
                self@.2,
            ),
            r.provider == provider,
            r.model@ == model@,
            r.api_url@ == api_url@,
            r.api_key@ == api_key@,
            !r.stream,
            r.format@ == format@,
            r.options == options,
    {
        let mut contexts: Vec<Option<ChatMessage>> = Vec::new();
        let mut i: usize = 0;
        let ghost hist = self.history.deep_view();
        while i < self.history.len()
            invariant
                i <= self.history@.len(),
                hist == self.history.deep_view(),
                contexts.deep_view() =~= Seq::new(i as nat, |j: int| Some(hist[j])),
            decreases self.history@.len() - i,
        {
            let ghost before = contexts.deep_view();
            contexts.push(Some(self.history[i].copy()));
            proof {
                assert(contexts.deep_view() =~= before.push(Some(hist[i as int])));
                assert(contexts.deep_view() =~= Seq::new((i + 1) as nat, |j: int| Some(hist[j])));
            }
            i += 1;
        }
        let prompt = Prompt::new(
            system_prompt.to_owned(),
            contexts,
            self.current_prompt.clone(),
        );
        let r = ChatRequest::assemble(
            provider,
            model,
            api_url.to_owned(),
            api_key.to_owned(),
            false,
            format,
            options,
            prompt,
        );
        r
    }

    /// Records a successful model reply: the reply is appended to the
    /// history (append-only) before anything else happens, and the
    /// conversation either solicits another user turn or terminates, as
    /// the continue flag says.
    pub fn on_model_reply(&mut self, content: String)
        requires
            old(self)@.0 == ChatState::AwaitingResponse,
        ensures
            final(self)@.0 == spec_after_reply(old(self)@.3),
            final(self)@.1 == old(self)@.1.push(
                ChatMessageView { role: ChatRole::Assistant, content: content@ },
            ),
            final(self)@.2 == old(self)@.2,
            final(self)@.3 == old(self)@.3,
    {
        let ghost before = self.history.deep_view();
        self.history.push(ChatMessage::new(ChatRole::Assistant, content));
        proof {
            assert(self.history.deep_view() =~= before.push(
                self.history@[self.history@.len() - 1]@,
            ));
        }
        if self.continue_chat {
            self.state = ChatState::AwaitingUserInput;
        } else {
            self.state = ChatState::Terminated;
        }
    }

    /// Records a failed model call: the error is surfaced by the caller
    /// and the conversation terminates; the history keeps only what was
    /// already said.
    pub fn on_model_failure(&mut self)
        ensures
            final(self)@.0 == ChatState::Terminated,
            final(self)@.1 == old(self)@.1,
            final(self)@.2 == old(self)@.2,
            final(self)@.3 == old(self)@.3,
    {
        self.state = ChatState::Terminated;
    }

    /// Takes the next prompt from the input source: the reserved exit
    /// token (compared without regard to case, after trimming) ends the
    /// conversation; any other input becomes the next turn's prompt.
    pub fn on_user_input(&mut self, input: &str)
        requires
            old(self)@.0 == ChatState::AwaitingUserInput,
        ensures
            final(self)@.1 == old(self)@.1,
            final(self)@.3 == old(self)@.3,
            spec_is_exit(input@) ==> final(self)@.0 == ChatState::Terminated
                && final(self)@.2 == old(self)@.2,
            !spec_is_exit(input@) ==> final(self)@.0 == ChatState::AwaitingResponse
                && final(self)@.2 == spec_trim(input@),
    {
        let trimmed = trim(input);
        proof {
            lemma_exit_keyword();
        }
        if eq_ignore_ascii_case(trimmed.as_str(), "exit") {
            self.state = ChatState::Terminated;
        } else {
            self.current_prompt = trimmed;
            self.state = ChatState::AwaitingResponse;
        }
    }
}

impl View for ChatSession {
    type V = (ChatState, Seq<ChatMessageView>, Seq<char>, bool);

    closed spec fn view(&self) -> (ChatState, Seq<ChatMessageView>, Seq<char>, bool) {
        (self.state, self.history.deep_view(), self.current_prompt@, self.continue_chat)
    }
}

/// The lowercase image of the exit keyword is itself.
proof fn lemma_exit_keyword()
    ensures
        lower_chars("exit"@) == "exit"@,
{
    reveal_strlit("exit");
    assert(lower_chars("exit"@) =~= "exit"@);
}

/// The request of a single-shot generation, for a provider the caller
/// has already resolved: the context (where given) as the one context
/// entry, no options attached, and the conversation's fixed response
/// format.
pub fn prepare_chat_request(
    system_prompt: &str,
    ai_prompt: &str,
    context: Option<&str>,
    provider: LLMProvider,
    api_url: &str,
    api_key: &str,
    ai_model: &str,
    format: String,
) -> (r: ChatRequest)
    ensures
        r.messages.deep_view() == spec_prompt_messages(
            system_prompt@,
            seq![
                Some(
                    ChatMessageView {
                        role: ChatRole::User,
                        content: match context {
                            Some(c) => c@,
                            None => Seq::<char>::empty(),
                        },
                    },
                ),
            ],
            ai_prompt@,
        ),
        r.provider == provider,
        r.model@ == ai_model@,
        r.api_url@ == api_url@,
        r.api_key@ == api_key@,
        r.format@ == format@,
        !r.stream,
        r.options is None,
{
    let seed = match context {
        Some(c) => c.to_owned(),
        None => String::new(),
    };
    let mut contexts: Vec<Option<ChatMessage>> = Vec::new();
    contexts.push(Some(ChatMessage::new(ChatRole::User, seed)));
    proof {
        assert(contexts.deep_view() =~= seq![
            Some(
                ChatMessageView {
                    role: ChatRole::User,
                    content: match context {
                        Some(c) => c@,
                        None => Seq::<char>::empty(),
                    },
                },
            ),
        ]);
    }
    let prompt = Prompt::new(system_prompt.to_owned(), contexts, ai_prompt.to_owned());
    ChatRequest::assemble(
        provider,
        ai_model,
        api_url.to_owned(),
        api_key.to_owned(),
        false,
        format,
        None,
        prompt,
    )
}

} // verus!
