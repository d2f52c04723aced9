//! Messages exchanged with the inference backend, the request builder, and the
//! client's decisions on HTTP statuses and retries.
use vstd::prelude::*;
use vstd::string::{StrSliceExecFns, StringExecFns};
use crate::text::{decimal, u64_to_decimal};

verus! {

#[verifier::external_type_specification]
#[verifier::external_body]
pub struct ExJsonValue(serde_json::Value);

/// serde_json::Value derives Clone: the copy is the same value.
pub assume_specification[ <serde_json::Value as Clone>::clone ](v: &serde_json::Value) -> (r: serde_json::Value)
    ensures
        r == *v,
;

/// Who wrote a message.
#[derive(Debug, Clone, Copy, PartialEq, Eq, Structural)]
pub enum Role {
    User,
    Assistant,
}

impl Default for Role {
    fn default() -> (r: Role)
        ensures
            r == Role::User,
    {
        Role::User
    }
}

/// Why the model stopped.
#[derive(Debug, Clone, Copy, PartialEq, Eq, Structural)]
pub enum StopReason {
    EndTurn,
    ToolUse,
    MaxTokens,
    StopSequence,
}

impl StopReason {
    /// The wire name of the reason.
    pub open spec fn name(self) -> Seq<char> {
        match self {
            StopReason::EndTurn => "end_turn"@,
            StopReason::ToolUse => "tool_use"@,
            StopReason::MaxTokens => "max_tokens"@,
            StopReason::StopSequence => "stop_sequence"@,
        }
    }

    pub fn as_str(&self) -> (r: &'static str)
        ensures
            r@ == self.name(),
    {
        match self {
            StopReason::EndTurn => "end_turn",
            StopReason::ToolUse => "tool_use",
            StopReason::MaxTokens => "max_tokens",
            StopReason::StopSequence => "stop_sequence",
        }
    }
}

/// Token counts of one inference.
#[derive(Debug, Clone, Copy, PartialEq, Eq, Structural)]
pub struct Usage {
    pub input_tokens: u32,
    pub output_tokens: u32,
    pub cache_creation_input_tokens: Option<u32>,
    pub cache_read_input_tokens: Option<u32>,
}

impl Default for Usage {
    fn default() -> (r: Usage)
        ensures
            r.input_tokens == 0,
            r.output_tokens == 0,
            r.cache_creation_input_tokens is None,
            r.cache_read_input_tokens is None,
    {
        Usage { input_tokens: 0, output_tokens: 0, cache_creation_input_tokens: None, cache_read_input_tokens: None }
    }
}

/// One element of a message's content.
#[derive(Debug, Clone)]
pub enum ContentBlock {
    /// Text from the model or the user.
    Text { text: String },
    /// A tool invocation requested by the model.
    ToolUse { id: String, name: String, input: serde_json::Value },
    /// What a tool returned, sent back to the model.
    ToolResult { tool_use_id: String, content: String, is_error: Option<bool> },
    /// Cache control breakpoint.
    CacheControl { ttl: Option<String> },
    /// Reasoning content.
    Thinking { thinking: String },
    /// Redacted reasoning content.
    RedactedThinking,
    /// A block of a kind this daemon does not interpret.
    Other,
}

/// What a content block holds, as text.
pub enum BlockView {
    Text { text: Seq<char> },
    ToolUse { id: Seq<char>, name: Seq<char>, input: serde_json::Value },
    ToolResult { tool_use_id: Seq<char>, content: Seq<char>, is_error: Option<bool> },
    CacheControl { ttl: Option<Seq<char>> },
    Thinking { thinking: Seq<char> },
    RedactedThinking,
    Other,
}

impl View for ContentBlock {
    type V = BlockView;

    open spec fn view(&self) -> BlockView {
        match self {
            ContentBlock::Text { text } => BlockView::Text { text: text@ },
            ContentBlock::ToolUse { id, name, input } => BlockView::ToolUse { id: id@, name: name@, input: *input },
            ContentBlock::ToolResult { tool_use_id, content, is_error } => BlockView::ToolResult {
                tool_use_id: tool_use_id@,
                content: content@,
                is_error: *is_error,
            },
            ContentBlock::CacheControl { ttl } => BlockView::CacheControl {
                ttl: match ttl {
                    Some(t) => Some(t@),
                    None => None,
                },
            },
            ContentBlock::Thinking { thinking } => BlockView::Thinking { thinking: thinking@ },
            ContentBlock::RedactedThinking => BlockView::RedactedThinking,
            ContentBlock::Other => BlockView::Other,
        }
    }
}

impl ContentBlock {
    /// A copy of the block.
    pub fn duplicate(&self) -> (r: ContentBlock)
        ensures
            r@ == self@,
    {
        match self {
            ContentBlock::Text { text } => ContentBlock::Text { text: text.clone() },
            ContentBlock::ToolUse { id, name, input } => ContentBlock::ToolUse {
                id: id.clone(),
                name: name.clone(),
                input: input.clone(),
            },
            ContentBlock::ToolResult { tool_use_id, content, is_error } => ContentBlock::ToolResult {
                tool_use_id: tool_use_id.clone(),
                content: content.clone(),
                is_error: *is_error,
            },
            ContentBlock::CacheControl { ttl } => ContentBlock::CacheControl {
                ttl: match ttl {
                    Some(t) => Some(t.clone()),
                    None => None,
                },
            },
            ContentBlock::Thinking { thinking } => ContentBlock::Thinking { thinking: thinking.clone() },
            ContentBlock::RedactedThinking => ContentBlock::RedactedThinking,
            ContentBlock::Other => ContentBlock::Other,
        }
    }
}

pub open spec fn blocks_view(bs: Seq<ContentBlock>) -> Seq<BlockView> {
    bs.map_values(|b: ContentBlock| b@)
}

/// A copy of a list of blocks.
pub fn duplicate_blocks(bs: &Vec<ContentBlock>) -> (r: Vec<ContentBlock>)
    ensures
        blocks_view(r@) == blocks_view(bs@),
{
    let mut r: Vec<ContentBlock> = Vec::new();
    let mut i: usize = 0;
    while i < bs.len()
        invariant
            i <= bs@.len(),
            blocks_view(r@) == blocks_view(bs@.subrange(0, i as int)),
        decreases bs@.len() - i,
    {
        let b = bs[i].duplicate();
        let ghost prev = r@;
        r.push(b);
        i = i + 1;
        proof {
            assert(blocks_view(r@) =~= blocks_view(prev).push(b@));
            assert(bs@.subrange(0, i as int) =~= bs@.subrange(0, i - 1 as int).push(bs@[i - 1]));
            assert(blocks_view(bs@.subrange(0, i as int)) =~= blocks_view(bs@.subrange(0, i - 1 as int)).push(bs@[i - 1]@));
        }
    }
    assert(bs@.subrange(0, i as int) =~= bs@);
    r
}

/// One message of the conversation.
#[derive(Debug, Clone)]
pub struct Message {
    pub role: Role,
    pub content: Vec<ContentBlock>,
}

/// What a message holds.
pub struct MessageView {
    pub role: Role,
    pub content: Seq<BlockView>,
}

impl View for Message {
    type V = MessageView;

    open spec fn view(&self) -> MessageView {
        MessageView { role: self.role, content: blocks_view(self.content@) }
    }
}

pub open spec fn messages_view(ms: Seq<Message>) -> Seq<MessageView> {
    ms.map_values(|m: Message| m@)
}

impl Message {
    /// A user message of one text block.
    pub fn user_text(content: String) -> (r: Message)
        ensures
            r@.role == Role::User,
            r@.content == seq![BlockView::Text { text: content@ }],
    {
        let mut blocks: Vec<ContentBlock> = Vec::new();
        blocks.push(ContentBlock::Text { text: content });
        let r = Message { role: Role::User, content: blocks };
        assert(r@.content =~= seq![BlockView::Text { text: content@ }]);
        r
    }

    /// An assistant message of one text block.
    pub fn assistant_text(content: String) -> (r: Message)
        ensures
            r@.role == Role::Assistant,
            r@.content == seq![BlockView::Text { text: content@ }],
    {
        let mut blocks: Vec<ContentBlock> = Vec::new();
        blocks.push(ContentBlock::Text { text: content });
        let r = Message { role: Role::Assistant, content: blocks };
        assert(r@.content =~= seq![BlockView::Text { text: content@ }]);
        r
    }

    /// A copy of the message.
    pub fn duplicate(&self) -> (r: Message)
        ensures
            r@ == self@,
    {
        Message { role: self.role, content: duplicate_blocks(&self.content) }
    }
}

/// A tool the model may call.
#[derive(Debug, Clone)]
pub struct ToolDefinition {
    pub name: String,
    pub description: String,
    pub input_schema: serde_json::Value,
}

impl ToolDefinition {
    /// A copy of the definition.
    pub fn duplicate(&self) -> (r: ToolDefinition)
        ensures
            r.name@ == self.name@,
            r.description@ == self.description@,
            r.input_schema == self.input_schema,
    {
        ToolDefinition {
            name: self.name.clone(),
            description: self.description.clone(),
            input_schema: self.input_schema.clone(),
        }
    }
}

/// What a tool definition holds.
pub struct ToolView {
    pub name: Seq<char>,
    pub description: Seq<char>,
    pub input_schema: serde_json::Value,
}

impl View for ToolDefinition {
    type V = ToolView;

    open spec fn view(&self) -> ToolView {
        ToolView { name: self.name@, description: self.description@, input_schema: self.input_schema }
    }
}

pub open spec fn tools_view(ts: Seq<ToolDefinition>) -> Seq<ToolView> {
    ts.map_values(|t: ToolDefinition| t@)
}

pub open spec fn opt_text(s: Option<String>) -> Option<Seq<char>> {
    match s {
        Some(t) => Some(t@),
        None => None,
    }
}

pub open spec fn opt_tools(ts: Option<Vec<ToolDefinition>>) -> Option<Seq<ToolView>> {
    match ts {
        Some(v) => Some(tools_view(v@)),
        None => None,
    }
}

pub open spec fn opt_texts(ss: Option<Vec<String>>) -> Option<Seq<Seq<char>>> {
    match ss {
        Some(v) => Some(crate::text::views(v@)),
        None => None,
    }
}

/// What an inference request holds.
pub struct RequestView {
    pub model: Seq<char>,
    pub system: Option<Seq<char>>,
    pub messages: Seq<MessageView>,
    pub tools: Option<Seq<ToolView>>,
    pub max_tokens: u32,
    pub top_k: Option<u32>,
    pub stop_sequences: Option<Seq<Seq<char>>>,
    pub stream: Option<bool>,
    pub metadata: Option<serde_json::Value>,
}

/// A request to the inference backend.
#[derive(Debug, Clone)]
pub struct MessageRequest {
    pub model: String,
    pub system: Option<String>,
    pub messages: Vec<Message>,
    pub tools: Option<Vec<ToolDefinition>>,
    pub max_tokens: u32,
    pub top_k: Option<u32>,
    pub stop_sequences: Option<Vec<String>>,
    pub stream: Option<bool>,
    pub metadata: Option<serde_json::Value>,
}

impl View for MessageRequest {
    type V = RequestView;

    open spec fn view(&self) -> RequestView {
        RequestView {
            model: self.model@,
            system: opt_text(self.system),
            messages: messages_view(self.messages@),
            tools: opt_tools(self.tools),
            max_tokens: self.max_tokens,
            top_k: self.top_k,
            stop_sequences: opt_texts(self.stop_sequences),
            stream: self.stream,
            metadata: self.metadata,
        }
    }
}

/// A response of the inference backend.
#[derive(Debug, Clone)]
pub struct MessageResponse {
    pub id: String,
    pub content: Vec<ContentBlock>,
    pub model: String,
    pub role: Role,
    pub stop_reason: Option<StopReason>,
    pub stop_sequence: Option<String>,
    pub usage: Option<Usage>,
}

/// Builds a request step by step; the conversation it holds must start with the user.
#[derive(Debug, Clone)]
pub struct RequestBuilder {
    model: String,
    system: Option<String>,
    messages: Vec<Message>,
    tools: Option<Vec<ToolDefinition>>,
    max_tokens: u32,
    top_k: Option<u32>,
    stop_sequences: Option<Vec<String>>,
    stream: Option<bool>,
    metadata: Option<serde_json::Value>,
}

impl View for RequestBuilder {
    type V = RequestView;

    closed spec fn view(&self) -> RequestView {
        RequestView {
            model: self.model@,
            system: opt_text(self.system),
            messages: messages_view(self.messages@),
            tools: opt_tools(self.tools),
            max_tokens: self.max_tokens,
            top_k: self.top_k,
            stop_sequences: opt_texts(self.stop_sequences),
            stream: self.stream,
            metadata: self.metadata,
        }
    }
}

/// Why a request could not be built.
pub open spec fn build_error(messages: Seq<MessageView>) -> Option<Seq<char>> {
    if messages.len() == 0 {
        Some("messages cannot be empty"@)
    } else if messages[0].role != Role::User {
        Some("first message must have user role"@)
    } else {
        None
    }
}

impl RequestBuilder {
    /// An empty request for `model`, with room for 4096 output tokens.
    pub fn new(model: String) -> (r: RequestBuilder)
        ensures
            r@ == (RequestView {
                model: model@,
                system: None,
                messages: Seq::empty(),
                tools: None,
                max_tokens: 4096,
                top_k: None,
                stop_sequences: None,
                stream: None,
                metadata: None,
            }),
    {
        let r = RequestBuilder {
            model,
            system: None,
            messages: Vec::new(),
            tools: None,
            max_tokens: 4096,
            top_k: None,
            stop_sequences: None,
            stream: None,
            metadata: None,
        };
        assert(messages_view(r.messages@) =~= Seq::<MessageView>::empty());
        r
    }

    pub fn system(self, system: String) -> (r: RequestBuilder)
        ensures
            r@ == (RequestView { system: Some(system@), ..self@ }),
    {
        RequestBuilder { system: Some(system), ..self }
    }

    fn push_message(self, m: Message) -> (r: RequestBuilder)
        ensures
            r@ == (RequestView { messages: self@.messages.push(m@), ..self@ }),
    {
        let mut b = self;
        let ghost prev = b.messages@;
        b.messages.push(m);
        assert(messages_view(b.messages@) =~= messages_view(prev).push(m@));
        b
    }

    pub fn user_text(self, content: String) -> (r: RequestBuilder)
        ensures
            r@ == (RequestView {
                messages: self@.messages.push(MessageView { role: Role::User, content: seq![BlockView::Text { text: content@ }] }),
                ..self@
            }),
    {
        self.push_message(Message::user_text(content))
    }

    pub fn user_content(self, content: Vec<ContentBlock>) -> (r: RequestBuilder)
        ensures
            r@ == (RequestView {
                messages: self@.messages.push(MessageView { role: Role::User, content: blocks_view(content@) }),
                ..self@
            }),
    {
        self.push_message(Message { role: Role::User, content })
    }

    pub fn assistant_text(self, content: String) -> (r: RequestBuilder)
        ensures
            r@ == (RequestView {
                messages: self@.messages.push(MessageView { role: Role::Assistant, content: seq![BlockView::Text { text: content@ }] }),
                ..self@
            }),
    {
        self.push_message(Message::assistant_text(content))
    }

    pub fn assistant_content(self, content: Vec<ContentBlock>) -> (r: RequestBuilder)
        ensures
            r@ == (RequestView {
                messages: self@.messages.push(MessageView { role: Role::Assistant, content: blocks_view(content@) }),
                ..self@
            }),
    {
        self.push_message(Message { role: Role::Assistant, content })
    }

    pub fn user_tool_result(self, tool_use_id: String, content: String, is_error: Option<bool>) -> (r: RequestBuilder)
        ensures
            r@ == (RequestView {
                messages: self@.messages.push(MessageView {
                    role: Role::User,
                    content: seq![BlockView::ToolResult { tool_use_id: tool_use_id@, content: content@, is_error }],
                }),
                ..self@
            }),
    {
        let mut blocks: Vec<ContentBlock> = Vec::new();
        blocks.push(ContentBlock::ToolResult { tool_use_id, content, is_error });
        assert(blocks_view(blocks@) =~= seq![BlockView::ToolResult { tool_use_id: tool_use_id@, content: content@, is_error }]);
        self.push_message(Message { role: Role::User, content: blocks })
    }

    pub fn tools(self, tools: Vec<ToolDefinition>) -> (r: RequestBuilder)
        ensures
            r@ == (RequestView { tools: Some(tools_view(tools@)), ..self@ }),
    {
        RequestBuilder { tools: Some(tools), ..self }
    }

    /// Adds one tool to those already given.
    pub fn tool(self, tool: ToolDefinition) -> (r: RequestBuilder)
        ensures
            r@ == (RequestView {
                tools: Some(match self@.tools {
                    Some(ts) => ts.push(tool@),
                    None => seq![tool@],
                }),
                ..self@
            }),
    {
        let mut b = self;
        let ts = match b.tools {
            Some(mut t) => {
                let ghost prev = t@;
                t.push(tool);
                assert(tools_view(t@) =~= tools_view(prev).push(tool@));
                t
            },
            None => {
                let mut t: Vec<ToolDefinition> = Vec::new();
                t.push(tool);
                assert(tools_view(t@) =~= seq![tool@]);
                t
            },
        };
        RequestBuilder { tools: Some(ts), ..b }
    }

    pub fn max_tokens(self, max_tokens: u32) -> (r: RequestBuilder)
        ensures
            r@ == (RequestView { max_tokens, ..self@ }),
    {
        RequestBuilder { max_tokens, ..self }
    }

    pub fn top_k(self, top_k: u32) -> (r: RequestBuilder)
        ensures
            r@ == (RequestView { top_k: Some(top_k), ..self@ }),
    {
        RequestBuilder { top_k: Some(top_k), ..self }
    }

    pub fn stop_sequences(self, sequences: Vec<String>) -> (r: RequestBuilder)
        ensures
            r@ == (RequestView { stop_sequences: Some(crate::text::views(sequences@)), ..self@ }),
    {
        RequestBuilder { stop_sequences: Some(sequences), ..self }
    }

    pub fn stream(self, stream: bool) -> (r: RequestBuilder)
        ensures
            r@ == (RequestView { stream: Some(stream), ..self@ }),
    {
        RequestBuilder { stream: Some(stream), ..self }
    }

    pub fn metadata(self, metadata: serde_json::Value) -> (r: RequestBuilder)
        ensures
            r@ == (RequestView { metadata: Some(metadata), ..self@ }),
    {
        RequestBuilder { metadata: Some(metadata), ..self }
    }

    /// The request, when its conversation is not empty and starts with the user.
    pub fn build(self) -> (r: Result<MessageRequest, &'static str>)
        ensures
            build_error(self@.messages) is None <==> r is Ok,
            r is Ok ==> r->Ok_0@ == self@,
            r is Err ==> r->Err_0@ == build_error(self@.messages)->0,
    {
        if self.messages.len() == 0 {
            return Err("messages cannot be empty");
        }
        match self.messages[0].role {
            Role::User => {},
            Role::Assistant => {
                return Err("first message must have user role");
            },
        }
        Ok(MessageRequest {
            model: self.model,
            system: self.system,
            messages: self.messages,
            tools: self.tools,
            max_tokens: self.max_tokens,
            top_k: self.top_k,
            stop_sequences: self.stop_sequences,
            stream: self.stream,
            metadata: self.metadata,
        })
    }
}

/// Errors of the inference client.
#[derive(Debug, Clone)]
pub enum BrainError {
    AuthenticationFailed(String),
    InvalidRequest(String),
    InsufficientBalance(String),
    Exhausted { retries: u32, last_error: String },
    ModelError(String),
    Timeout(u64),
    NetworkError(String),
    SerializationError(String),
}

/// Errors of setting up the inference client.
#[derive(Debug, Clone)]
pub enum BrainInitError {
    ConfigMissing(String),
    ConfigInvalid(String),
    ClientError(String),
    ConnectionFailed(String),
}

/// The text that describes an inference error.
pub open spec fn brain_error_text(e: BrainError) -> Seq<char> {
    match e {
        BrainError::AuthenticationFailed(s) => "Authentication failed: "@ + s@,
        BrainError::InvalidRequest(s) => "Invalid request: "@ + s@,
        BrainError::InsufficientBalance(s) => "Insufficient balance: "@ + s@,
        BrainError::Exhausted { retries, last_error } => "Exhausted: max retries ("@ + decimal(retries as nat)
            + ") exceeded, last error: "@ + last_error@,
        BrainError::ModelError(s) => "Model error: "@ + s@,
        BrainError::Timeout(secs) => "Timeout after "@ + decimal(secs as nat) + " seconds"@,
        BrainError::NetworkError(s) => "Network error: "@ + s@,
        BrainError::SerializationError(s) => "Serialization error: "@ + s@,
    }
}

impl BrainError {
    /// Describes the error.
    pub fn message(&self) -> (r: String)
        ensures
            r@ == brain_error_text(*self),
    {
        match self {
            BrainError::AuthenticationFailed(s) => String::from_str("Authentication failed: ").concat(s.as_str()),
            BrainError::InvalidRequest(s) => String::from_str("Invalid request: ").concat(s.as_str()),
            BrainError::InsufficientBalance(s) => String::from_str("Insufficient balance: ").concat(s.as_str()),
            BrainError::Exhausted { retries, last_error } => {
                let mut r = String::from_str("Exhausted: max retries (");
                let n = u64_to_decimal(*retries as u64);
                r.append(n.as_str());
                r.append(") exceeded, last error: ");
                r.append(last_error.as_str());
                r
            },
            BrainError::ModelError(s) => String::from_str("Model error: ").concat(s.as_str()),
            BrainError::Timeout(secs) => {
                let mut r = String::from_str("Timeout after ");
                let n = u64_to_decimal(*secs);
                r.append(n.as_str());
                r.append(" seconds");
                r
            },
            BrainError::NetworkError(s) => String::from_str("Network error: ").concat(s.as_str()),
            BrainError::SerializationError(s) => String::from_str("Serialization error: ").concat(s.as_str()),
        }
    }
}

/// How the HTTP library displays a status code: the number and its reason phrase.
pub uninterp spec fn status_display(code: u16) -> Seq<char>;

/// Relies on reqwest::StatusCode: from_u16 accepts exactly the codes 100 to 999, and
/// its Display writes the code with its reason phrase.
#[verifier::external_body]
fn display_status(code: u16) -> (r: Option<String>)
    ensures
        r is Some <==> 100 <= code <= 999,
        r is Some ==> r->0@ == status_display(code),
{
    reqwest::StatusCode::from_u16(code).ok().map(|s| s.to_string())
}

/// A 2xx status.
pub open spec fn is_success_status(status: u16) -> bool {
    200 <= status <= 299
}

/// The error that a non-success status with response `body` stands for.
pub open spec fn status_error_spec(status: u16, body: Seq<char>) -> BrainErrorKind {
    if status == 400 {
        BrainErrorKind::InvalidRequest(body)
    } else if status == 401 {
        BrainErrorKind::AuthenticationFailed(body)
    } else if status == 402 {
        BrainErrorKind::InsufficientBalance(body)
    } else if 500 <= status <= 599 {
        BrainErrorKind::ModelError(body)
    } else {
        BrainErrorKind::InvalidRequest("HTTP "@ + (if 100 <= status <= 999 { status_display(status) } else { decimal(status as nat) }) + ": "@ + body)
    }
}

/// The kinds of errors that an HTTP status maps to, with their text.
pub enum BrainErrorKind {
    AuthenticationFailed(Seq<char>),
    InvalidRequest(Seq<char>),
    InsufficientBalance(Seq<char>),
    ModelError(Seq<char>),
}

/// The kind of an error that a status maps to.
pub open spec fn kind_of(e: BrainError) -> Option<BrainErrorKind> {
    match e {
        BrainError::AuthenticationFailed(s) => Some(BrainErrorKind::AuthenticationFailed(s@)),
        BrainError::InvalidRequest(s) => Some(BrainErrorKind::InvalidRequest(s@)),
        BrainError::InsufficientBalance(s) => Some(BrainErrorKind::InsufficientBalance(s@)),
        BrainError::ModelError(s) => Some(BrainErrorKind::ModelError(s@)),
        _ => None,
    }
}

/// Whether a status is a success.
pub fn is_success(status: u16) -> (r: bool)
    ensures
        r == is_success_status(status),
{
    200 <= status && status <= 299
}

/// The error for a response whose status is not a success.
pub fn status_error(status: u16, body: String) -> (r: BrainError)
    ensures
        kind_of(r) == Some(status_error_spec(status, body@)),
{
    if status == 400 {
        BrainError::InvalidRequest(body)
    } else if status == 401 {
        BrainError::AuthenticationFailed(body)
    } else if status == 402 {
        BrainError::InsufficientBalance(body)
    } else if 500 <= status && status <= 599 {
        BrainError::ModelError(body)
    } else {
        let mut text = String::from_str("HTTP ");
        let shown = match display_status(status) {
            Some(d) => d,
            None => u64_to_decimal(status as u64),
        };
        text.append(shown.as_str());
        text.append(": ");
        text.append(body.as_str());
        BrainError::InvalidRequest(text)
    }
}

/// The endpoint's messages URL: trailing slashes removed, then `/v1/messages`.
pub open spec fn messages_url_spec(endpoint: Seq<char>) -> Seq<char>
    decreases endpoint.len(),
{
    if endpoint.len() > 0 && endpoint.last() == '/' {
        messages_url_spec(endpoint.drop_last())
    } else {
        endpoint + "/v1/messages"@
    }
}

/// The URL that requests are posted to.
pub fn messages_url(endpoint: &str) -> (r: String)
    ensures
        r@ == messages_url_spec(endpoint@),
{
    let mut n = endpoint.unicode_len();
    assert(endpoint@.subrange(0, n as int) =~= endpoint@);
    while n > 0 && endpoint.get_char(n - 1) == '/'
        invariant
            n <= endpoint@.len(),
            messages_url_spec(endpoint@.subrange(0, n as int)) == messages_url_spec(endpoint@),
        decreases n,
    {
        assert(endpoint@.subrange(0, n as int).drop_last() =~= endpoint@.subrange(0, n - 1 as int));
        n = n - 1;
    }
    let trimmed = endpoint.substring_char(0, n);
    let mut r = String::from_str(trimmed);
    r.append("/v1/messages");
    r
}

/// The authorization header's value.
pub fn bearer(api_key: &str) -> (r: String)
    ensures
        r@ == "Bearer "@ + api_key@,
{
    String::from_str("Bearer ").concat(api_key)
}

/// Errors after which the same request is not sent again.
pub open spec fn is_retryable(e: BrainError) -> bool {
    !(e is AuthenticationFailed || e is InvalidRequest || e is InsufficientBalance || e is Exhausted)
}

/// Longest wait between attempts, in milliseconds.
pub const MAX_RETRY_DELAY_MS: u64 = 30000;

/// The wait before retry number `attempt` (from 1): the base delay doubled for each
/// earlier retry, at most thirty seconds.
pub open spec fn backoff_ms(attempt: nat, base_ms: u64) -> int {
    let raw = base_ms * vstd::arithmetic::power::pow(2, (attempt - 1) as nat);
    if raw < MAX_RETRY_DELAY_MS { raw } else { MAX_RETRY_DELAY_MS as int }
}

/// What the client does after a failed attempt.
#[derive(Debug)]
pub enum RetryStep {
    /// Wait `delay_ms`, then send again; `retries` failures so far.
    Retry { retries: u32, delay_ms: u64 },
    /// Give up with this error.
    Fail(BrainError),
}

/// The wait before retry number `attempt`.
pub fn backoff_delay(attempt: u32, base_ms: u64) -> (r: u64)
    requires
        attempt >= 1,
    ensures
        r == backoff_ms(attempt as nat, base_ms),
{
    let mut d: u64 = if base_ms < MAX_RETRY_DELAY_MS { base_ms } else { MAX_RETRY_DELAY_MS };
    let mut j: u32 = 1;
    proof {
        reveal(vstd::arithmetic::power::pow);
        assert(vstd::arithmetic::power::pow(2, 0) == 1);
    }
    while j < attempt
        invariant
            1 <= j <= attempt,
            d == backoff_ms(j as nat, base_ms),
        decreases attempt - j,
    {
        let ghost x = base_ms * vstd::arithmetic::power::pow(2, (j - 1) as nat);
        proof {
            reveal(vstd::arithmetic::power::pow);
            assert(vstd::arithmetic::power::pow(2, j as nat) == 2 * vstd::arithmetic::power::pow(2, (j - 1) as nat));
            assert(base_ms * vstd::arithmetic::power::pow(2, j as nat) == 2 * x) by (nonlinear_arith)
                requires
                    vstd::arithmetic::power::pow(2, j as nat) == 2 * vstd::arithmetic::power::pow(2, (j - 1) as nat),
                    x == base_ms * vstd::arithmetic::power::pow(2, (j - 1) as nat),
            ;
        }
        d = if d < MAX_RETRY_DELAY_MS / 2 { d * 2 } else { MAX_RETRY_DELAY_MS };
        j = j + 1;
    }
    d
}

/// Decides, after the attempt that failed with `err`, whether to send again. `retries`
/// counts the failures before this one.
pub fn retry_step(retries: u32, max_retries: u32, base_delay_ms: u64, err: BrainError) -> (r: RetryStep)
    requires
        retries <= max_retries,
    ensures
        !is_retryable(err) ==> r == RetryStep::Fail(err),
        is_retryable(err) && retries + 1 > max_retries ==> r is Fail && ({
            let e = r->Fail_0;
            &&& e is Exhausted
            &&& e->retries == if retries < u32::MAX { retries + 1 } else { retries as int }
            &&& e->last_error@ == brain_error_text(err)
        }),
        is_retryable(err) && retries + 1 <= max_retries ==> r == (RetryStep::Retry {
            retries: (retries + 1) as u32,
            delay_ms: backoff_ms((retries + 1) as nat, base_delay_ms) as u64,
        }),
{
    let retryable = match &err {
        BrainError::AuthenticationFailed(_) => false,
        BrainError::InvalidRequest(_) => false,
        BrainError::InsufficientBalance(_) => false,
        BrainError::Exhausted { .. } => false,
        _ => true,
    };
    if !retryable {
        return RetryStep::Fail(err);
    }
    if retries == max_retries {
        let count = if retries < u32::MAX { retries + 1 } else { retries };
        return RetryStep::Fail(BrainError::Exhausted { retries: count, last_error: err.message() });
    }
    RetryStep::Retry { retries: retries + 1, delay_ms: backoff_delay(retries + 1, base_delay_ms) }
}

} // verus!
