//! The vocabulary spoken with language models: messages, tool calls and the
//! pieces a streamed answer arrives in.

use vstd::prelude::*;
use crate::json::{Json, JsonValue};

verus! {

/// Who speaks in a message.
#[derive(Clone, Copy, Debug, PartialEq, Eq, Structural)]
pub enum Role {
    User,
    Assistant,
    Tool,
}

/// One part of a message.
pub enum MessageContent {
    /// Plain text.
    Text(String),
    /// An image, as bytes with their media type.
    Image { data: Vec<u8>, content_type: String },
    /// A call of a tool made by the model.
    ToolUse { id: String, name: String, input: JsonValue },
    /// The answer given to a tool call.
    ToolResult { tool_use_id: String, content: String },
}

/// A message of a conversation with a model.
pub struct LlmMessage {
    pub role: Role,
    pub content: Vec<MessageContent>,
}

/// A tool the model may call.
pub struct LlmTool {
    pub name: String,
    pub description: String,
    pub input_schema: JsonValue,
}

/// Whether and which tool the model must call.
pub enum ToolChoice {
    Auto,
    /// No tool may be called.
    Disabled,
    Required,
    Tool { name: String },
}

/// A call of a tool, complete.
pub struct ToolCall {
    pub id: String,
    pub name: String,
    pub arguments: JsonValue,
}

/// Why the model stopped.
#[derive(Clone, Debug, PartialEq, Eq)]
pub enum StopReason {
    EndTurn,
    ToolUse,
    MaxTokens,
    StopSequence,
    Other(String),
}

/// A piece of a streamed answer.
pub enum StreamChunk {
    /// More text of the answer.
    TextDelta { text: String },
    /// A tool call begins.
    ToolCallStart { id: String, name: String },
    /// More of a tool call's arguments, as JSON text.
    ToolCallArgsDelta { id: String, delta: String },
    /// A tool call is complete.
    ToolCallEnd { id: String, name: String, arguments: JsonValue },
    /// The answer is over.
    Done { stop_reason: StopReason },
}

impl LlmMessage {
    /// The message answering tool call `tool_use_id` with `content`.
    pub fn tool_result(tool_use_id: String, content: String) -> (r: LlmMessage)
        ensures
            r.role == Role::Tool,
            r.content@.len() == 1,
            r.content@[0] matches MessageContent::ToolResult { tool_use_id: t, content: c } && t
                == tool_use_id && c == content,
    {
        LlmMessage { role: Role::Tool, content: vec![MessageContent::ToolResult { tool_use_id, content }] }
    }
}

/// The mathematical form of a piece of a streamed answer.
pub enum ChunkModel {
    TextDelta(Seq<char>),
    ToolCallStart(Seq<char>, Seq<char>),
    ToolCallArgsDelta(Seq<char>, Seq<char>),
    ToolCallEnd(Seq<char>, Seq<char>, Json),
    Done(StopReasonModel),
}

/// The mathematical form of a stop reason.
pub enum StopReasonModel {
    EndTurn,
    ToolUse,
    MaxTokens,
    StopSequence,
    Other(Seq<char>),
}

/// The mathematical form of a stop reason.
pub open spec fn stop_model(s: StopReason) -> StopReasonModel {
    match s {
        StopReason::EndTurn => StopReasonModel::EndTurn,
        StopReason::ToolUse => StopReasonModel::ToolUse,
        StopReason::MaxTokens => StopReasonModel::MaxTokens,
        StopReason::StopSequence => StopReasonModel::StopSequence,
        StopReason::Other(t) => StopReasonModel::Other(t@),
    }
}

/// The mathematical form of a piece.
pub open spec fn chunk_model(c: StreamChunk) -> ChunkModel {
    match c {
        StreamChunk::TextDelta { text } => ChunkModel::TextDelta(text@),
        StreamChunk::ToolCallStart { id, name } => ChunkModel::ToolCallStart(id@, name@),
        StreamChunk::ToolCallArgsDelta { id, delta } => ChunkModel::ToolCallArgsDelta(id@, delta@),
        StreamChunk::ToolCallEnd { id, name, arguments } => ChunkModel::ToolCallEnd(id@, name@, arguments.model()),
        StreamChunk::Done { stop_reason } => ChunkModel::Done(stop_model(stop_reason)),
    }
}

/// The mathematical form of a list of pieces.
pub open spec fn chunks_model(cs: Seq<StreamChunk>) -> Seq<ChunkModel> {
    cs.map_values(|c: StreamChunk| chunk_model(c))
}

/// Failure of a call to a model.
#[derive(Clone, Debug, PartialEq, Eq)]
pub enum LlmError {
    /// The transport failed.
    Http(String),
    /// The provider answered with a failure status and this body.
    ProviderStatus { status: u16, body: String },
    /// The provider's answer could not be read.
    Json(String),
    /// The answer was cut at the token limit.
    Truncated { step: String, partial_payload: String },
    /// The structured answer was not valid JSON.
    ParseFailed { step: String, error: String, payload: String },
    /// The provider asks to wait this long.
    RateLimit { retry_after_ms: u64 },
    /// The answer lacks the structured part.
    BadStructuredOutput(String),
    /// The client is misconfigured.
    Config(String),
    /// Any other failure.
    Other(String),
}

/// The standard base64 alphabet.
pub open spec fn base64_alphabet() -> Seq<char> {
    "ABCDEFGHIJKLMNOPQRSTUVWXYZabcdefghijklmnopqrstuvwxyz0123456789+/"@
}

/// The base64 digit of a six-bit value.
pub open spec fn base64_digit(v: int) -> char {
    base64_alphabet()[v]
}

/// Base64 with the standard alphabet and padding: each group of three
/// bytes becomes four digits; a last group of one or two bytes becomes
/// two or three digits padded with `=` to four.
pub open spec fn base64_standard_encode(bytes: Seq<u8>) -> Seq<char>
    decreases bytes.len(),
{
    if bytes.len() == 0 {
        seq![]
    } else if bytes.len() == 1 {
        let b0 = bytes[0] as int;
        seq![base64_digit(b0 / 4), base64_digit((b0 % 4) * 16), '=', '=']
    } else if bytes.len() == 2 {
        let b0 = bytes[0] as int;
        let b1 = bytes[1] as int;
        seq![base64_digit(b0 / 4), base64_digit((b0 % 4) * 16 + b1 / 16), base64_digit((b1 % 16) * 4), '=']
    } else {
        let b0 = bytes[0] as int;
        let b1 = bytes[1] as int;
        let b2 = bytes[2] as int;
        seq![
            base64_digit(b0 / 4),
            base64_digit((b0 % 4) * 16 + b1 / 16),
            base64_digit((b1 % 16) * 4 + b2 / 64),
            base64_digit(b2 % 64),
        ] + base64_standard_encode(bytes.subrange(3, bytes.len() as int))
    }
}

/// Encodes bytes in base64 with the standard alphabet and padding
/// (`base64::engine::general_purpose::STANDARD.encode`), as
/// `base64_standard_encode` states; four characters for every three
/// bytes begun.
#[verifier::external_body]
pub(crate) fn encode_base64(bytes: &[u8]) -> (r: String)
    ensures
        r@ == base64_standard_encode(bytes@),
        r@.len() == (bytes@.len() + 2) / 3 * 4,
{
    base64::Engine::encode(&base64::engine::general_purpose::STANDARD, bytes)
}

/// The name of a role on the wire, the tool role being sent as `tool_role`.
pub open spec fn role_name(r: Role, tool_role: Seq<char>) -> Seq<char> {
    match r {
        Role::User => "user"@,
        Role::Assistant => "assistant"@,
        Role::Tool => tool_role,
    }
}

/// The name of a role on the wire (see `role_name`).
pub fn role_text(r: Role, tool_role: &str) -> (s: String)
    ensures
        s@ == role_name(r, tool_role@),
{
    match r {
        Role::User => "user".to_owned(),
        Role::Assistant => "assistant".to_owned(),
        Role::Tool => tool_role.to_owned(),
    }
}

/// A JSON object member.
pub fn member(k: &str, v: JsonValue) -> (m: crate::json::Member)
    ensures
        m.key@ == k@,
        m.value == v,
{
    crate::json::Member { key: k.to_owned(), value: v }
}

/// A request for one answer of a model. The sampling temperature is left
/// to the provider's default.
pub struct CompletionRequest {
    pub system: Option<String>,
    pub messages: Vec<LlmMessage>,
    pub model: Option<String>,
    pub max_tokens: Option<u32>,
    pub tools: Vec<LlmTool>,
    pub tool_choice: ToolChoice,
}

/// Two message parts that say the same.
pub open spec fn same_content(a: MessageContent, b: MessageContent) -> bool {
    match (a, b) {
        (MessageContent::Text(x), MessageContent::Text(y)) => x@ == y@,
        (
            MessageContent::Image { data: d1, content_type: c1 },
            MessageContent::Image { data: d2, content_type: c2 },
        ) => d1@ == d2@ && c1@ == c2@,
        (
            MessageContent::ToolUse { id: i1, name: n1, input: j1 },
            MessageContent::ToolUse { id: i2, name: n2, input: j2 },
        ) => i1@ == i2@ && n1@ == n2@ && j1.model() == j2.model(),
        (
            MessageContent::ToolResult { tool_use_id: t1, content: c1 },
            MessageContent::ToolResult { tool_use_id: t2, content: c2 },
        ) => t1@ == t2@ && c1@ == c2@,
        _ => false,
    }
}

/// Two messages that say the same.
pub open spec fn same_message(a: LlmMessage, b: LlmMessage) -> bool {
    &&& a.role == b.role
    &&& a.content@.len() == b.content@.len()
    &&& forall|i: int| 0 <= i < a.content@.len() ==> #[trigger] same_content(a.content@[i], b.content@[i])
}

/// Two lists of messages that say the same, in the same order.
pub open spec fn same_messages(a: Seq<LlmMessage>, b: Seq<LlmMessage>) -> bool {
    &&& a.len() == b.len()
    &&& forall|i: int| 0 <= i < a.len() ==> #[trigger] same_message(a[i], b[i])
}

/// Two tools that say the same.
pub open spec fn same_tool(a: LlmTool, b: LlmTool) -> bool {
    a.name@ == b.name@ && a.description@ == b.description@ && a.input_schema.model() == b.input_schema.model()
}

/// Two lists of tools that say the same, in the same order.
pub open spec fn same_tools(a: Seq<LlmTool>, b: Seq<LlmTool>) -> bool {
    &&& a.len() == b.len()
    &&& forall|i: int| 0 <= i < a.len() ==> #[trigger] same_tool(a[i], b[i])
}

/// Two tool choices that say the same.
pub open spec fn same_choice(a: ToolChoice, b: ToolChoice) -> bool {
    match (a, b) {
        (ToolChoice::Auto, ToolChoice::Auto) => true,
        (ToolChoice::Disabled, ToolChoice::Disabled) => true,
        (ToolChoice::Required, ToolChoice::Required) => true,
        (ToolChoice::Tool { name: x }, ToolChoice::Tool { name: y }) => x@ == y@,
        _ => false,
    }
}

fn copy_bytes(v: &Vec<u8>) -> (r: Vec<u8>)
    ensures
        r@ == v@,
{
    let mut out: Vec<u8> = Vec::new();
    let mut i: usize = 0;
    while i < v.len()
        invariant
            i <= v.len(),
            out@ =~= v@.subrange(0, i as int),
        decreases v.len() - i,
    {
        out.push(v[i]);
        i = i + 1;
    }
    out
}

impl MessageContent {
    /// A copy that says the same.
    pub fn duplicate(&self) -> (r: MessageContent)
        ensures
            same_content(r, *self),
    {
        match self {
            MessageContent::Text(t) => MessageContent::Text(t.clone()),
            MessageContent::Image { data, content_type } => MessageContent::Image {
                data: copy_bytes(data),
                content_type: content_type.clone(),
            },
            MessageContent::ToolUse { id, name, input } => MessageContent::ToolUse {
                id: id.clone(),
                name: name.clone(),
                input: input.duplicate(),
            },
            MessageContent::ToolResult { tool_use_id, content } => MessageContent::ToolResult {
                tool_use_id: tool_use_id.clone(),
                content: content.clone(),
            },
        }
    }
}

impl LlmMessage {
    /// A copy that says the same.
    pub fn duplicate(&self) -> (r: LlmMessage)
        ensures
            same_message(r, *self),
    {
        let mut content: Vec<MessageContent> = Vec::new();
        let mut i: usize = 0;
        while i < self.content.len()
            invariant
                i <= self.content.len(),
                content@.len() == i,
                forall|j: int| 0 <= j < i ==> #[trigger] same_content(content@[j], self.content@[j]),
            decreases self.content.len() - i,
        {
            content.push(self.content[i].duplicate());
            i = i + 1;
        }
        LlmMessage { role: self.role, content }
    }
}

impl LlmTool {
    /// A copy that says the same.
    pub fn duplicate(&self) -> (r: LlmTool)
        ensures
            same_tool(r, *self),
    {
        LlmTool {
            name: self.name.clone(),
            description: self.description.clone(),
            input_schema: self.input_schema.duplicate(),
        }
    }
}

impl ToolChoice {
    /// A copy that says the same.
    pub fn duplicate(&self) -> (r: ToolChoice)
        ensures
            same_choice(r, *self),
    {
        match self {
            ToolChoice::Auto => ToolChoice::Auto,
            ToolChoice::Disabled => ToolChoice::Disabled,
            ToolChoice::Required => ToolChoice::Required,
            ToolChoice::Tool { name } => ToolChoice::Tool { name: name.clone() },
        }
    }
}

/// A copy of a list of messages, in order.
pub fn copy_messages(v: &Vec<LlmMessage>) -> (r: Vec<LlmMessage>)
    ensures
        same_messages(r@, v@),
{
    let mut out: Vec<LlmMessage> = Vec::new();
    let mut i: usize = 0;
    while i < v.len()
        invariant
            i <= v.len(),
            out@.len() == i,
            forall|j: int| 0 <= j < i ==> #[trigger] same_message(out@[j], v@[j]),
        decreases v.len() - i,
    {
        out.push(v[i].duplicate());
        i = i + 1;
    }
    out
}

/// A copy of a list of tools, in order.
pub fn copy_tools(v: &Vec<LlmTool>) -> (r: Vec<LlmTool>)
    ensures
        same_tools(r@, v@),
{
    let mut out: Vec<LlmTool> = Vec::new();
    let mut i: usize = 0;
    while i < v.len()
        invariant
            i <= v.len(),
            out@.len() == i,
            forall|j: int| 0 <= j < i ==> #[trigger] same_tool(out@[j], v@[j]),
        decreases v.len() - i,
    {
        out.push(v[i].duplicate());
        i = i + 1;
    }
    out
}

} // verus!
