//! The provider request model and its canonical encoding.
//!
//! The fingerprint is only as good as the encoding it hashes: logically
//! identical requests must yield byte-identical encodings.  The encoder
//! here is total and field-order stable; every field of the request,
//! the streaming flag included, participates.  Sampling parameters are
//! carried as integers because a canonical encoding needs stable
//! numeric formatting, which floating-point text does not give; tool
//! configuration and output schema are carried as opaque text that the
//! caller has already put into a canonical form of its own.

use crate::json_text::{push_json_string, spec_json_string};
use crate::numeric::{i32_to_decimal, spec_i32_decimal, spec_u64_decimal, u64_to_decimal};
use vstd::prelude::*;

verus! {

/// Who speaks in one message of the conversation.
#[derive(Debug, Clone, PartialEq, Eq, Structural)]
pub enum Role {
    User,
    Assistant,
}

/// One block of message or response content.
#[derive(Debug, Clone)]
pub enum ContentBlock {
    Text { text: String },
    ToolCall { id: String, name: String, arguments: String },
    ToolResult { id: String, name: String, result: String },
}

/// The mathematical shape of a content block.
pub enum ContentBlockView {
    Text { text: Seq<char> },
    ToolCall { id: Seq<char>, name: Seq<char>, arguments: Seq<char> },
    ToolResult { id: Seq<char>, name: Seq<char>, result: Seq<char> },
}

impl View for ContentBlock {
    type V = ContentBlockView;

    open spec fn view(&self) -> ContentBlockView {
        match self {
            ContentBlock::Text { text } => ContentBlockView::Text { text: text@ },
            ContentBlock::ToolCall { id, name, arguments } => ContentBlockView::ToolCall {
                id: id@,
                name: name@,
                arguments: arguments@,
            },
            ContentBlock::ToolResult { id, name, result } => ContentBlockView::ToolResult {
                id: id@,
                name: name@,
                result: result@,
            },
        }
    }
}

/// One message of the conversation handed to a provider.
#[derive(Debug, Clone)]
pub struct RequestMessage {
    pub role: Role,
    pub content: Vec<ContentBlock>,
}

/// The mathematical shape of a request message.
pub struct RequestMessageView {
    pub role: Role,
    pub content: Seq<ContentBlockView>,
}

impl View for RequestMessage {
    type V = RequestMessageView;

    open spec fn view(&self) -> RequestMessageView {
        RequestMessageView {
            role: self.role,
            content: self.content@.map_values(|b: ContentBlock| b@),
        }
    }
}

/// Whether the provider is asked for JSON output, and how strictly.
#[derive(Debug, Clone, PartialEq, Eq, Structural)]
pub enum ModelInferenceRequestJsonMode {
    Off,
    On,
    Strict,
}

/// The kind of function the request serves.
#[derive(Debug, Clone, PartialEq, Eq, Structural)]
pub enum FunctionType {
    Chat,
    Json,
}

/// The structured inference request that gets fingerprinted.  Any
/// semantic difference between two requests — the streaming flag
/// included — shows in their canonical encodings.
#[derive(Debug, Clone)]
pub struct ModelInferenceRequest {
    pub messages: Vec<RequestMessage>,
    pub system: Option<String>,
    pub tool_config: Option<String>,
    pub temperature: Option<u32>,
    pub top_p: Option<u32>,
    pub presence_penalty: Option<i32>,
    pub frequency_penalty: Option<i32>,
    pub max_tokens: Option<u32>,
    pub seed: Option<u32>,
    pub stream: bool,
    pub json_mode: ModelInferenceRequestJsonMode,
    pub function_type: FunctionType,
    pub output_schema: Option<String>,
}

/// The mathematical shape of an inference request.
pub struct RequestView {
    pub messages: Seq<RequestMessageView>,
    pub system: Option<Seq<char>>,
    pub tool_config: Option<Seq<char>>,
    pub temperature: Option<u32>,
    pub top_p: Option<u32>,
    pub presence_penalty: Option<i32>,
    pub frequency_penalty: Option<i32>,
    pub max_tokens: Option<u32>,
    pub seed: Option<u32>,
    pub stream: bool,
    pub json_mode: ModelInferenceRequestJsonMode,
    pub function_type: FunctionType,
    pub output_schema: Option<Seq<char>>,
}

/// The view of an optional owned string.
pub open spec fn view_opt_string(o: Option<String>) -> Option<Seq<char>> {
    match o {
        Some(s) => Some(s@),
        None => None,
    }
}

impl View for ModelInferenceRequest {
    type V = RequestView;

    open spec fn view(&self) -> RequestView {
        RequestView {
            messages: self.messages@.map_values(|m: RequestMessage| m@),
            system: view_opt_string(self.system),
            tool_config: view_opt_string(self.tool_config),
            temperature: self.temperature,
            top_p: self.top_p,
            presence_penalty: self.presence_penalty,
            frequency_penalty: self.frequency_penalty,
            max_tokens: self.max_tokens,
            seed: self.seed,
            stream: self.stream,
            json_mode: self.json_mode,
            function_type: self.function_type,
            output_schema: view_opt_string(self.output_schema),
        }
    }
}

/// The canonical encoding of one content block.
pub open spec fn spec_serialize_block(b: ContentBlockView) -> Seq<char> {
    match b {
        ContentBlockView::Text { text } => "{\"type\":\"text\",\"text\":"@ + spec_json_string(text)
            + "}"@,
        ContentBlockView::ToolCall { id, name, arguments } => "{\"type\":\"tool_call\",\"id\":"@
            + spec_json_string(id) + ",\"name\":"@ + spec_json_string(name) + ",\"arguments\":"@
            + spec_json_string(arguments) + "}"@,
        ContentBlockView::ToolResult { id, name, result } => "{\"type\":\"tool_result\",\"id\":"@
            + spec_json_string(id) + ",\"name\":"@ + spec_json_string(name) + ",\"result\":"@
            + spec_json_string(result) + "}"@,
    }
}

/// The comma-joined encodings of a sequence of content blocks.
pub open spec fn spec_blocks_body(blocks: Seq<ContentBlockView>) -> Seq<char>
    decreases blocks.len(),
{
    if blocks.len() == 0 {
        Seq::empty()
    } else if blocks.len() == 1 {
        spec_serialize_block(blocks.last())
    } else {
        spec_blocks_body(blocks.drop_last()) + seq![','] + spec_serialize_block(blocks.last())
    }
}

/// The canonical encoding of a list of content blocks.
pub open spec fn spec_serialize_blocks(blocks: Seq<ContentBlockView>) -> Seq<char> {
    seq!['['] + spec_blocks_body(blocks) + seq![']']
}

/// The canonical encoding of a message role.
pub open spec fn spec_serialize_role(r: Role) -> Seq<char> {
    match r {
        Role::User => "\"user\""@,
        Role::Assistant => "\"assistant\""@,
    }
}

/// The canonical encoding of one message.
pub open spec fn spec_serialize_message(m: RequestMessageView) -> Seq<char> {
    "{\"role\":"@ + spec_serialize_role(m.role) + ",\"content\":"@ + spec_serialize_blocks(
        m.content,
    ) + "}"@
}

/// The comma-joined encodings of a sequence of messages.
pub open spec fn spec_messages_body(msgs: Seq<RequestMessageView>) -> Seq<char>
    decreases msgs.len(),
{
    if msgs.len() == 0 {
        Seq::empty()
    } else if msgs.len() == 1 {
        spec_serialize_message(msgs.last())
    } else {
        spec_messages_body(msgs.drop_last()) + seq![','] + spec_serialize_message(msgs.last())
    }
}

/// The canonical encoding of the message list.
pub open spec fn spec_serialize_messages(msgs: Seq<RequestMessageView>) -> Seq<char> {
    seq!['['] + spec_messages_body(msgs) + seq![']']
}

/// An optional string field: `null` or a JSON string literal.
pub open spec fn spec_opt_json_string(o: Option<Seq<char>>) -> Seq<char> {
    match o {
        Some(s) => spec_json_string(s),
        None => "null"@,
    }
}

/// An optional unsigned field: `null` or its decimal form.
pub open spec fn spec_opt_u32(o: Option<u32>) -> Seq<char> {
    match o {
        Some(n) => spec_u64_decimal(n as nat),
        None => "null"@,
    }
}

/// An optional signed field: `null` or its decimal form.
pub open spec fn spec_opt_i32(o: Option<i32>) -> Seq<char> {
    match o {
        Some(n) => spec_i32_decimal(n as int),
        None => "null"@,
    }
}

/// The canonical encoding of a boolean field.
pub open spec fn spec_serialize_bool(b: bool) -> Seq<char> {
    if b {
        "true"@
    } else {
        "false"@
    }
}

/// The canonical encoding of the JSON-mode setting.
pub open spec fn spec_serialize_json_mode(m: ModelInferenceRequestJsonMode) -> Seq<char> {
    match m {
        ModelInferenceRequestJsonMode::Off => "\"off\""@,
        ModelInferenceRequestJsonMode::On => "\"on\""@,
        ModelInferenceRequestJsonMode::Strict => "\"strict\""@,
    }
}

/// The canonical encoding of the function kind.
pub open spec fn spec_serialize_function_type(t: FunctionType) -> Seq<char> {
    match t {
        FunctionType::Chat => "\"chat\""@,
        FunctionType::Json => "\"json\""@,
    }
}

/// Everything of the canonical request encoding that comes before the
/// streaming flag's value.
pub open spec fn spec_request_prefix(r: RequestView) -> Seq<char> {
    "{\"messages\":"@ + spec_serialize_messages(r.messages) + ",\"system\":"@
        + spec_opt_json_string(r.system) + ",\"tool_config\":"@ + spec_opt_json_string(
        r.tool_config,
    ) + ",\"temperature\":"@ + spec_opt_u32(r.temperature) + ",\"top_p\":"@ + spec_opt_u32(r.top_p)
        + ",\"presence_penalty\":"@ + spec_opt_i32(r.presence_penalty) + ",\"frequency_penalty\":"@
        + spec_opt_i32(r.frequency_penalty) + ",\"max_tokens\":"@ + spec_opt_u32(r.max_tokens)
        + ",\"seed\":"@ + spec_opt_u32(r.seed) + ",\"stream\":"@
}

/// Everything of the canonical request encoding that comes after the
/// streaming flag's value.
pub open spec fn spec_request_suffix(r: RequestView) -> Seq<char> {
    ",\"json_mode\":"@ + spec_serialize_json_mode(r.json_mode) + ",\"function_type\":"@
        + spec_serialize_function_type(r.function_type) + ",\"output_schema\":"@
        + spec_opt_json_string(r.output_schema) + "}"@
}

/// The canonical, field-order-stable encoding of a whole request.
pub open spec fn spec_serialize_request(r: RequestView) -> Seq<char> {
    spec_request_prefix(r) + spec_serialize_bool(r.stream) + spec_request_suffix(r)
}

/// Appends the canonical encoding of one content block to `out`.
fn serialize_block(b: &ContentBlock, out: &mut String)
    ensures
        final(out)@ == old(out)@ + spec_serialize_block(b@),
{
    match b {
        ContentBlock::Text { text } => {
            out.append("{\"type\":\"text\",\"text\":");
            push_json_string(text.as_str(), out);
            out.append("}");
        },
        ContentBlock::ToolCall { id, name, arguments } => {
            out.append("{\"type\":\"tool_call\",\"id\":");
            push_json_string(id.as_str(), out);
            out.append(",\"name\":");
            push_json_string(name.as_str(), out);
            out.append(",\"arguments\":");
            push_json_string(arguments.as_str(), out);
            out.append("}");
        },
        ContentBlock::ToolResult { id, name, result } => {
            out.append("{\"type\":\"tool_result\",\"id\":");
            push_json_string(id.as_str(), out);
            out.append(",\"name\":");
            push_json_string(name.as_str(), out);
            out.append(",\"result\":");
            push_json_string(result.as_str(), out);
            out.append("}");
        },
    }
    assert(out@ =~= old(out)@ + spec_serialize_block(b@));
}

/// Appends the canonical encoding of a block list to `out`.
pub fn serialize_blocks(blocks: &Vec<ContentBlock>, out: &mut String)
    ensures
        final(out)@ == old(out)@ + spec_serialize_blocks(
            blocks@.map_values(|b: ContentBlock| b@),
        ),
{
    let ghost bv = blocks@.map_values(|b: ContentBlock| b@);
    out.push('[');
    let n = blocks.len();
    let mut i: usize = 0;
    while i < n
        invariant
            i <= n == blocks@.len(),
            bv == blocks@.map_values(|b: ContentBlock| b@),
            out@ == old(out)@ + seq!['['] + spec_blocks_body(bv.take(i as int)),
        decreases n - i,
    {
        proof {
            assert(bv.take(i as int + 1).drop_last() =~= bv.take(i as int));
            assert(bv.take(i as int + 1).last() == bv[i as int]);
        }
        if i > 0 {
            out.push(',');
        }
        serialize_block(&blocks[i], out);
        assert(out@ =~= old(out)@ + seq!['['] + spec_blocks_body(bv.take(i as int + 1)));
        i = i + 1;
    }
    proof {
        assert(bv.take(n as int) =~= bv);
    }
    out.push(']');
    assert(out@ =~= old(out)@ + spec_serialize_blocks(bv));
}

/// Appends the canonical encoding of one message to `out`.
fn serialize_message(m: &RequestMessage, out: &mut String)
    ensures
        final(out)@ == old(out)@ + spec_serialize_message(m@),
{
    out.append("{\"role\":");
    match m.role {
        Role::User => out.append("\"user\""),
        Role::Assistant => out.append("\"assistant\""),
    }
    out.append(",\"content\":");
    serialize_blocks(&m.content, out);
    out.append("}");
    assert(out@ =~= old(out)@ + spec_serialize_message(m@));
}

/// Appends the canonical encoding of the message list to `out`.
fn serialize_messages(msgs: &Vec<RequestMessage>, out: &mut String)
    ensures
        final(out)@ == old(out)@ + spec_serialize_messages(
            msgs@.map_values(|m: RequestMessage| m@),
        ),
{
    let ghost mv = msgs@.map_values(|m: RequestMessage| m@);
    out.push('[');
    let n = msgs.len();
    let mut i: usize = 0;
    while i < n
        invariant
            i <= n == msgs@.len(),
            mv == msgs@.map_values(|m: RequestMessage| m@),
            out@ == old(out)@ + seq!['['] + spec_messages_body(mv.take(i as int)),
        decreases n - i,
    {
        proof {
            assert(mv.take(i as int + 1).drop_last() =~= mv.take(i as int));
            assert(mv.take(i as int + 1).last() == mv[i as int]);
        }
        if i > 0 {
            out.push(',');
        }
        serialize_message(&msgs[i], out);
        assert(out@ =~= old(out)@ + seq!['['] + spec_messages_body(mv.take(i as int + 1)));
        i = i + 1;
    }
    proof {
        assert(mv.take(n as int) =~= mv);
    }
    out.push(']');
    assert(out@ =~= old(out)@ + spec_serialize_messages(mv));
}

/// Appends `null` or a JSON string literal to `out`.
fn push_opt_json_string(o: &Option<String>, out: &mut String)
    ensures
        final(out)@ == old(out)@ + spec_opt_json_string(view_opt_string(*o)),
{
    match o {
        Some(s) => push_json_string(s.as_str(), out),
        None => out.append("null"),
    }
}

/// Appends `null` or a decimal number to `out`.
fn push_opt_u32(o: &Option<u32>, out: &mut String)
    ensures
        final(out)@ == old(out)@ + spec_opt_u32(*o),
{
    match o {
        Some(n) => {
            let d = u64_to_decimal(*n as u64);
            out.append(d.as_str());
        },
        None => out.append("null"),
    }
}

/// Appends `null` or a signed decimal number to `out`.
fn push_opt_i32(o: &Option<i32>, out: &mut String)
    ensures
        final(out)@ == old(out)@ + spec_opt_i32(*o),
{
    match o {
        Some(n) => {
            let d = i32_to_decimal(*n);
            out.append(d.as_str());
        },
        None => out.append("null"),
    }
}

/// The canonical encoding of a whole request, exactly as
/// [`spec_serialize_request`] states it.  Total: every request has a
/// canonical form.
#[verifier::rlimit(80)]
pub fn serialize_request(r: &ModelInferenceRequest) -> (s: String)
    ensures
        s@ == spec_serialize_request(r@),
{
    let mut out = String::new();
    out.append("{\"messages\":");
    serialize_messages(&r.messages, &mut out);
    out.append(",\"system\":");
    push_opt_json_string(&r.system, &mut out);
    out.append(",\"tool_config\":");
    push_opt_json_string(&r.tool_config, &mut out);
    out.append(",\"temperature\":");
    push_opt_u32(&r.temperature, &mut out);
    out.append(",\"top_p\":");
    push_opt_u32(&r.top_p, &mut out);
    out.append(",\"presence_penalty\":");
    push_opt_i32(&r.presence_penalty, &mut out);
    out.append(",\"frequency_penalty\":");
    push_opt_i32(&r.frequency_penalty, &mut out);
    out.append(",\"max_tokens\":");
    push_opt_u32(&r.max_tokens, &mut out);
    out.append(",\"seed\":");
    push_opt_u32(&r.seed, &mut out);
    out.append(",\"stream\":");
    if r.stream {
        out.append("true");
    } else {
        out.append("false");
    }
    out.append(",\"json_mode\":");
    match r.json_mode {
        ModelInferenceRequestJsonMode::Off => out.append("\"off\""),
        ModelInferenceRequestJsonMode::On => out.append("\"on\""),
        ModelInferenceRequestJsonMode::Strict => out.append("\"strict\""),
    }
    out.append(",\"function_type\":");
    match r.function_type {
        FunctionType::Chat => out.append("\"chat\""),
        FunctionType::Json => out.append("\"json\""),
    }
    out.append(",\"output_schema\":");
    push_opt_json_string(&r.output_schema, &mut out);
    out.append("}");
    assert(out@ =~= spec_serialize_request(r@));
    out
}

/// Changing only the streaming flag between two otherwise-identical
/// requests changes the canonical encoding, and with it the bytes the
/// fingerprint is computed over.
pub proof fn lemma_stream_flag_sensitivity(a: RequestView, b: RequestView)
    requires
        a.stream != b.stream,
        a.messages == b.messages,
        a.system == b.system,
        a.tool_config == b.tool_config,
        a.temperature == b.temperature,
        a.top_p == b.top_p,
        a.presence_penalty == b.presence_penalty,
        a.frequency_penalty == b.frequency_penalty,
        a.max_tokens == b.max_tokens,
        a.seed == b.seed,
        a.json_mode == b.json_mode,
        a.function_type == b.function_type,
        a.output_schema == b.output_schema,
    ensures
        spec_serialize_request(a) != spec_serialize_request(b),
{
    reveal_strlit("true");
    reveal_strlit("false");
    let p = spec_request_prefix(a);
    assert(spec_request_prefix(b) == p);
    let sa = spec_serialize_request(a);
    let sb = spec_serialize_request(b);
    let i = p.len() as int;
    assert(sa[i] == spec_serialize_bool(a.stream)[0]);
    assert(sb[i] == spec_serialize_bool(b.stream)[0]);
    assert(spec_serialize_bool(true)[0] == 't');
    assert(spec_serialize_bool(false)[0] == 'f');
    assert(sa[i] != sb[i]);
}

} // verus!
