//! Messages exchanged with the model and the decoding of its streamed reply.
use vstd::prelude::*;
use crate::storage::Usage;
use crate::text::{chars_of, first_nl, lemma_first_nl_at, push_all, push_str, starts_with_chars, str_eq, string_of, sub_chars, trim, trim_chars};

verus! {

/// Where an image's bytes come from (base64 data with a media type).
#[derive(Debug, Clone)]
pub struct ImageSource {
    pub source_type: String,
    pub media_type: String,
    pub data: String,
}

/// One piece of a tool result.
#[derive(Debug, Clone)]
pub enum ToolResultContent {
    Text { text: String },
    Image { source: ImageSource },
}

/// One block of a message. Tool inputs and server tool results are kept as
/// JSON text.
#[derive(Debug, Clone)]
pub enum ContentBlock {
    Text { text: String },
    Image { source: ImageSource },
    ToolUse { id: String, name: String, input: String },
    ToolResult { tool_use_id: String, content: Vec<ToolResultContent> },
    Thinking { thinking: String, signature: String },
    RedactedThinking { data: String },
    ServerToolUse { id: String, name: String, input: String },
    WebSearchToolResult { tool_use_id: String, content: String },
    WebFetchToolResult { tool_use_id: String, content: String },
}

/// A message of the conversation, in the provider's format.
#[derive(Debug, Clone)]
pub struct Message {
    pub role: String,
    pub content: Vec<ContentBlock>,
}

/// What the streaming decoder reports while a reply arrives.
#[derive(Debug, Clone)]
pub enum StreamEvent {
    TextDelta { text: String },
    ThinkingDelta { thinking: String },
    ToolUseStart { name: String },
    MessageStop,
}

/// A decoded reply: its blocks and the token usage reported with it.
#[derive(Debug)]
pub struct ApiResult {
    pub content: Vec<ContentBlock>,
    pub usage: Usage,
}

/// Why a request to the model failed.
#[derive(Debug)]
pub enum ApiError {
    /// The HTTP request itself failed; the payload describes how.
    Request(String),
    /// The provider answered with an error message.
    Api(String),
}


/// The message of an `ApiError`.
pub open spec fn api_error_message(e: ApiError) -> Seq<char> {
    match e {
        ApiError::Request(m) => "HTTP request failed: "@ + m@,
        ApiError::Api(m) => "API error: "@ + m@,
    }
}

impl ApiError {
    /// The human-readable message of this error.
    pub fn message(&self) -> (r: String)
        ensures
            r@ == api_error_message(*self),
    {
        let (mut r, m) = match self {
            ApiError::Request(m) => (String::from_str("HTTP request failed: "), m),
            ApiError::Api(m) => (String::from_str("API error: "), m),
        };
        r.append(m.as_str());
        r
    }
}

/// The contents of an image source.
pub struct ImageSourceView {
    pub source_type: Seq<char>,
    pub media_type: Seq<char>,
    pub data: Seq<char>,
}

/// The contents of a tool-result piece.
pub enum ToolResultContentView {
    Text(Seq<char>),
    Image(ImageSourceView),
}

/// The contents of a content block.
pub enum BlockView {
    Text(Seq<char>),
    Image(ImageSourceView),
    ToolUse(Seq<char>, Seq<char>, Seq<char>),
    ToolResult(Seq<char>, Seq<ToolResultContentView>),
    Thinking(Seq<char>, Seq<char>),
    RedactedThinking(Seq<char>),
    ServerToolUse(Seq<char>, Seq<char>, Seq<char>),
    WebSearchToolResult(Seq<char>, Seq<char>),
    WebFetchToolResult(Seq<char>, Seq<char>),
}

impl View for ImageSource {
    type V = ImageSourceView;

    open spec fn view(&self) -> ImageSourceView {
        ImageSourceView { source_type: self.source_type@, media_type: self.media_type@, data: self.data@ }
    }
}

impl View for ToolResultContent {
    type V = ToolResultContentView;

    open spec fn view(&self) -> ToolResultContentView {
        match self {
            ToolResultContent::Text { text } => ToolResultContentView::Text(text@),
            ToolResultContent::Image { source } => ToolResultContentView::Image(source@),
        }
    }
}

/// The contents of a sequence of tool-result pieces.
pub open spec fn results_view(v: Seq<ToolResultContent>) -> Seq<ToolResultContentView> {
    v.map_values(|c: ToolResultContent| c@)
}

impl View for ContentBlock {
    type V = BlockView;

    open spec fn view(&self) -> BlockView {
        match self {
            ContentBlock::Text { text } => BlockView::Text(text@),
            ContentBlock::Image { source } => BlockView::Image(source@),
            ContentBlock::ToolUse { id, name, input } => BlockView::ToolUse(id@, name@, input@),
            ContentBlock::ToolResult { tool_use_id, content } => BlockView::ToolResult(
                tool_use_id@,
                results_view(content@),
            ),
            ContentBlock::Thinking { thinking, signature } => BlockView::Thinking(thinking@, signature@),
            ContentBlock::RedactedThinking { data } => BlockView::RedactedThinking(data@),
            ContentBlock::ServerToolUse { id, name, input } => BlockView::ServerToolUse(
                id@,
                name@,
                input@,
            ),
            ContentBlock::WebSearchToolResult { tool_use_id, content } => BlockView::WebSearchToolResult(
                tool_use_id@,
                content@,
            ),
            ContentBlock::WebFetchToolResult { tool_use_id, content } => BlockView::WebFetchToolResult(
                tool_use_id@,
                content@,
            ),
        }
    }
}

/// The contents of a sequence of blocks.
pub open spec fn blocks_view(v: Seq<ContentBlock>) -> Seq<BlockView> {
    v.map_values(|b: ContentBlock| b@)
}

/// The contents of a stream event.
pub enum StreamEventView {
    TextDelta(Seq<char>),
    ThinkingDelta(Seq<char>),
    ToolUseStart(Seq<char>),
    MessageStop,
}

impl View for StreamEvent {
    type V = StreamEventView;

    open spec fn view(&self) -> StreamEventView {
        match self {
            StreamEvent::TextDelta { text } => StreamEventView::TextDelta(text@),
            StreamEvent::ThinkingDelta { thinking } => StreamEventView::ThinkingDelta(thinking@),
            StreamEvent::ToolUseStart { name } => StreamEventView::ToolUseStart(name@),
            StreamEvent::MessageStop => StreamEventView::MessageStop,
        }
    }
}

/// Whether a text parses as JSON, as `serde_json::from_str::<Value>` decides.
pub uninterp spec fn valid_json(s: Seq<char>) -> bool;

/// Whether `s` is a JSON document (wraps `serde_json::from_str` into a
/// `serde_json::Value`; the answer is named by `valid_json`).
#[verifier::external_body]
fn json_is_valid(s: &str) -> (r: bool)
    ensures
        r == valid_json(s@),
{
    serde_json::from_str::<serde_json::Value>(s).is_ok()
}

/// Input tokens reported at the start of a reply; a field that is absent
/// or not an unsigned integer reads as `None`.
#[derive(Debug, Clone)]
pub struct UsageReport {
    pub input_tokens: Option<u64>,
    pub cache_creation_input_tokens: Option<u64>,
    pub cache_read_input_tokens: Option<u64>,
}

/// The `content_block` of a `content_block_start` event.
#[derive(Debug, Clone)]
pub struct BlockStart {
    /// The block's `type`, empty when absent.
    pub block_type: String,
    pub id: Option<String>,
    pub name: Option<String>,
    pub tool_use_id: Option<String>,
    /// The block's `content` as JSON text, if present.
    pub content: Option<String>,
}

/// The `delta` of a `content_block_delta` event.
#[derive(Debug, Clone)]
pub struct BlockDelta {
    /// The delta's `type`, empty when absent.
    pub delta_type: String,
    pub thinking: Option<String>,
    pub signature: Option<String>,
    pub text: Option<String>,
    pub partial_json: Option<String>,
}

/// One server-sent event of a streamed reply, by its `type`.
#[derive(Debug, Clone)]
pub enum SseEvent {
    /// `message_start`, with `message.usage` if present.
    MessageStart { usage: Option<UsageReport> },
    /// `message_delta`; `usage` is present when the event has a `usage`
    /// object, and holds its `output_tokens`.
    MessageDelta { usage: Option<Option<u64>> },
    /// `content_block_start` at `index` (0 when absent).
    ContentBlockStart { index: usize, block: Option<BlockStart> },
    /// `content_block_delta` at `index` (0 when absent).
    ContentBlockDelta { index: usize, delta: Option<BlockDelta> },
    /// `content_block_stop` at `index` (0 when absent).
    ContentBlockStop { index: usize },
    /// `message_stop`.
    MessageStop,
    /// Any other event type.
    Other,
}

/// The `content_block` of an event as its JSON holds it; each field is
/// `None` when absent or not a string.
#[derive(Debug, Clone)]
pub struct BlockFields {
    pub block_type: Option<String>,
    pub id: Option<String>,
    pub name: Option<String>,
    pub tool_use_id: Option<String>,
    /// The block's `content` as JSON text, if present.
    pub content: Option<String>,
}

/// The `delta` of an event as its JSON holds it; each field is `None` when
/// absent or not a string.
#[derive(Debug, Clone)]
pub struct DeltaFields {
    pub delta_type: Option<String>,
    pub thinking: Option<String>,
    pub signature: Option<String>,
    pub text: Option<String>,
    pub partial_json: Option<String>,
}

/// The fields of one streamed event as its JSON holds them: each is `None`
/// when absent or not of the expected JSON type.
#[derive(Debug, Clone)]
pub struct SseFields {
    /// `type`.
    pub event_type: Option<String>,
    /// `index`, when an unsigned integer.
    pub index: Option<u64>,
    /// `message.usage`, when the event has such an object.
    pub message_usage: Option<UsageReport>,
    /// `usage`, when the event has one: its `output_tokens`.
    pub usage: Option<Option<u64>>,
    pub content_block: Option<BlockFields>,
    pub delta: Option<DeltaFields>,
}

/// A string field's contents, or the empty string.
pub open spec fn text_or_empty(o: Option<String>) -> Seq<char> {
    match o {
        Some(s) => s@,
        None => Seq::<char>::empty(),
    }
}

/// The event `f` describes: chosen by its `type` (another or a missing
/// type is `Other`); a missing `index` is 0, and a missing block or delta
/// type is empty.
pub open spec fn sse_event_matches(f: SseFields, r: SseEvent) -> bool {
    let index: usize = match f.index {
        Some(i) => i as usize,
        None => 0,
    };
    let t = text_or_empty(f.event_type);
    if t == "message_start"@ {
        r == SseEvent::MessageStart { usage: f.message_usage }
    } else if t == "message_delta"@ {
        r == SseEvent::MessageDelta { usage: f.usage }
    } else if t == "content_block_start"@ {
        &&& r matches SseEvent::ContentBlockStart { index: i, block: b }
        &&& i == index
        &&& match f.content_block {
            Some(c) => b matches Some(bs) && bs.block_type@ == text_or_empty(c.block_type) && bs.id == c.id
                && bs.name == c.name && bs.tool_use_id == c.tool_use_id && bs.content == c.content,
            None => b is None,
        }
    } else if t == "content_block_delta"@ {
        &&& r matches SseEvent::ContentBlockDelta { index: i, delta: d }
        &&& i == index
        &&& match f.delta {
            Some(c) => d matches Some(ds) && ds.delta_type@ == text_or_empty(c.delta_type)
                && ds.thinking == c.thinking && ds.signature == c.signature && ds.text == c.text
                && ds.partial_json == c.partial_json,
            None => d is None,
        }
    } else if t == "content_block_stop"@ {
        r == SseEvent::ContentBlockStop { index }
    } else if t == "message_stop"@ {
        r matches SseEvent::MessageStop
    } else {
        r matches SseEvent::Other
    }
}

fn string_or_empty(o: Option<String>) -> (r: String)
    ensures
        r@ == text_or_empty(o),
{
    match o {
        Some(s) => s,
        None => String::new(),
    }
}

/// The event that a streamed event's fields describe.
pub fn sse_event(f: SseFields) -> (r: SseEvent)
    ensures
        sse_event_matches(f, r),
{
    let index: usize = match f.index {
        Some(i) => i as usize,
        None => 0,
    };
    let t = string_or_empty(f.event_type);
    if str_eq(t.as_str(), "message_start") {
        SseEvent::MessageStart { usage: f.message_usage }
    } else if str_eq(t.as_str(), "message_delta") {
        SseEvent::MessageDelta { usage: f.usage }
    } else if str_eq(t.as_str(), "content_block_start") {
        let block = match f.content_block {
            Some(c) => Some(BlockStart {
                block_type: string_or_empty(c.block_type),
                id: c.id,
                name: c.name,
                tool_use_id: c.tool_use_id,
                content: c.content,
            }),
            None => None,
        };
        SseEvent::ContentBlockStart { index, block }
    } else if str_eq(t.as_str(), "content_block_delta") {
        let delta = match f.delta {
            Some(c) => Some(BlockDelta {
                delta_type: string_or_empty(c.delta_type),
                thinking: c.thinking,
                signature: c.signature,
                text: c.text,
                partial_json: c.partial_json,
            }),
            None => None,
        };
        SseEvent::ContentBlockDelta { index, delta }
    } else if str_eq(t.as_str(), "content_block_stop") {
        SseEvent::ContentBlockStop { index }
    } else if str_eq(t.as_str(), "message_stop") {
        SseEvent::MessageStop
    } else {
        SseEvent::Other
    }
}

/// The entry `i` of `v`, or `d` past its end.
pub open spec fn at(v: Seq<String>, i: int, d: Seq<char>) -> Seq<char> {
    if 0 <= i < v.len() {
        v[i]@
    } else {
        d
    }
}

/// What the decoder has gathered for the block at one index.
pub struct SlotView {
    pub block_type: Seq<char>,
    pub text: Seq<char>,
    pub thinking: Seq<char>,
    pub signature: Seq<char>,
    pub tool_json: Seq<char>,
    pub tool_id: Seq<char>,
    pub tool_name: Seq<char>,
    pub server_content: Seq<char>,
}

/// A string option's contents, or `d`.
pub open spec fn or_default(o: Option<String>, d: Seq<char>) -> Seq<char> {
    match o {
        Some(s) => s@,
        None => d,
    }
}

/// A token count as the decoder stores it: absent counts are 0, and the
/// value is cut to 32 bits as an `as u32` cast does.
pub open spec fn count32(o: Option<u64>) -> u32 {
    match o {
        Some(n) => n as u32,
        None => 0,
    }
}

/// The slot at `j` after `ev`, given the slot before.
pub open spec fn step_slot(s: SlotView, ev: SseEvent, j: int) -> SlotView {
    match ev {
        SseEvent::ContentBlockStart { index, block: Some(b) } => if j == index {
            let bt = b.block_type@;
            if bt == "tool_use"@ || bt == "server_tool_use"@ {
                SlotView {
                    block_type: bt,
                    tool_id: or_default(b.id, ""@),
                    tool_name: or_default(b.name, ""@),
                    ..s
                }
            } else if bt == "web_search_tool_result"@ || bt == "web_fetch_tool_result"@ {
                SlotView {
                    block_type: bt,
                    tool_id: or_default(b.tool_use_id, ""@),
                    tool_name: ""@,
                    server_content: or_default(b.content, s.server_content),
                    ..s
                }
            } else {
                SlotView { block_type: bt, ..s }
            }
        } else {
            s
        },
        SseEvent::ContentBlockDelta { index, delta: Some(d) } => if j == index {
            let dt = d.delta_type@;
            if dt == "thinking_delta"@ && d.thinking is Some {
                SlotView { thinking: s.thinking + d.thinking.unwrap()@, ..s }
            } else if dt == "signature_delta"@ && d.signature is Some {
                SlotView { signature: s.signature + d.signature.unwrap()@, ..s }
            } else if dt == "text_delta"@ && d.text is Some {
                SlotView { text: s.text + d.text.unwrap()@, ..s }
            } else if dt == "input_json_delta"@ && d.partial_json is Some {
                SlotView { tool_json: s.tool_json + d.partial_json.unwrap()@, ..s }
            } else {
                s
            }
        } else {
            s
        },
        _ => s,
    }
}

/// The input a finished tool block carries: its JSON text, or `{}` when
/// that is empty or not valid JSON.
pub open spec fn tool_input(json: Seq<char>) -> Seq<char> {
    if json.len() == 0 || !valid_json(json) {
        "{}"@
    } else {
        json
    }
}

/// The block a `content_block_stop` completes, from the slot's contents.
pub open spec fn completed_block(s: SlotView) -> Option<BlockView> {
    let bt = s.block_type;
    if bt == "thinking"@ {
        if s.thinking.len() != 0 {
            Some(BlockView::Thinking(s.thinking, s.signature))
        } else {
            None
        }
    } else if bt == "text"@ {
        if s.text.len() != 0 {
            Some(BlockView::Text(s.text))
        } else {
            None
        }
    } else if bt == "tool_use"@ {
        if s.tool_id.len() != 0 {
            Some(BlockView::ToolUse(s.tool_id, s.tool_name, tool_input(s.tool_json)))
        } else {
            None
        }
    } else if bt == "server_tool_use"@ {
        if s.tool_id.len() != 0 {
            Some(BlockView::ServerToolUse(s.tool_id, s.tool_name, tool_input(s.tool_json)))
        } else {
            None
        }
    } else if bt == "web_search_tool_result"@ {
        Some(BlockView::WebSearchToolResult(s.tool_id, s.server_content))
    } else if bt == "web_fetch_tool_result"@ {
        Some(BlockView::WebFetchToolResult(s.tool_id, s.server_content))
    } else {
        None
    }
}

/// The slot at `j` after the events `evs`, one after the other.
pub open spec fn slot_after(s: SlotView, evs: Seq<SseEvent>, j: int) -> SlotView
    decreases evs.len(),
{
    if evs.len() == 0 {
        s
    } else {
        step_slot(slot_after(s, evs.drop_last(), j), evs.last(), j)
    }
}

/// The thinking text streamed for block `j`: the texts of its
/// `thinking_delta` events, in order.
pub open spec fn streamed_thinking(evs: Seq<SseEvent>, j: int) -> Seq<char>
    decreases evs.len(),
{
    if evs.len() == 0 {
        Seq::empty()
    } else {
        streamed_thinking(evs.drop_last(), j) + match evs.last() {
            SseEvent::ContentBlockDelta { index, delta: Some(d) } => if index == j && d.delta_type@
                == "thinking_delta"@ && d.thinking is Some {
                d.thinking.unwrap()@
            } else {
                Seq::empty()
            },
            _ => Seq::empty(),
        }
    }
}

/// The signature streamed for block `j`: the texts of its
/// `signature_delta` events, in order.
pub open spec fn streamed_signature(evs: Seq<SseEvent>, j: int) -> Seq<char>
    decreases evs.len(),
{
    if evs.len() == 0 {
        Seq::empty()
    } else {
        streamed_signature(evs.drop_last(), j) + match evs.last() {
            SseEvent::ContentBlockDelta { index, delta: Some(d) } => if index == j && d.delta_type@
                == "signature_delta"@ && d.signature is Some {
                d.signature.unwrap()@
            } else {
                Seq::empty()
            },
            _ => Seq::empty(),
        }
    }
}

/// The text streamed for block `j`: the texts of its `text_delta` events,
/// in order.
pub open spec fn streamed_text(evs: Seq<SseEvent>, j: int) -> Seq<char>
    decreases evs.len(),
{
    if evs.len() == 0 {
        Seq::empty()
    } else {
        streamed_text(evs.drop_last(), j) + match evs.last() {
            SseEvent::ContentBlockDelta { index, delta: Some(d) } => if index == j && d.delta_type@
                == "text_delta"@ && d.text is Some {
                d.text.unwrap()@
            } else {
                Seq::empty()
            },
            _ => Seq::empty(),
        }
    }
}

/// Deltas add to the thinking, the signature and the text of their block
/// exactly what they stream, and leave the block's type alone.
proof fn lemma_deltas_gather(s: SlotView, evs: Seq<SseEvent>, j: int)
    requires
        forall|k: int| 0 <= k < evs.len() ==> #[trigger] evs[k] is ContentBlockDelta,
    ensures
        slot_after(s, evs, j).thinking == s.thinking + streamed_thinking(evs, j),
        slot_after(s, evs, j).signature == s.signature + streamed_signature(evs, j),
        slot_after(s, evs, j).text == s.text + streamed_text(evs, j),
        slot_after(s, evs, j).block_type == s.block_type,
    decreases evs.len(),
{
    if evs.len() > 0 {
        let pre = evs.drop_last();
        assert forall|k: int| 0 <= k < pre.len() implies #[trigger] pre[k] is ContentBlockDelta by {
            assert(pre[k] == evs[k]);
        }
        lemma_deltas_gather(s, pre, j);
        assert(evs[evs.len() - 1] is ContentBlockDelta);
        reveal_strlit("thinking_delta");
        reveal_strlit("signature_delta");
        reveal_strlit("text_delta");
        assert("thinking_delta"@ != "signature_delta"@) by {
            assert("thinking_delta"@[0] != "signature_delta"@[0]);
        }
        assert("text_delta"@ != "signature_delta"@ && "text_delta"@ != "thinking_delta"@) by {
            assert("text_delta"@[0] != "signature_delta"@[0]);
            assert("text_delta"@.len() != "thinking_delta"@.len());
        }
        let x = match evs.last() {
            SseEvent::ContentBlockDelta { index, delta: Some(d) } => if index == j && d.delta_type@
                == "thinking_delta"@ && d.thinking is Some {
                d.thinking.unwrap()@
            } else {
                Seq::empty()
            },
            _ => Seq::empty(),
        };
        let y = match evs.last() {
            SseEvent::ContentBlockDelta { index, delta: Some(d) } => if index == j && d.delta_type@
                == "signature_delta"@ && d.signature is Some {
                d.signature.unwrap()@
            } else {
                Seq::empty()
            },
            _ => Seq::empty(),
        };
        assert(s.thinking + streamed_thinking(pre, j) + x =~= s.thinking + (streamed_thinking(pre, j) + x));
        assert(s.signature + streamed_signature(pre, j) + y =~= s.signature + (streamed_signature(pre, j) + y));
        let t = slot_after(s, pre, j);
        let z = match evs.last() {
            SseEvent::ContentBlockDelta { index, delta: Some(d) } => if index == j && d.delta_type@
                == "text_delta"@ && d.text is Some {
                d.text.unwrap()@
            } else {
                Seq::empty()
            },
            _ => Seq::empty(),
        };
        assert(s.text + streamed_text(pre, j) + z =~= s.text + (streamed_text(pre, j) + z));
        assert(t.thinking + Seq::<char>::empty() =~= t.thinking);
        assert(t.signature + Seq::<char>::empty() =~= t.signature);
        assert(t.text + Seq::<char>::empty() =~= t.text);
    }
}

/// A thinking block keeps what was streamed for it: once a block is
/// started as `thinking` at index `j` and its deltas have arrived, stopping
/// it completes a thinking block whose text is the streamed thinking and
/// whose signature is the streamed signature, each after what the slot
/// already held (nothing, for a fresh decoder); a block with no thinking
/// text completes nothing.
pub proof fn lemma_thinking_block(s: SlotView, j: int, b: BlockStart, evs: Seq<SseEvent>)
    requires
        b.block_type@ == "thinking"@,
        forall|k: int| 0 <= k < evs.len() ==> #[trigger] evs[k] is ContentBlockDelta,
        0 <= j,
        j <= usize::MAX,
    ensures
        ({
            let t = slot_after(step_slot(s, SseEvent::ContentBlockStart { index: j as usize, block: Some(b) }, j), evs, j);
            let thinking = s.thinking + streamed_thinking(evs, j);
            let signature = s.signature + streamed_signature(evs, j);
            completed_block(t) == if thinking.len() > 0 {
                Some(BlockView::Thinking(thinking, signature))
            } else {
                None
            }
        }),
{
    reveal_strlit("thinking");
    reveal_strlit("tool_use");
    reveal_strlit("server_tool_use");
    reveal_strlit("web_search_tool_result");
    reveal_strlit("web_fetch_tool_result");
    let s1 = step_slot(s, SseEvent::ContentBlockStart { index: j as usize, block: Some(b) }, j);
    assert(s1.block_type == "thinking"@);
    assert(s1.thinking == s.thinking && s1.signature == s.signature);
    lemma_deltas_gather(s1, evs, j);
}

/// A text block keeps what was streamed for it: once a block is started as
/// `text` at index `j` and its deltas have arrived, stopping it completes a
/// text block holding the streamed text after what the slot already held;
/// a block with no text completes nothing.
pub proof fn lemma_text_block(s: SlotView, j: int, b: BlockStart, evs: Seq<SseEvent>)
    requires
        b.block_type@ == "text"@,
        forall|k: int| 0 <= k < evs.len() ==> #[trigger] evs[k] is ContentBlockDelta,
        0 <= j,
        j <= usize::MAX,
    ensures
        ({
            let t = slot_after(step_slot(s, SseEvent::ContentBlockStart { index: j as usize, block: Some(b) }, j), evs, j);
            let text = s.text + streamed_text(evs, j);
            completed_block(t) == if text.len() > 0 {
                Some(BlockView::Text(text))
            } else {
                None
            }
        }),
{
    reveal_strlit("text");
    reveal_strlit("thinking");
    reveal_strlit("tool_use");
    reveal_strlit("server_tool_use");
    reveal_strlit("web_search_tool_result");
    reveal_strlit("web_fetch_tool_result");
    assert("text"@ != "thinking"@) by {
        assert("text"@.len() != "thinking"@.len());
    }
    let s1 = step_slot(s, SseEvent::ContentBlockStart { index: j as usize, block: Some(b) }, j);
    assert(s1.block_type == "text"@);
    assert(s1.text == s.text);
    lemma_deltas_gather(s1, evs, j);
}

/// The usage after `ev`.
pub open spec fn step_usage(u: Usage, ev: SseEvent) -> Usage {
    match ev {
        SseEvent::MessageStart { usage: Some(r) } => Usage {
            input_tokens: count32(r.input_tokens),
            cache_creation_input_tokens: count32(r.cache_creation_input_tokens),
            cache_read_input_tokens: count32(r.cache_read_input_tokens),
            ..u
        },
        SseEvent::MessageDelta { usage: Some(o) } => Usage { output_tokens: count32(o), ..u },
        _ => u,
    }
}

/// The event reported to listeners for `ev`.
pub open spec fn reported(ev: SseEvent) -> Option<StreamEventView> {
    match ev {
        SseEvent::ContentBlockStart { index, block: Some(b) } => {
            let bt = b.block_type@;
            if bt == "tool_use"@ || bt == "server_tool_use"@ {
                Some(StreamEventView::ToolUseStart(or_default(b.name, ""@)))
            } else {
                None
            }
        },
        SseEvent::ContentBlockDelta { index, delta: Some(d) } => {
            let dt = d.delta_type@;
            if dt == "thinking_delta"@ && d.thinking is Some {
                Some(StreamEventView::ThinkingDelta(d.thinking.unwrap()@))
            } else if dt == "text_delta"@ && d.text is Some {
                Some(StreamEventView::TextDelta(d.text.unwrap()@))
            } else {
                None
            }
        },
        SseEvent::MessageStop => Some(StreamEventView::MessageStop),
        _ => None,
    }
}

/// Gathers the blocks and usage of a streamed reply, event by event.
pub struct StreamDecoder {
    pub block_types: Vec<String>,
    pub texts: Vec<String>,
    pub thinkings: Vec<String>,
    pub signatures: Vec<String>,
    pub tool_jsons: Vec<String>,
    pub tool_ids: Vec<String>,
    pub tool_names: Vec<String>,
    pub server_contents: Vec<String>,
    /// Blocks completed so far, in the order they were completed.
    pub blocks: Vec<ContentBlock>,
    pub usage: Usage,
}

/// Grows `v` with `d` until index `i` exists.
fn grow(v: &mut Vec<String>, i: usize, d: &str)
    ensures
        final(v)@.len() > i,
        forall|j: int| at(final(v)@, j, d@) == at(old(v)@, j, d@),
{
    while v.len() <= i
        invariant
            forall|j: int| at(v@, j, d@) == at(old(v)@, j, d@),
        decreases i + 1 - v@.len(),
    {
        v.push(String::from_str(d));
    }
}

/// Appends `x` to entry `i` of `v` (growing it with `d` first).
fn append_at(v: &mut Vec<String>, i: usize, d: &str, x: &str)
    ensures
        forall|j: int| j != i ==> at(final(v)@, j, d@) == at(old(v)@, j, d@),
        at(final(v)@, i as int, d@) == at(old(v)@, i as int, d@) + x@,
{
    grow(v, i, d);
    let mut e = v[i].clone();
    e.append(x);
    v.set(i, e);
}

/// Sets entry `i` of `v` to `x` (growing it with `d` first).
fn put_at(v: &mut Vec<String>, i: usize, d: &str, x: String)
    ensures
        forall|j: int| j != i ==> at(final(v)@, j, d@) == at(old(v)@, j, d@),
        at(final(v)@, i as int, d@) == x@,
{
    grow(v, i, d);
    v.set(i, x);
}

/// Entry `i` of `v`, or `d` past its end.
fn get_at(v: &Vec<String>, i: usize, d: &str) -> (r: String)
    ensures
        r@ == at(v@, i as int, d@),
{
    if i < v.len() {
        v[i].clone()
    } else {
        String::from_str(d)
    }
}

fn opt_or(o: &Option<String>, d: &str) -> (r: String)
    ensures
        r@ == or_default(*o, d@),
{
    match o {
        Some(s) => s.clone(),
        None => String::from_str(d),
    }
}

impl StreamDecoder {
    /// The contents gathered for the block at index `i`.
    pub open spec fn slot(&self, i: int) -> SlotView {
        SlotView {
            block_type: at(self.block_types@, i, ""@),
            text: at(self.texts@, i, ""@),
            thinking: at(self.thinkings@, i, ""@),
            signature: at(self.signatures@, i, ""@),
            tool_json: at(self.tool_jsons@, i, ""@),
            tool_id: at(self.tool_ids@, i, ""@),
            tool_name: at(self.tool_names@, i, ""@),
            server_content: at(self.server_contents@, i, "null"@),
        }
    }

    /// A decoder that has seen nothing.
    pub fn new() -> (r: Self)
        ensures
            forall|i: int| r.slot(i) == (SlotView {
                block_type: ""@,
                text: ""@,
                thinking: ""@,
                signature: ""@,
                tool_json: ""@,
                tool_id: ""@,
                tool_name: ""@,
                server_content: "null"@,
            }),
            r.blocks@.len() == 0,
            r.usage == (Usage {
                input_tokens: 0,
                output_tokens: 0,
                cache_creation_input_tokens: 0,
                cache_read_input_tokens: 0,
            }),
    {
        StreamDecoder {
            block_types: Vec::new(),
            texts: Vec::new(),
            thinkings: Vec::new(),
            signatures: Vec::new(),
            tool_jsons: Vec::new(),
            tool_ids: Vec::new(),
            tool_names: Vec::new(),
            server_contents: Vec::new(),
            blocks: Vec::new(),
            usage: Usage { input_tokens: 0, output_tokens: 0, cache_creation_input_tokens: 0, cache_read_input_tokens: 0 },
        }
    }

    /// Takes in one event: updates what is gathered per block, completes a
    /// block on `content_block_stop`, records usage, and returns the event
    /// to report to listeners, if any.
    pub fn apply(&mut self, ev: SseEvent) -> (r: Option<StreamEvent>)
        ensures
            forall|j: int| final(self).slot(j) == step_slot(old(self).slot(j), ev, j),
            final(self).usage == step_usage(old(self).usage, ev),
            blocks_view(final(self).blocks@) == match ev {
                SseEvent::ContentBlockStop { index } => match completed_block(old(self).slot(index as int)) {
                    Some(b) => blocks_view(old(self).blocks@).push(b),
                    None => blocks_view(old(self).blocks@),
                },
                _ => blocks_view(old(self).blocks@),
            },
            match r {
                Some(e) => reported(ev) == Some(e@),
                None => reported(ev) is None,
            },
    {
        match ev {
            SseEvent::MessageStart { usage } => {
                if let Some(u) = usage {
                    self.usage.input_tokens = match u.input_tokens { Some(n) => n as u32, None => 0 };
                    self.usage.cache_creation_input_tokens = match u.cache_creation_input_tokens { Some(n) => n as u32, None => 0 };
                    self.usage.cache_read_input_tokens = match u.cache_read_input_tokens { Some(n) => n as u32, None => 0 };
                }
                None
            },
            SseEvent::MessageDelta { usage } => {
                if let Some(o) = usage {
                    self.usage.output_tokens = match o { Some(n) => n as u32, None => 0 };
                }
                None
            },
            SseEvent::ContentBlockStart { index, block } => {
                match block {
                    None => None,
                    Some(b) => self.start_block(index, b),
                }
            },
            SseEvent::ContentBlockDelta { index, delta } => {
                match delta {
                    None => None,
                    Some(d) => self.delta_block(index, d),
                }
            },
            SseEvent::ContentBlockStop { index } => {
                self.stop_block(index);
                None
            },
            SseEvent::MessageStop => Some(StreamEvent::MessageStop),
            SseEvent::Other => None,
        }
    }

    fn start_block(&mut self, index: usize, b: BlockStart) -> (r: Option<StreamEvent>)
        ensures
            forall|j: int| final(self).slot(j) == step_slot(old(self).slot(j), SseEvent::ContentBlockStart { index, block: Some(b) }, j),
            final(self).usage == old(self).usage,
            final(self).blocks == old(self).blocks,
            match r {
                Some(e) => reported(SseEvent::ContentBlockStart { index, block: Some(b) }) == Some(e@),
                None => reported(SseEvent::ContentBlockStart { index, block: Some(b) }) is None,
            },
    {
        let ghost old_self = *self;
        grow(&mut self.texts, index, "");
        grow(&mut self.thinkings, index, "");
        grow(&mut self.signatures, index, "");
        grow(&mut self.tool_jsons, index, "");
        grow(&mut self.tool_ids, index, "");
        grow(&mut self.tool_names, index, "");
        let bt = b.block_type.as_str();
        let is_tool = str_eq(bt, "tool_use") || str_eq(bt, "server_tool_use");
        let is_result = str_eq(bt, "web_search_tool_result") || str_eq(bt, "web_fetch_tool_result");
        put_at(&mut self.block_types, index, "", b.block_type.clone());
        if is_tool {
            put_at(&mut self.tool_ids, index, "", opt_or(&b.id, ""));
            let name = opt_or(&b.name, "");
            put_at(&mut self.tool_names, index, "", name.clone());
            return Some(StreamEvent::ToolUseStart { name });
        } else if is_result {
            put_at(&mut self.tool_ids, index, "", opt_or(&b.tool_use_id, ""));
            put_at(&mut self.tool_names, index, "", String::from_str(""));
            grow(&mut self.server_contents, index, "null");
            if let Some(c) = &b.content {
                put_at(&mut self.server_contents, index, "null", c.clone());
            }
        }
        None
    }

    fn delta_block(&mut self, index: usize, d: BlockDelta) -> (r: Option<StreamEvent>)
        ensures
            forall|j: int| final(self).slot(j) == step_slot(old(self).slot(j), SseEvent::ContentBlockDelta { index, delta: Some(d) }, j),
            final(self).usage == old(self).usage,
            final(self).blocks == old(self).blocks,
            match r {
                Some(e) => reported(SseEvent::ContentBlockDelta { index, delta: Some(d) }) == Some(e@),
                None => reported(SseEvent::ContentBlockDelta { index, delta: Some(d) }) is None,
            },
    {
        proof {
            broadcast use vstd::string::group_string_axioms;
            reveal_strlit("thinking_delta");
            reveal_strlit("signature_delta");
            reveal_strlit("text_delta");
            reveal_strlit("input_json_delta");
            assert("text_delta"@.len() == 10);
            assert("signature_delta"@.len() == 15);
            assert("input_json_delta"@.len() == 16);
            assert("thinking_delta"@.len() == 14);
        }
        let dt = d.delta_type.as_str();
        if str_eq(dt, "thinking_delta") && d.thinking.is_some() {
            let t = d.thinking.clone().unwrap();
            append_at(&mut self.thinkings, index, "", t.as_str());
            return Some(StreamEvent::ThinkingDelta { thinking: t });
        } else if str_eq(dt, "signature_delta") && d.signature.is_some() {
            let t = d.signature.clone().unwrap();
            append_at(&mut self.signatures, index, "", t.as_str());
            return None;
        } else if str_eq(dt, "text_delta") && d.text.is_some() {
            let t = d.text.clone().unwrap();
            append_at(&mut self.texts, index, "", t.as_str());
            return Some(StreamEvent::TextDelta { text: t });
        } else if str_eq(dt, "input_json_delta") && d.partial_json.is_some() {
            let t = d.partial_json.clone().unwrap();
            append_at(&mut self.tool_jsons, index, "", t.as_str());
            return None;
        }
        None
    }

    fn stop_block(&mut self, index: usize)
        ensures
            forall|j: int| final(self).slot(j) == old(self).slot(j),
            final(self).usage == old(self).usage,
            blocks_view(final(self).blocks@) == match completed_block(old(self).slot(index as int)) {
                Some(b) => blocks_view(old(self).blocks@).push(b),
                None => blocks_view(old(self).blocks@),
            },
    {
        let ghost before = blocks_view(self.blocks@);
        let bt = get_at(&self.block_types, index, "");
        let bt = bt.as_str();
        let block: Option<ContentBlock> = if str_eq(bt, "thinking") {
            let t = get_at(&self.thinkings, index, "");
            if t.as_str().is_empty() {
                None
            } else {
                Some(ContentBlock::Thinking { thinking: t, signature: get_at(&self.signatures, index, "") })
            }
        } else if str_eq(bt, "text") {
            let t = get_at(&self.texts, index, "");
            if t.as_str().is_empty() {
                None
            } else {
                Some(ContentBlock::Text { text: t })
            }
        } else if str_eq(bt, "tool_use") || str_eq(bt, "server_tool_use") {
            let id = get_at(&self.tool_ids, index, "");
            if id.as_str().is_empty() {
                None
            } else {
                let name = get_at(&self.tool_names, index, "");
                let json = get_at(&self.tool_jsons, index, "");
                let input = if json.as_str().is_empty() || !json_is_valid(json.as_str()) {
                    String::from_str("{}")
                } else {
                    json
                };
                if str_eq(bt, "tool_use") {
                    Some(ContentBlock::ToolUse { id, name, input })
                } else {
                    Some(ContentBlock::ServerToolUse { id, name, input })
                }
            }
        } else if str_eq(bt, "web_search_tool_result") {
            Some(ContentBlock::WebSearchToolResult {
                tool_use_id: get_at(&self.tool_ids, index, ""),
                content: get_at(&self.server_contents, index, "null"),
            })
        } else if str_eq(bt, "web_fetch_tool_result") {
            Some(ContentBlock::WebFetchToolResult {
                tool_use_id: get_at(&self.tool_ids, index, ""),
                content: get_at(&self.server_contents, index, "null"),
            })
        } else {
            None
        };
        if let Some(b) = block {
            self.blocks.push(b);
            assert(blocks_view(self.blocks@) =~= before.push(b@));
        }
    }

    /// The reply gathered so far.
    pub fn finish(self) -> (r: ApiResult)
        ensures
            r.content == self.blocks,
            r.usage == self.usage,
    {
        ApiResult { content: self.blocks, usage: self.usage }
    }
}


/// Splits off the complete lines of a stream buffer: each line up to a
/// `'\n'`, trimmed, and what remains after the last `'\n'`.
pub open spec fn drain_lines(buf: Seq<char>) -> (Seq<Seq<char>>, Seq<char>)
    decreases buf.len(),
{
    if first_nl(buf) >= buf.len() {
        (Seq::empty(), buf)
    } else {
        let k = first_nl(buf) as int;
        let rest = drain_lines(buf.skip(k + 1));
        (seq![trim(buf.take(k))] + rest.0, rest.1)
    }
}

/// The contents of a sequence of strings.
pub open spec fn strings_view(v: Seq<String>) -> Seq<Seq<char>> {
    v.map_values(|s: String| s@)
}

/// Collects the bytes of a server-sent event stream into lines.
pub struct SseLines {
    /// Characters received after the last complete line.
    pub buffer: Vec<char>,
}

impl SseLines {
    /// An empty line collector.
    pub fn new() -> (r: Self)
        ensures
            r.buffer@.len() == 0,
    {
        SseLines { buffer: Vec::new() }
    }

    /// Adds a chunk of text and returns the lines it completes, trimmed.
    pub fn push(&mut self, chunk: &str) -> (r: Vec<String>)
        ensures
            strings_view(r@) == drain_lines(old(self).buffer@ + chunk@).0,
            final(self).buffer@ == drain_lines(old(self).buffer@ + chunk@).1,
    {
        let c = chars_of(chunk);
        push_all(&mut self.buffer, &c);
        let v = &self.buffer;
        let ghost all = v@;
        let n = v.len();
        let mut out: Vec<String> = Vec::new();
        let mut start: usize = 0;
        let mut j: usize = 0;
        assert(all.subrange(0, n as int) == all);
        while j < n
            invariant
                start <= j <= n == all.len(),
                v@ == all,
                drain_lines(all).0 == strings_view(out@) + drain_lines(all.subrange(start as int, n as int)).0,
                drain_lines(all).1 == drain_lines(all.subrange(start as int, n as int)).1,
                forall|k: int| start <= k < j ==> all[k] != '\n',
            decreases n - j,
        {
            if v[j] == '\n' {
                let ghost rest = all.subrange(start as int, n as int);
                proof {
                    lemma_first_nl_at(rest, j - start);
                    assert(rest.take(j - start) == all.subrange(start as int, j as int));
                    assert(rest.skip(j - start + 1) == all.subrange(j + 1, n as int));
                }
                let piece = sub_chars(v, start, j);
                let line = string_of(&trim_chars(&piece));
                let ghost before = out@;
                out.push(line);
                proof {
                    assert(strings_view(out@) == strings_view(before).push(line@));
                    assert(strings_view(before) + drain_lines(rest).0 == strings_view(out@)
                        + drain_lines(all.subrange(j + 1, n as int)).0);
                }
                start = j + 1;
            }
            j = j + 1;
        }
        proof {
            lemma_first_nl_at(all.subrange(start as int, n as int), n - start);
        }
        let rest = sub_chars(&self.buffer, start, n);
        self.buffer = rest;
        out
    }
}

/// Draining a buffer with more text after it first drains the buffer, then
/// what was left of it together with the new text.
pub proof fn lemma_drain_concat(s: Seq<char>, t: Seq<char>)
    ensures
        drain_lines(s + t) == (drain_lines(s).0 + drain_lines(drain_lines(s).1 + t).0, drain_lines(
            drain_lines(s).1 + t,
        ).1),
    decreases s.len(),
{
    crate::text::lemma_first_nl_bound(s);
    if first_nl(s) >= s.len() {
        assert(drain_lines(s).0 =~= Seq::<Seq<char>>::empty());
        assert(drain_lines(s).0 + drain_lines(s + t).0 =~= drain_lines(s + t).0);
    } else {
        let k = first_nl(s) as int;
        assert forall|i: int| 0 <= i < k implies (s + t)[i] != '\n' by {
            crate::text::lemma_first_nl_bound(s);
            assert((s + t)[i] == s[i]);
            crate::text::lemma_no_nl_before(s, i);
        }
        crate::text::lemma_nl_at_first(s);
        assert((s + t)[k] == s[k]);
        lemma_first_nl_at(s + t, k);
        assert((s + t).take(k) == s.take(k));
        assert((s + t).skip(k + 1) == s.skip(k + 1) + t);
        lemma_drain_concat(s.skip(k + 1), t);
        let rest = drain_lines(s.skip(k + 1));
        assert(seq![trim(s.take(k))] + (rest.0 + drain_lines(rest.1 + t).0) =~= (seq![trim(s.take(k))] + rest.0)
            + drain_lines(rest.1 + t).0);
    }
}

/// Feeding two chunks one after the other yields the same lines, in the
/// same order, and leaves the same buffer as feeding them at once: how the
/// stream is cut into chunks does not matter.
pub proof fn lemma_sse_chunking(buf: Seq<char>, x: Seq<char>, y: Seq<char>)
    ensures
        ({
            let first = drain_lines(buf + x);
            let second = drain_lines(first.1 + y);
            drain_lines(buf + x + y) == (first.0 + second.0, second.1)
        }),
{
    lemma_drain_concat(buf + x, y);
}

/// The payload of an event-stream line: what follows `data: `.
pub open spec fn data_payload(line: Seq<char>) -> Option<Seq<char>> {
    if "data: "@.is_prefix_of(line) {
        Some(line.skip(6))
    } else {
        None
    }
}

/// The payload of a `data: ` line, if the line is one.
pub fn sse_data(line: &str) -> (r: Option<String>)
    ensures
        match r {
            Some(d) => data_payload(line@) == Some(d@),
            None => data_payload(line@) is None,
        },
{
    proof {
        broadcast use vstd::string::group_string_axioms;
        reveal_strlit("data: ");
        assert("data: "@.len() == 6);
    }
    let l = chars_of(line);
    let p = chars_of("data: ");
    if starts_with_chars(&l, &p) {
        Some(string_of(&sub_chars(&l, 6, l.len())))
    } else {
        None
    }
}


/// The contents of a message.
pub struct MessageView {
    pub role: Seq<char>,
    pub content: Seq<BlockView>,
}

impl View for Message {
    type V = MessageView;

    open spec fn view(&self) -> MessageView {
        MessageView { role: self.role@, content: blocks_view(self.content@) }
    }
}

/// The contents of a sequence of messages.
pub open spec fn messages_view(v: Seq<Message>) -> Seq<MessageView> {
    v.map_values(|m: Message| m@)
}

/// A copy of an image source.
pub fn copy_image_source(s: &ImageSource) -> (r: ImageSource)
    ensures
        r@ == s@,
{
    ImageSource {
        source_type: s.source_type.clone(),
        media_type: s.media_type.clone(),
        data: s.data.clone(),
    }
}

/// A copy of a tool-result piece.
pub fn copy_result_content(c: &ToolResultContent) -> (r: ToolResultContent)
    ensures
        r@ == c@,
{
    match c {
        ToolResultContent::Text { text } => ToolResultContent::Text { text: text.clone() },
        ToolResultContent::Image { source } => ToolResultContent::Image { source: copy_image_source(source) },
    }
}

/// A copy of a list of tool-result pieces.
pub fn copy_results(v: &Vec<ToolResultContent>) -> (r: Vec<ToolResultContent>)
    ensures
        results_view(r@) == results_view(v@),
{
    let mut r: Vec<ToolResultContent> = Vec::new();
    let mut i: usize = 0;
    while i < v.len()
        invariant
            i <= v@.len(),
            r@.len() == i,
            forall|k: int| 0 <= k < i ==> r@[k]@ == v@[k]@,
        decreases v@.len() - i,
    {
        let c = copy_result_content(&v[i]);
        r.push(c);
        i = i + 1;
    }
    assert(results_view(r@) =~= results_view(v@));
    r
}

/// A copy of a content block.
pub fn copy_block(b: &ContentBlock) -> (r: ContentBlock)
    ensures
        r@ == b@,
{
    match b {
        ContentBlock::Text { text } => ContentBlock::Text { text: text.clone() },
        ContentBlock::Image { source } => ContentBlock::Image { source: copy_image_source(source) },
        ContentBlock::ToolUse { id, name, input } => ContentBlock::ToolUse {
            id: id.clone(),
            name: name.clone(),
            input: input.clone(),
        },
        ContentBlock::ToolResult { tool_use_id, content } => ContentBlock::ToolResult {
            tool_use_id: tool_use_id.clone(),
            content: copy_results(content),
        },
        ContentBlock::Thinking { thinking, signature } => ContentBlock::Thinking {
            thinking: thinking.clone(),
            signature: signature.clone(),
        },
        ContentBlock::RedactedThinking { data } => ContentBlock::RedactedThinking { data: data.clone() },
        ContentBlock::ServerToolUse { id, name, input } => ContentBlock::ServerToolUse {
            id: id.clone(),
            name: name.clone(),
            input: input.clone(),
        },
        ContentBlock::WebSearchToolResult { tool_use_id, content } => ContentBlock::WebSearchToolResult {
            tool_use_id: tool_use_id.clone(),
            content: content.clone(),
        },
        ContentBlock::WebFetchToolResult { tool_use_id, content } => ContentBlock::WebFetchToolResult {
            tool_use_id: tool_use_id.clone(),
            content: content.clone(),
        },
    }
}

/// A copy of a list of blocks.
pub fn copy_blocks(v: &Vec<ContentBlock>) -> (r: Vec<ContentBlock>)
    ensures
        blocks_view(r@) == blocks_view(v@),
{
    let mut r: Vec<ContentBlock> = Vec::new();
    let mut i: usize = 0;
    while i < v.len()
        invariant
            i <= v@.len(),
            r@.len() == i,
            forall|k: int| 0 <= k < i ==> r@[k]@ == v@[k]@,
        decreases v@.len() - i,
    {
        let c = copy_block(&v[i]);
        r.push(c);
        i = i + 1;
    }
    assert(blocks_view(r@) =~= blocks_view(v@));
    r
}

/// A copy of a message.
pub fn copy_message(m: &Message) -> (r: Message)
    ensures
        r@ == m@,
{
    Message { role: m.role.clone(), content: copy_blocks(&m.content) }
}

/// A copy of a list of messages.
pub fn copy_messages(v: &Vec<Message>) -> (r: Vec<Message>)
    ensures
        messages_view(r@) == messages_view(v@),
{
    let mut r: Vec<Message> = Vec::new();
    let mut i: usize = 0;
    while i < v.len()
        invariant
            i <= v@.len(),
            r@.len() == i,
            forall|k: int| 0 <= k < i ==> r@[k]@ == v@[k]@,
        decreases v@.len() - i,
    {
        let c = copy_message(&v[i]);
        r.push(c);
        i = i + 1;
    }
    assert(messages_view(r@) =~= messages_view(v@));
    r
}


/// The request that asks the model to clean up dictated text: this text,
/// the dictated text, then `REWRITE_PROMPT_TAIL`.
pub const REWRITE_PROMPT_HEAD: &'static str = r#"<context>
This is raw speech-to-text output from voice dictation. It may contain filler words, false starts, repeated phrases, incomplete thoughts, or trailing fragments from when the user released the push-to-talk key.
</context>

<instructions>
Rewrite this into clean, natural text that preserves the speaker's intent. Remove filler words (um, uh, like, you know), fix incomplete sentences, merge repeated phrases, and clean up any trailing fragments.

Output only the rewritten text. No explanations, no quotes, no prefixes.
</instructions>

<input>
"#;

/// The end of the request that cleans up dictated text.
pub const REWRITE_PROMPT_TAIL: &'static str = r#"
</input>"#;

/// Tokens the cleaned-up text may take.
pub const REWRITE_MAX_TOKENS: u32 = 1024;

/// Whether dictated text is worth cleaning up: it is not blank.
pub fn needs_rewrite(raw: &str) -> (r: bool)
    ensures
        r == (trim(raw@).len() > 0),
{
    let c = chars_of(raw);
    let t = trim_chars(&c);
    t.len() > 0
}

/// The request text for cleaning up `raw`.
pub fn rewrite_prompt(raw: &str) -> (r: String)
    ensures
        r@ == REWRITE_PROMPT_HEAD@ + raw@ + REWRITE_PROMPT_TAIL@,
{
    let mut v = chars_of(REWRITE_PROMPT_HEAD);
    push_str(&mut v, raw);
    push_str(&mut v, REWRITE_PROMPT_TAIL);
    string_of(&v)
}

/// The text of the first block whose `type` is `"text"` and that has a
/// string `text`; each block is read as its `type` and its `text`.
pub open spec fn first_text(blocks: Seq<(Option<Seq<char>>, Option<Seq<char>>)>) -> Option<Seq<char>>
    decreases blocks.len(),
{
    if blocks.len() == 0 {
        None
    } else if blocks[0].0 == Some("text"@) && blocks[0].1 is Some {
        blocks[0].1
    } else {
        first_text(blocks.drop_first())
    }
}

/// The blocks of a reply as `type` and `text` character sequences.
pub open spec fn reply_blocks_view(v: Seq<(Option<String>, Option<String>)>) -> Seq<(Option<Seq<char>>, Option<Seq<char>>)> {
    v.map_values(|b: (Option<String>, Option<String>)| (
        match b.0 {
            Some(s) => Some(s@),
            None => None,
        },
        match b.1 {
            Some(s) => Some(s@),
            None => None,
        },
    ))
}

/// The cleaned-up text from the reply's blocks: the first text block,
/// trimmed; the dictated text itself when there is none.
pub fn rewritten_text(raw: &str, blocks: &Vec<(Option<String>, Option<String>)>) -> (r: String)
    ensures
        r@ == match first_text(reply_blocks_view(blocks@)) {
            Some(t) => trim(t),
            None => raw@,
        },
{
    let ghost bv = reply_blocks_view(blocks@);
    assert(bv.skip(0) == bv);
    let mut i: usize = 0;
    while i < blocks.len()
        invariant
            i <= blocks@.len(),
            bv == reply_blocks_view(blocks@),
            first_text(bv) == first_text(bv.skip(i as int)),
        decreases blocks@.len() - i,
    {
        assert(bv.skip(i as int).drop_first() == bv.skip(i + 1));
        assert(bv.skip(i as int)[0] == bv[i as int]);
        let b = &blocks[i];
        let is_text = match &b.0 {
            Some(t) => str_eq(t.as_str(), "text"),
            None => false,
        };
        if is_text {
            if let Some(t) = &b.1 {
                let c = chars_of(t.as_str());
                let trimmed = trim_chars(&c);
                return string_of(&trimmed);
            }
        }
        i = i + 1;
    }
    assert(bv.skip(blocks@.len() as int).len() == 0);
    String::from_str(raw)
}

/// The error for a refused request: the provider's message when its body
/// carries one, else the status and the body.
pub fn error_reply(status: &str, body: &str, message: Option<String>) -> (r: ApiError)
    ensures
        match message {
            Some(m) => r == ApiError::Api(m),
            None => r matches ApiError::Api(t) && t@ == "HTTP "@ + status@ + ": "@ + body@,
        },
{
    match message {
        Some(m) => ApiError::Api(m),
        None => {
            let mut v = chars_of("HTTP ");
            push_str(&mut v, status);
            push_str(&mut v, ": ");
            push_str(&mut v, body);
            ApiError::Api(string_of(&v))
        },
    }
}

} // verus!
