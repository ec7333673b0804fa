//! Decisions of the agent turn loop.
//!
//! The loop itself awaits the provider, the tool executor and timers; every
//! decision it takes between two awaits is a function here, from the loop's
//! state and what just happened to the next state, the messages to append
//! and the events to publish.
use vstd::prelude::*;
use vstd::utf8::{encode_utf8, decode_utf8, is_char_boundary};
use vstd::string::StringSliceAdditionalSpecFns;
use crate::common::ids::new_id;
use crate::common::json::{json_normalize, spec_json_normalize};
use crate::common::message::{ContentBlock, Message, Role, StopReason, StreamEvent, TokenUsage, ToolOutput, copy_blocks, copy_messages, msgs_view, is_text_message};
use crate::common::checkpoint::PendingControl;
use crate::common::json::{json_object, json_object_of, json_str, json_string};
use crate::kernel::hooks::{Hook, HookDecision, HookEvent, HookRunner, run_spec, is_empty_pre_complete};
use crate::kernel::context::ContextPressure;
use crate::common::xml::{self, spec_wrap};
use crate::kernel::permission::{PermissionDecision, PermissionEvaluator, spec_check};
use crate::infra::metrics::{Metrics, MetricsSnapshot, wadd};
use crate::kernel::error_recovery::{
    RecoveryAction, RecoveryState, evaluate, next_state, next_kind, action_data_ok, spec_loop_control,
    LoopControl, continuation_prompt, backoff_ms, BACKOFF_BASE_MS, MAX_LOW_OUTPUT_TURNS,
    MAX_RATE_LIMIT_RETRIES, MAX_SERVER_ERROR_RETRIES, MAX_TOKEN_ESCALATIONS,
};
use crate::text::{chars_of, contains, owned, push_char, spec_to_lowercase, split_ws, str_contains, to_lowercase, cat, cat3, str_split_ws, join_strings};

verus! {

/// Run mode: governs tool availability and completion semantics.
#[derive(Clone, Copy, Debug, PartialEq, Eq, Structural)]
pub enum RunMode {
    /// Full tool access. Normal agent execution.
    Execute,
    /// Read-only tools only. The model plans before acting.
    Planning,
    /// Memory-write tools only. Background reflection mini-run.
    Reflection,
}

/// Why a turn ended.
#[derive(Clone, Debug, PartialEq, Eq)]
pub enum TurnStopReason {
    Completed,
    MaxIterations,
    Cancelled,
    ContextOverflow,
    DiminishingReturns,
    RequiresAction { request_id: String },
    PlanReview { plan: String },
    Error(String),
}

/// Default sub-agent depth limit of a fresh chain.
pub const DEFAULT_MAX_DEPTH: u32 = 5;
/// Context window assumed when none is configured.
pub const DEFAULT_CONTEXT_WINDOW_TOKENS: usize = 200_000;
/// Iteration limit of a loop configured without one.
pub const DEFAULT_MAX_ITERATIONS: u32 = 50;
/// Output token limit of a loop configured without one.
pub const DEFAULT_MAX_TOKENS: u32 = 16_384;

/// Position in the sub-agent tree.
#[derive(Clone, Debug)]
pub struct QueryChain {
    pub chain_id: String,
    /// 0 = top-level, increments with each spawn.
    pub depth: u32,
    pub max_depth: u32,
}

impl QueryChain {
    /// A fresh root chain: depth 0, a new chain id.
    pub fn root() -> (r: Self)
        ensures
            r.chain_id@.len() == 36,
            r.depth == 0,
            r.max_depth == DEFAULT_MAX_DEPTH,
    {
        QueryChain { chain_id: new_id(), depth: 0, max_depth: DEFAULT_MAX_DEPTH }
    }

    /// The chain of a spawned sub-agent: one level deeper, same id and limit.
    pub fn child(&self) -> (r: Self)
        requires
            self.depth < u32::MAX,
        ensures
            r.chain_id@ == self.chain_id@,
            r.depth == self.depth + 1,
            r.max_depth == self.max_depth,
    {
        QueryChain { chain_id: self.chain_id.clone(), depth: self.depth + 1, max_depth: self.max_depth }
    }
}

/// Result of a completed agent turn.
pub struct TurnResult {
    pub messages: Vec<Message>,
    pub stop_reason: TurnStopReason,
    pub usage: TokenUsage,
    pub iterations: u32,
}

impl TurnResult {
    /// A result holding a copy of the conversation.
    pub fn build(messages: &[Message], stop_reason: TurnStopReason, usage: TokenUsage, iterations: u32) -> (r: Self)
        ensures
            crate::common::message::msgs_view(r.messages@) == crate::common::message::msgs_view(messages@),
            r.stop_reason == stop_reason,
            r.usage == usage,
            r.iterations == iterations,
    {
        TurnResult {
            messages: crate::common::message::copy_messages(messages),
            stop_reason,
            usage,
            iterations,
        }
    }
}

/// Per-run counters shared with sub-agents.
pub struct LoopStats {
    memories_written_this_run: u32,
}

impl LoopStats {
    pub closed spec fn spec_memories_written(&self) -> u32 {
        self.memories_written_this_run
    }

    pub fn new() -> (r: Self)
        ensures
            r.spec_memories_written() == 0,
    {
        LoopStats { memories_written_this_run: 0 }
    }

    /// Count one memory write (wrapping, as an atomic counter does).
    pub fn record_memory_write(&mut self)
        ensures
            final(self).spec_memories_written() == (if old(self).spec_memories_written() == u32::MAX {
                0
            } else {
                old(self).spec_memories_written() + 1
            }),
    {
        if self.memories_written_this_run == u32::MAX {
            self.memories_written_this_run = 0;
        } else {
            self.memories_written_this_run = self.memories_written_this_run + 1;
        }
    }

    /// Memory writes counted so far.
    pub fn memories_written_this_run(&self) -> (r: u32)
        ensures
            r == self.spec_memories_written(),
    {
        self.memories_written_this_run
    }
}

/// Events the loop publishes. Payloads are JSON text.
#[derive(Clone, Debug)]
pub enum LoopEvent {
    SessionStateChanged { state: String },
    ControlRequest { request_id: String, kind: String, payload: String },
    Stream(StreamEvent),
    ToolStart { id: String, name: String, input_preview: String },
    ToolResult { id: String, name: String, content: String, is_error: bool },
    Compacted { pre_tokens: usize },
    Collapsed { folded_count: usize },
    HookBlocked { hook_name: String, reason: String },
    PlanModeChanged { mode: String },
    TurnEnd { stop_reason: TurnStopReason, usage: TokenUsage },
}

// ---------------------------------------------------------------------------
// Assistant content accumulation
// ---------------------------------------------------------------------------

/// `new` is `old` with `text` appended to its last block when that block is
/// of the kind chosen by `thinking`, or with a new such block pushed.
pub open spec fn appended(old: Seq<ContentBlock>, new: Seq<ContentBlock>, text: Seq<char>, thinking: bool) -> bool {
    let merges = old.len() > 0 && (if thinking { old.last() is Thinking } else { old.last() is Text });
    if merges {
        &&& new.len() == old.len()
        &&& new.drop_last() == old.drop_last()
        &&& (if thinking {
            new.last() matches ContentBlock::Thinking { text: t } && old.last() matches ContentBlock::Thinking { text: u } && t@ == u@ + text
        } else {
            new.last() matches ContentBlock::Text { text: t } && old.last() matches ContentBlock::Text { text: u } && t@ == u@ + text
        })
    } else {
        &&& new.len() == old.len() + 1
        &&& new.drop_last() == old
        &&& (if thinking {
            new.last() matches ContentBlock::Thinking { text: t } && t@ == text
        } else {
            new.last() matches ContentBlock::Text { text: t } && t@ == text
        })
    }
}

fn append_block(content: &mut Vec<ContentBlock>, text: String, thinking: bool)
    ensures
        appended(old(content)@, final(content)@, text@, thinking),
{
    let last = content.pop();
    match last {
        Some(ContentBlock::Text { text: existing }) if !thinking => {
            let mut t = existing;
            t.append(text.as_str());
            content.push(ContentBlock::Text { text: t });
        },
        Some(ContentBlock::Thinking { text: existing }) if thinking => {
            let mut t = existing;
            t.append(text.as_str());
            content.push(ContentBlock::Thinking { text: t });
        },
        Some(other) => {
            content.push(other);
            if thinking {
                content.push(ContentBlock::Thinking { text });
            } else {
                content.push(ContentBlock::Text { text });
            }
        },
        None => {
            if thinking {
                content.push(ContentBlock::Thinking { text });
            } else {
                content.push(ContentBlock::Text { text });
            }
        },
    }
    assert(final(content)@.drop_last() =~= old(content)@.drop_last() || final(content)@.drop_last() =~= old(content)@);
}

/// Accumulate a text delta into the last text block, or push a new one.
pub fn append_text(content: &mut Vec<ContentBlock>, text: String)
    ensures
        appended(old(content)@, final(content)@, text@, false),
{
    append_block(content, text, false)
}

/// Accumulate a thinking delta into the last thinking block, or push a new one.
pub fn append_thinking(content: &mut Vec<ContentBlock>, text: String)
    ensures
        appended(old(content)@, final(content)@, text@, true),
{
    append_block(content, text, true)
}

/// The text blocks of a content list, concatenated.
pub open spec fn text_of(content: Seq<ContentBlock>) -> Seq<char>
    decreases content.len(),
{
    if content.len() == 0 {
        Seq::empty()
    } else {
        text_of(content.drop_last()) + match content.last() {
            ContentBlock::Text { text } => text@,
            _ => Seq::empty(),
        }
    }
}

/// Concatenate all text blocks of a content list.
pub fn extract_text(content: &[ContentBlock]) -> (r: String)
    ensures
        r@ == text_of(content@),
{
    let mut r = String::new();
    let mut i: usize = 0;
    while i < content.len()
        invariant
            i <= content@.len(),
            r@ == text_of(content@.take(i as int)),
        decreases content@.len() - i,
    {
        assert(content@.take(i + 1).drop_last() =~= content@.take(i as int));
        if let ContentBlock::Text { text } = &content[i] {
            r.append(text.as_str());
        }
        i = i + 1;
    }
    assert(content@.take(content@.len() as int) =~= content@);
    r
}

// ---------------------------------------------------------------------------
// Stream errors and tool input
// ---------------------------------------------------------------------------

/// How a streaming error message is classified for recovery:
/// 0 rate limit, 1 server error, 2 prompt too long, 3 anything else.
pub open spec fn stream_error_class(message: Seq<char>) -> nat {
    let l = spec_to_lowercase(message);
    if contains(l, "rate limit"@) || contains(l, "429"@) {
        0
    } else if contains(l, "500"@) || contains(l, "503"@) || contains(l, "server error"@) {
        1
    } else if contains(l, "413"@) || contains(l, "too long"@) || contains(l, "prompt"@) {
        2
    } else {
        3
    }
}

/// Classify a streaming error string for recovery routing.
pub fn classify_stream_error(message: &str) -> (r: crate::kernel::error_recovery::ApiErrorKind)
    ensures
        stream_error_class(message@) == 0 ==> r == (crate::kernel::error_recovery::ApiErrorKind::RateLimit { retry_after_seconds: None }),
        stream_error_class(message@) == 1 ==> r is ServerError,
        stream_error_class(message@) == 2 ==> r is PromptTooLong,
        stream_error_class(message@) == 3 ==> (r matches crate::kernel::error_recovery::ApiErrorKind::Other { message: m } && m@ == message@),
{
    let lower = to_lowercase(message);
    let l = lower.as_str();
    if str_contains(l, "rate limit") || str_contains(l, "429") {
        crate::kernel::error_recovery::ApiErrorKind::RateLimit { retry_after_seconds: None }
    } else if str_contains(l, "500") || str_contains(l, "503") || str_contains(l, "server error") {
        crate::kernel::error_recovery::ApiErrorKind::ServerError
    } else if str_contains(l, "413") || str_contains(l, "too long") || str_contains(l, "prompt") {
        crate::kernel::error_recovery::ApiErrorKind::PromptTooLong
    } else {
        crate::kernel::error_recovery::ApiErrorKind::Other { message: owned(message) }
    }
}

/// Tool input as compact JSON: the parsed form of `json`, or `null` where
/// the model sent malformed JSON (the model then corrects itself).
pub open spec fn spec_tool_input(json: Seq<char>) -> Seq<char> {
    match spec_json_normalize(json) {
        Some(v) => v,
        None => "null"@,
    }
}

/// Parse tool input JSON, giving `null` on malformed input.
pub fn parse_tool_input(json: &str) -> (r: String)
    ensures
        r@ == spec_tool_input(json@),
{
    match json_normalize(json) {
        Some(v) => v,
        None => owned("null"),
    }
}

/// The words of `s` run together (`split_whitespace().collect::<String>()`).
pub open spec fn squeeze(s: Seq<char>) -> Seq<char> {
    crate::text::join(split_ws(s), Seq::empty())
}

/// The text a tool-input preview is cut from: the input's compact JSON, or
/// its words run together when it is not JSON.
pub open spec fn preview_source(json: Seq<char>) -> Seq<char> {
    match spec_json_normalize(json) {
        Some(v) => v,
        None => squeeze(json),
    }
}

/// Bytes a preview of at most `max_len` bytes keeps before its `...`.
pub open spec fn preview_cut(max_len: nat) -> nat {
    if max_len >= 3 { (max_len - 3) as nat } else { 0 }
}

/// Whether the preview of a tool input can be cut without splitting a
/// character: the source fits, or the cut falls between characters.
pub open spec fn json_preview_ok(json: Seq<char>, max_len: nat) -> bool {
    let bytes = encode_utf8(preview_source(json));
    bytes.len() <= max_len || is_char_boundary(bytes, preview_cut(max_len) as int)
}

/// A short preview of a tool input: its source, cut to `max_len - 3` bytes
/// with `...` when longer than `max_len` bytes.
pub open spec fn spec_json_preview(json: Seq<char>, max_len: nat) -> Seq<char> {
    let normalized = preview_source(json);
    let bytes = encode_utf8(normalized);
    if bytes.len() <= max_len {
        normalized
    } else {
        decode_utf8(bytes.take(preview_cut(max_len) as int)) + "..."@
    }
}

fn preview_source_of(json: &str) -> (r: String)
    ensures
        r@ == preview_source(json@),
{
    proof {
        reveal_strlit("");
    }
    match json_normalize(json) {
        Some(v) => v,
        None => {
            let words = str_split_ws(json);
            assert(""@ =~= Seq::<char>::empty());
            join_strings(words.as_slice(), "")
        },
    }
}

/// Whether `truncate_json_preview` can cut this input's preview.
pub fn json_preview_fits(json: &str, max_len: usize) -> (r: bool)
    ensures
        r == json_preview_ok(json@, max_len as nat),
{
    broadcast use vstd::utf8::encode_utf8_valid_utf8;
    let normalized = preview_source_of(json);
    let n = normalized.as_str();
    assert(n.spec_bytes() == encode_utf8(preview_source(json@)));
    if n.as_bytes().len() <= max_len {
        return true;
    }
    let cut: usize = if max_len >= 3 { max_len - 3 } else { 0 };
    n.is_char_boundary(cut)
}

/// A short preview of a completed tool input payload.
pub fn truncate_json_preview(json: &str, max_len: usize) -> (r: String)
    requires
        json_preview_ok(json@, max_len as nat),
    ensures
        r@ == spec_json_preview(json@, max_len as nat),
{
    broadcast use vstd::utf8::encode_utf8_valid_utf8, vstd::utf8::encode_utf8_decode_utf8;
    proof {
        reveal_strlit("...");
    }
    let normalized = preview_source_of(json);
    let n = normalized.as_str();
    let ghost bytes = encode_utf8(normalized@);
    assert(n.spec_bytes() == bytes);
    if n.as_bytes().len() <= max_len {
        return normalized;
    }
    let cut: usize = if max_len >= 3 { max_len - 3 } else { 0 };
    let (head, _tail) = n.split_at(cut);
    assert(head.spec_bytes() =~= bytes.take(cut as int));
    let mut r = owned(head);
    r.append("...");
    r
}


// ---------------------------------------------------------------------------
// Tool calls in flight during one stream
// ---------------------------------------------------------------------------

/// A tool call whose input is still streaming in.
pub struct ToolBuffer {
    pub id: String,
    pub name: String,
    pub json: String,
}

/// Name and input received so far.
pub open spec fn buf_view(b: ToolBuffer) -> (Seq<char>, Seq<char>) {
    (b.name@, b.json@)
}

/// Keeps the buffers of other tool calls.
pub open spec fn other_id(id: Seq<char>) -> spec_fn(ToolBuffer) -> bool {
    |b: ToolBuffer| b.id@ != id
}

/// The buffers as a map from tool-call id; a later entry shadows an earlier one.
pub open spec fn buffers_map(bs: Seq<ToolBuffer>) -> Map<Seq<char>, (Seq<char>, Seq<char>)>
    decreases bs.len(),
{
    if bs.len() == 0 {
        Map::empty()
    } else {
        buffers_map(bs.drop_last()).insert(bs.last().id@, buf_view(bs.last()))
    }
}

/// Index of the last buffer with the given id.
pub open spec fn last_with_id(bs: Seq<ToolBuffer>, id: Seq<char>) -> Option<int>
    decreases bs.len(),
{
    if bs.len() == 0 {
        None
    } else if bs.last().id@ == id {
        Some(bs.len() - 1)
    } else {
        last_with_id(bs.drop_last(), id)
    }
}

proof fn lemma_last_with_id(bs: Seq<ToolBuffer>, id: Seq<char>)
    ensures
        match last_with_id(bs, id) {
            Some(k) => {
                &&& 0 <= k < bs.len()
                &&& bs[k].id@ == id
                &&& buffers_map(bs).dom().contains(id)
                &&& buffers_map(bs)[id] == buf_view(bs[k])
                &&& forall|j: int| k < j < bs.len() ==> bs[j].id@ != id
            },
            None => !buffers_map(bs).dom().contains(id),
        },
    decreases bs.len(),
{
    if bs.len() > 0 {
        let d = bs.drop_last();
        lemma_last_with_id(d, id);
        if bs.last().id@ != id {
            match last_with_id(d, id) {
                Some(k) => {
                    assert(bs[k] == d[k]);
                    assert forall|j: int| k < j < bs.len() implies bs[j].id@ != id by {
                        if j < d.len() {
                            assert(bs[j] == d[j]);
                        }
                    }
                },
                None => {},
            }
        }
    }
}

proof fn lemma_update_last(bs: Seq<ToolBuffer>, id: Seq<char>, k: int, b: ToolBuffer)
    requires
        last_with_id(bs, id) == Some(k),
        b.id@ == id,
    ensures
        buffers_map(bs.update(k, b)) == buffers_map(bs).insert(id, buf_view(b)),
    decreases bs.len(),
{
    lemma_last_with_id(bs, id);
    let u = bs.update(k, b);
    if k == bs.len() - 1 {
        assert(u.drop_last() =~= bs.drop_last());
        assert(buffers_map(u) =~= buffers_map(bs).insert(id, buf_view(b)));
    } else {
        assert(u.drop_last() =~= bs.drop_last().update(k, b));
        lemma_update_last(bs.drop_last(), id, k, b);
        assert(buffers_map(u) =~= buffers_map(bs).insert(id, buf_view(b)));
    }
}

proof fn lemma_without_id(bs: Seq<ToolBuffer>, id: Seq<char>)
    ensures
        buffers_map(bs.filter(other_id(id))) == buffers_map(bs).remove(id),
    decreases bs.len(),
{
    reveal_with_fuel(Seq::filter, 1);
    let f = other_id(id);
    if bs.len() == 0 {
        assert(buffers_map(bs).remove(id) =~= Map::empty());
    } else {
        lemma_without_id(bs.drop_last(), id);
        if bs.last().id@ == id {
            assert(buffers_map(bs).remove(id) =~= buffers_map(bs.drop_last()).remove(id));
        } else {
            assert(bs.filter(f) == bs.drop_last().filter(f).push(bs.last()));
            assert(bs.drop_last().filter(f).push(bs.last()).drop_last() =~= bs.drop_last().filter(f));
            assert(buffers_map(bs.filter(f)) =~= buffers_map(bs).remove(id));
        }
    }
}

/// What one LLM stream has produced so far.
pub struct StreamState {
    content: Vec<ContentBlock>,
    buffers: Vec<ToolBuffer>,
    usage: TokenUsage,
    stop_reason: StopReason,
}

impl StreamState {
    /// The assistant content accumulated so far.
    pub closed spec fn spec_content(&self) -> Seq<ContentBlock> {
        self.content@
    }

    /// Usage reported at the end of the message (zero before).
    pub closed spec fn spec_usage(&self) -> TokenUsage {
        self.usage
    }

    /// Stop reason reported at the end of the message (`EndTurn` before).
    pub closed spec fn spec_stop_reason(&self) -> StopReason {
        self.stop_reason
    }

    /// Tool calls whose input is still arriving, by id: (name, input so far).
    pub closed spec fn pending_tools(&self) -> Map<Seq<char>, (Seq<char>, Seq<char>)> {
        buffers_map(self.buffers@)
    }

    /// Whether `event`, when it completes a pending tool call, completes one
    /// whose input preview can be cut.
    pub open spec fn end_preview_ok(&self, event: StreamEvent) -> bool {
        match event {
            StreamEvent::ToolUseEnd { id } => self.pending_tools().dom().contains(id@)
                ==> json_preview_ok(self.pending_tools()[id@].1, TOOL_PREVIEW_BYTES as nat),
            _ => true,
        }
    }

    /// Whether `end_preview_ok` holds of `event`.
    pub fn end_preview_fits(&self, event: &StreamEvent) -> (r: bool)
        ensures
            r == self.end_preview_ok(*event),
    {
        match event {
            StreamEvent::ToolUseEnd { id } => {
                proof {
                    lemma_last_with_id(self.buffers@, id@);
                }
                match self.find(id.as_str()) {
                    Some(k) => json_preview_fits(self.buffers[k].json.as_str(), TOOL_PREVIEW_BYTES),
                    None => true,
                }
            },
            _ => true,
        }
    }

    /// Nothing received yet.
    pub fn new() -> (r: Self)
        ensures
            r.spec_content().len() == 0,
            r.pending_tools() == Map::<Seq<char>, (Seq<char>, Seq<char>)>::empty(),
            r.spec_usage() == (TokenUsage { input_tokens: 0, output_tokens: 0 }),
            r.spec_stop_reason() == StopReason::EndTurn,
    {
        StreamState {
            content: Vec::new(),
            buffers: Vec::new(),
            usage: TokenUsage { input_tokens: 0, output_tokens: 0 },
            stop_reason: StopReason::EndTurn,
        }
    }

    /// Usage reported by the stream's end-of-message event (zero before).
    pub fn usage(&self) -> (r: TokenUsage)
        ensures
            r == self.spec_usage(),
    {
        self.usage
    }

    fn find(&self, id: &str) -> (r: Option<usize>)
        ensures
            match r {
                Some(k) => last_with_id(self.buffers@, id@) == Some(k as int),
                None => last_with_id(self.buffers@, id@) is None,
            },
    {
        let mut i: usize = self.buffers.len();
        assert(self.buffers@.take(i as int) =~= self.buffers@);
        while i > 0
            invariant
                i <= self.buffers@.len(),
                last_with_id(self.buffers@, id@) == last_with_id(self.buffers@.take(i as int), id@),
            decreases i,
        {
            assert(self.buffers@.take(i as int).drop_last() =~= self.buffers@.take(i - 1));
            if crate::text::str_eq(self.buffers[i - 1].id.as_str(), id) {
                return Some(i - 1);
            }
            i = i - 1;
        }
        None
    }

    /// A tool call started: its input buffer starts empty.
    pub fn on_tool_start(&mut self, id: String, name: String)
        ensures
            final(self).pending_tools() == old(self).pending_tools().insert(id@, (name@, Seq::empty())),
            final(self).spec_content() == old(self).spec_content(),
            final(self).spec_usage() == old(self).spec_usage(),
            final(self).spec_stop_reason() == old(self).spec_stop_reason(),
    {
        self.buffers.push(ToolBuffer { id, name, json: String::new() });
        assert(self.buffers@.drop_last() =~= old(self).buffers@);
    }

    /// More input for a started tool call; ignored for an unknown id.
    pub fn on_tool_delta(&mut self, id: &str, json_chunk: &str)
        ensures
            old(self).pending_tools().dom().contains(id@) ==> final(self).pending_tools()
                == old(self).pending_tools().insert(id@, (old(self).pending_tools()[id@].0, old(self).pending_tools()[id@].1 + json_chunk@)),
            !old(self).pending_tools().dom().contains(id@) ==> final(self).pending_tools() == old(self).pending_tools(),
            final(self).spec_content() == old(self).spec_content(),
            final(self).spec_usage() == old(self).spec_usage(),
            final(self).spec_stop_reason() == old(self).spec_stop_reason(),
    {
        proof {
            lemma_last_with_id(self.buffers@, id@);
        }
        match self.find(id) {
            Some(k) => {
                let b = &self.buffers[k];
                let mut json = b.json.clone();
                json.append(json_chunk);
                let nb = ToolBuffer { id: b.id.clone(), name: b.name.clone(), json };
                proof {
                    lemma_update_last(self.buffers@, id@, k as int, nb);
                }
                self.buffers.set(k, nb);
            },
            None => {},
        }
    }

    /// The tool call with this id is complete: its buffer leaves the state.
    pub fn take_tool(&mut self, id: &str) -> (r: Option<ToolBuffer>)
        ensures
            final(self).pending_tools() == old(self).pending_tools().remove(id@),
            match r {
                Some(b) => {
                    &&& old(self).pending_tools().dom().contains(id@)
                    &&& b.id@ == id@
                    &&& buf_view(b) == old(self).pending_tools()[id@]
                },
                None => !old(self).pending_tools().dom().contains(id@),
            },
            final(self).spec_content() == old(self).spec_content(),
            final(self).spec_usage() == old(self).spec_usage(),
            final(self).spec_stop_reason() == old(self).spec_stop_reason(),
    {
        proof {
            lemma_last_with_id(self.buffers@, id@);
            lemma_without_id(self.buffers@, id@);
        }
        match self.find(id) {
            None => {
                assert(old(self).pending_tools().remove(id@) =~= old(self).pending_tools());
                None
            },
            Some(k) => {
                let found = ToolBuffer {
                    id: self.buffers[k].id.clone(),
                    name: self.buffers[k].name.clone(),
                    json: self.buffers[k].json.clone(),
                };
                let ghost f = other_id(id@);
                let mut kept: Vec<ToolBuffer> = Vec::new();
                let mut i: usize = 0;
                while i < self.buffers.len()
                    invariant
                        i <= self.buffers@.len(),
                        f == other_id(id@),
                        kept@ == self.buffers@.take(i as int).filter(f),
                    decreases self.buffers@.len() - i,
                {
                    proof {
                        assert(self.buffers@.take(i + 1).drop_last() =~= self.buffers@.take(i as int));
                        reveal_with_fuel(Seq::filter, 1);
                    }
                    if !crate::text::str_eq(self.buffers[i].id.as_str(), id) {
                        kept.push(ToolBuffer {
                            id: self.buffers[i].id.clone(),
                            name: self.buffers[i].name.clone(),
                            json: self.buffers[i].json.clone(),
                        });
                    }
                    i = i + 1;
                }
                assert(self.buffers@.take(self.buffers@.len() as int) =~= self.buffers@);
                self.buffers = kept;
                Some(found)
            },
        }
    }
}



// ---------------------------------------------------------------------------
// Tool dispatch
// ---------------------------------------------------------------------------

/// A tool call that passed every gate, with the conversation it runs against.
pub struct PendingTool {
    pub id: String,
    pub name: String,
    /// JSON text.
    pub input: String,
    pub message_history: Vec<Message>,
}

/// What became of one complete tool call.
pub enum DispatchOutcome {
    Submit(PendingTool),
    Blocked,
    RequiresAction { request_id: String },
}

/// A dispatch decision with the events to publish and the control request
/// to store, if any.
pub struct Dispatch {
    pub outcome: DispatchOutcome,
    pub events: Vec<LoopEvent>,
    pub control: Option<PendingControl>,
}

/// The reason shown when the permission evaluator denies a tool.
pub open spec fn denied_reason(name: Seq<char>) -> Seq<char> {
    "Tool '"@ + name + "' is not permitted in this session."@
}

/// The payload of a permission request.
pub open spec fn permission_payload(name: Seq<char>, input: Seq<char>) -> Seq<char> {
    json_object(seq![("input"@, input), ("tool_name"@, json_str(name))])
}

/// `new` is `old` followed by an assistant message with `content` and a user
/// message with the single tool result given.
pub open spec fn pushed_blocked(old: Seq<Message>, new: Seq<Message>, content: Seq<ContentBlock>, result: ContentBlock) -> bool {
    &&& new.len() == old.len() + 2
    &&& new.take(old.len() as int) == old
    &&& new[old.len() as int].role == Role::Assistant
    &&& new[old.len() as int].content@ == content
    &&& new[old.len() as int + 1].role == Role::User
    &&& new[old.len() as int + 1].content@ == seq![result]
}

/// Record a denied or blocked tool call: the call joins the assistant
/// content, and an error result tells the model why it did not run.
pub fn push_blocked_tool(
    id: String,
    name: String,
    input: String,
    reason: String,
    is_error: bool,
    assistant_content: &mut Vec<ContentBlock>,
    messages: &mut Vec<Message>,
)
    ensures
        final(assistant_content)@ == old(assistant_content)@.push(ContentBlock::ToolUse { id: id, name: name, input: input }),
        pushed_blocked(old(messages)@, final(messages)@, final(assistant_content)@,
            ContentBlock::ToolResult { tool_use_id: id, content: reason, is_error: is_error }),
{
    let rid = id.clone();
    assistant_content.push(ContentBlock::ToolUse { id, name, input });
    let result = ContentBlock::ToolResult { tool_use_id: rid, content: reason, is_error };
    let a = Message::assistant(new_id().as_str(), copy_blocks(assistant_content.as_slice()));
    messages.push(a);
    let mut results: Vec<ContentBlock> = Vec::new();
    results.push(result);
    messages.push(Message::tool_results(new_id().as_str(), results));
    assert(final(messages)@.take(old(messages)@.len() as int) =~= old(messages)@);
}

/// `c1` is `c0` with the tool call appended.
pub open spec fn pushed_call(c0: Seq<ContentBlock>, c1: Seq<ContentBlock>, id: Seq<char>, name: Seq<char>, input: Seq<char>) -> bool {
    &&& c1.len() == c0.len() + 1
    &&& c1.drop_last() == c0
    &&& c1.last() matches ContentBlock::ToolUse { id: i, name: n, input: x } && i@ == id && n@ == name && x@ == input
}

/// The effect of dispatching one tool call, given the permission decision and
/// the verdict of the hooks: outcome, control request, events (not fixed here
/// for a submitted call), metrics, assistant content and messages.
pub open spec fn dispatch_ok(
    outcome: DispatchOutcome,
    control: Option<PendingControl>,
    events: Seq<LoopEvent>,
    id: Seq<char>,
    name: Seq<char>,
    input: Seq<char>,
    decision: PermissionDecision,
    hook: Option<Seq<char>>,
    m0: MetricsSnapshot,
    m1: MetricsSnapshot,
    c0: Seq<ContentBlock>,
    c1: Seq<ContentBlock>,
    ms0: Seq<Message>,
    ms1: Seq<Message>,
) -> bool {
    if decision == PermissionDecision::Deny {
        &&& outcome is Blocked
        &&& control is None
        &&& events.len() == 1
        &&& events[0] matches LoopEvent::HookBlocked { hook_name: h, reason: why }
            && h@ == "permission"@ && why@ == denied_reason(name)
        &&& pushed_call(c0, c1, id, name, input)
        &&& ms1.len() == ms0.len() + 2
        &&& ms1.take(ms0.len() as int) == ms0
        &&& ms1[ms0.len() as int].role == Role::Assistant
        &&& ms1[ms0.len() as int].content@ == c1
        &&& ms1[ms0.len() as int + 1].role == Role::User
        &&& ms1[ms0.len() as int + 1].content@.len() == 1
        &&& ms1[ms0.len() as int + 1].content@[0] matches ContentBlock::ToolResult { tool_use_id: t, content: c, is_error: e }
            && t@ == id && c@ == denied_reason(name) && e
        &&& m1 == (MetricsSnapshot { errors_total: wadd(m0.errors_total, 1), ..m0 })
    } else if decision == PermissionDecision::Ask {
        &&& outcome matches DispatchOutcome::RequiresAction { request_id }
        &&& control matches Some(pc)
        &&& pc.request_id@ == request_id@
        &&& pc.kind@ == "permission"@
        &&& pc.payload@ == permission_payload(name, input)
        &&& events.len() == 2
        &&& events[0] matches LoopEvent::SessionStateChanged { state } && state@ == "requires_action"@
        &&& events[1] matches LoopEvent::ControlRequest { request_id: q, kind: k, payload: p }
            && q@ == request_id@ && k@ == "permission"@ && p@ == permission_payload(name, input)
        &&& c1 == c0
        &&& ms1 == ms0
        &&& m1 == m0
    } else if hook is Some {
        let why = hook.unwrap();
        &&& outcome is Blocked
        &&& control is None
        &&& events.len() == 1
        &&& events[0] matches LoopEvent::HookBlocked { hook_name: h, reason: w }
            && h@ == "pre_tool"@ && w@ == why
        &&& pushed_call(c0, c1, id, name, input)
        &&& ms1.len() == ms0.len() + 2
        &&& ms1.take(ms0.len() as int) == ms0
        &&& ms1[ms0.len() as int].role == Role::Assistant
        &&& ms1[ms0.len() as int].content@ == c1
        &&& ms1[ms0.len() as int + 1].role == Role::User
        &&& ms1[ms0.len() as int + 1].content@.len() == 1
        &&& ms1[ms0.len() as int + 1].content@[0] matches ContentBlock::ToolResult { tool_use_id: t, content: c, is_error: e }
            && t@ == id && c@ == why && e
        &&& m1 == m0
    } else {
        &&& outcome matches DispatchOutcome::Submit(p)
        &&& p.id@ == id && p.name@ == name && p.input@ == input
        &&& p.message_history@.len() == ms0.len() + 1
        &&& msgs_view(p.message_history@.take(ms0.len() as int)) == msgs_view(ms0)
        &&& p.message_history@[ms0.len() as int].role == Role::Assistant
        &&& p.message_history@[ms0.len() as int].content@ == c1
        &&& control is None
                        &&& pushed_call(c0, c1, id, name, input)
        &&& ms1 == ms0
        &&& m1 == (MetricsSnapshot { tool_calls_total: wadd(m0.tool_calls_total, 1), ..m0 })
    }
}

/// Gate one complete tool call through the permission evaluator and the
/// pre-tool-use hooks; submit it when both allow.
pub fn dispatch_tool(
    id: String,
    name: String,
    input: String,
    permission: &PermissionEvaluator,
    hooks: &HookRunner,
    metrics: &mut Metrics,
    assistant_content: &mut Vec<ContentBlock>,
    messages: &mut Vec<Message>,
) -> (r: Dispatch)
    ensures
        dispatch_ok(r.outcome, r.control, r.events@, id@, name@, input@,
            spec_check(permission.spec_mode(), permission.spec_rules(), name@),
            run_spec(hooks.hooks@, HookEvent::PreToolUse { tool_name: name, input: input }),
            old(metrics).spec_snapshot(), final(metrics).spec_snapshot(),
            old(assistant_content)@, final(assistant_content)@, old(messages)@, final(messages)@),
        r.outcome is Submit ==> r.events@.len() == 0,
{
    proof {
        reveal_strlit("permission");
        reveal_strlit("requires_action");
        reveal_strlit("pre_tool");
        reveal_strlit("input");
        reveal_strlit("tool_name");
    }
    let decision = permission.check(name.as_str(), input.as_str());
    match decision {
        PermissionDecision::Deny => {
            let reason = cat3("Tool '", name.as_str(), "' is not permitted in this session.");
            let mut events: Vec<LoopEvent> = Vec::new();
            events.push(LoopEvent::HookBlocked { hook_name: owned("permission"), reason: reason.clone() });
            push_blocked_tool(id, name, input, reason, true, assistant_content, messages);
            assert(assistant_content@.drop_last() =~= old(assistant_content)@);
            metrics.record_error();
            return Dispatch { outcome: DispatchOutcome::Blocked, events, control: None };
        },
        PermissionDecision::Ask => {
            let request_id = new_id();
            let keys: [&str; 2] = ["input", "tool_name"];
            let values: Vec<String> = vec![input.clone(), json_string(name.as_str())];
            let payload = json_object_of(keys.as_slice(), values.as_slice());
            proof {
                assert(Seq::new(2, |i: int| (keys@[i]@, values@[i]@)) =~= seq![("input"@, input@), ("tool_name"@, json_str(name@))]);
            }
            let control = PendingControl {
                request_id: request_id.clone(),
                kind: owned("permission"),
                payload: payload.clone(),
            };
            let mut events: Vec<LoopEvent> = Vec::new();
            events.push(LoopEvent::SessionStateChanged { state: owned("requires_action") });
            events.push(LoopEvent::ControlRequest {
                request_id: request_id.clone(),
                kind: owned("permission"),
                payload,
            });
            return Dispatch {
                outcome: DispatchOutcome::RequiresAction { request_id },
                events,
                control: Some(control),
            };
        },
        PermissionDecision::Allow => {},
    }
    let hook_event = HookEvent::PreToolUse { tool_name: name.clone(), input: input.clone() };
    let hd = hooks.run(&hook_event);
    if let HookDecision::Block { reason } = hd {
        let mut events: Vec<LoopEvent> = Vec::new();
        events.push(LoopEvent::HookBlocked { hook_name: owned("pre_tool"), reason: reason.clone() });
        push_blocked_tool(id, name, input, reason, true, assistant_content, messages);
        assert(assistant_content@.drop_last() =~= old(assistant_content)@);
        return Dispatch { outcome: DispatchOutcome::Blocked, events, control: None };
    }
    assistant_content.push(ContentBlock::ToolUse { id: id.clone(), name: name.clone(), input: input.clone() });
    assert(assistant_content@.drop_last() =~= old(assistant_content)@);
    let mut message_history = copy_messages(messages.as_slice());
    let ghost copied = message_history@;
    assert(msgs_view(copied).len() == copied.len());
    assert(msgs_view(messages@).len() == messages@.len());
    message_history.push(Message::assistant(new_id().as_str(), copy_blocks(assistant_content.as_slice())));
    assert(message_history@.take(messages@.len() as int) =~= copied);
    metrics.record_tool_call();
    Dispatch {
        outcome: DispatchOutcome::Submit(PendingTool { id, name, input, message_history }),
        events: Vec::new(),
        control: None,
    }
}


impl TurnStopReason {
    /// An identical copy.
    pub fn duplicate(&self) -> (r: Self)
        ensures
            r == *self,
    {
        match self {
            TurnStopReason::Completed => TurnStopReason::Completed,
            TurnStopReason::MaxIterations => TurnStopReason::MaxIterations,
            TurnStopReason::Cancelled => TurnStopReason::Cancelled,
            TurnStopReason::ContextOverflow => TurnStopReason::ContextOverflow,
            TurnStopReason::DiminishingReturns => TurnStopReason::DiminishingReturns,
            TurnStopReason::RequiresAction { request_id } => TurnStopReason::RequiresAction { request_id: request_id.clone() },
            TurnStopReason::PlanReview { plan } => TurnStopReason::PlanReview { plan: plan.clone() },
            TurnStopReason::Error(m) => TurnStopReason::Error(m.clone()),
        }
    }
}

impl LoopEvent {
    /// An identical copy.
    pub fn duplicate(&self) -> (r: Self)
        ensures
            r == *self,
    {
        match self {
            LoopEvent::SessionStateChanged { state } => LoopEvent::SessionStateChanged { state: state.clone() },
            LoopEvent::ControlRequest { request_id, kind, payload } => LoopEvent::ControlRequest {
                request_id: request_id.clone(),
                kind: kind.clone(),
                payload: payload.clone(),
            },
            LoopEvent::Stream(e) => LoopEvent::Stream(e.duplicate()),
            LoopEvent::ToolStart { id, name, input_preview } => LoopEvent::ToolStart {
                id: id.clone(),
                name: name.clone(),
                input_preview: input_preview.clone(),
            },
            LoopEvent::ToolResult { id, name, content, is_error } => LoopEvent::ToolResult {
                id: id.clone(),
                name: name.clone(),
                content: content.clone(),
                is_error: *is_error,
            },
            LoopEvent::Compacted { pre_tokens } => LoopEvent::Compacted { pre_tokens: *pre_tokens },
            LoopEvent::Collapsed { folded_count } => LoopEvent::Collapsed { folded_count: *folded_count },
            LoopEvent::HookBlocked { hook_name, reason } => LoopEvent::HookBlocked {
                hook_name: hook_name.clone(),
                reason: reason.clone(),
            },
            LoopEvent::PlanModeChanged { mode } => LoopEvent::PlanModeChanged { mode: mode.clone() },
            LoopEvent::TurnEnd { stop_reason, usage } => LoopEvent::TurnEnd { stop_reason: stop_reason.duplicate(), usage: *usage },
        }
    }
}

// ---------------------------------------------------------------------------
// One stream event
// ---------------------------------------------------------------------------

/// Recovery counters stay within the limits past which the loop aborts.
pub open spec fn recovery_bounded(r: RecoveryState) -> bool {
    &&& r.token_escalation_count <= MAX_TOKEN_ESCALATIONS
    &&& r.low_output_streak < MAX_LOW_OUTPUT_TURNS
    &&& r.rate_limit_retries <= MAX_RATE_LIMIT_RETRIES
    &&& r.server_error_retries <= MAX_SERVER_ERROR_RETRIES
}

/// Whether the recovery counters are within their limits (the condition
/// under which the loop may hand the next stream event or response to
/// error recovery).
pub fn recovery_within_limits(r: &RecoveryState) -> (b: bool)
    ensures
        b == recovery_bounded(*r),
{
    r.token_escalation_count <= MAX_TOKEN_ESCALATIONS && r.low_output_streak < MAX_LOW_OUTPUT_TURNS
        && r.rate_limit_retries <= MAX_RATE_LIMIT_RETRIES && r.server_error_retries <= MAX_SERVER_ERROR_RETRIES
}

/// What the loop does after one stream event.
pub enum StreamStep {
    /// Keep reading the stream.
    Continue,
    /// Hand this tool call to the executor and keep reading.
    Submit(PendingTool),
    /// Transient error: wait this long, then call the model again.
    Retry { duration_ms: u64 },
    /// Stop the turn with this reason.
    Fatal(TurnStopReason),
}

/// The dispatch outcome a stream step carries out.
pub open spec fn step_outcome(s: StreamStep) -> DispatchOutcome {
    match s {
        StreamStep::Submit(p) => DispatchOutcome::Submit(p),
        StreamStep::Fatal(TurnStopReason::RequiresAction { request_id }) => DispatchOutcome::RequiresAction { request_id },
        _ => DispatchOutcome::Blocked,
    }
}

/// A stream step with the events to publish and the control request to store.
pub struct StreamReaction {
    pub step: StreamStep,
    pub events: Vec<LoopEvent>,
    pub control: Option<PendingControl>,
}

/// A complete tool call: parse its input, dispatch it, and announce it
/// with a preview of its input when it is submitted.
pub fn on_tool_end(
    call: ToolBuffer,
    permission: &PermissionEvaluator,
    hooks: &HookRunner,
    metrics: &mut Metrics,
    assistant_content: &mut Vec<ContentBlock>,
    messages: &mut Vec<Message>,
) -> (r: Dispatch)
    requires
        json_preview_ok(call.json@, TOOL_PREVIEW_BYTES as nat),
    ensures
        exists|inp: String| inp@ == spec_tool_input(call.json@) && dispatch_ok(r.outcome, r.control, r.events@,
            call.id@, call.name@, spec_tool_input(call.json@),
            spec_check(permission.spec_mode(), permission.spec_rules(), call.name@),
            #[trigger] run_spec(hooks.hooks@, HookEvent::PreToolUse { tool_name: call.name, input: inp }),
            old(metrics).spec_snapshot(), final(metrics).spec_snapshot(),
            old(assistant_content)@, final(assistant_content)@, old(messages)@, final(messages)@),
        r.outcome is Submit ==> {
            &&& r.events@.len() == 1
            &&& r.events@[0] matches LoopEvent::ToolStart { id, name, input_preview }
                && id@ == call.id@ && name@ == call.name@
                && input_preview@ == spec_json_preview(call.json@, TOOL_PREVIEW_BYTES as nat)
        },
{
    let input = parse_tool_input(call.json.as_str());
    let preview = truncate_json_preview(call.json.as_str(), TOOL_PREVIEW_BYTES);
    let id = call.id.clone();
    let name = call.name.clone();
    let ghost inp = input;
    let mut d = dispatch_tool(call.id, call.name, input, permission, hooks, metrics, assistant_content, messages);
    if let DispatchOutcome::Submit(_) = &d.outcome {
        let mut events: Vec<LoopEvent> = Vec::new();
        events.push(LoopEvent::ToolStart { id, name, input_preview: preview });
        d.events = events;
    }
    d
}

/// Bytes of tool input shown in a tool-start event.
pub const TOOL_PREVIEW_BYTES: usize = 120;

/// What handling one stream event does: the state `s0` becomes `s1`, the
/// recovery counters `rec0` become `rec1`, the metrics `m0` become `m1`, the
/// conversation `msgs0` becomes `msgs1`, and `r` is the reaction.
pub open spec fn stream_reaction_ok(
    s0: StreamState,
    s1: StreamState,
    event: StreamEvent,
    rec0: RecoveryState,
    rec1: RecoveryState,
    permission: PermissionEvaluator,
    hooks: Seq<Box<dyn Hook>>,
    m0: MetricsSnapshot,
    m1: MetricsSnapshot,
    msgs0: Seq<Message>,
    msgs1: Seq<Message>,
    r: StreamReaction,
) -> bool {
    &&& r.events@.len() >= 1
    &&& r.events@[0] == LoopEvent::Stream(event)
    &&& r.step is Retry ==> recovery_bounded(rec1)
    &&& r.step is Continue || r.step is Submit ==> rec1 == rec0
    &&& match event {
        StreamEvent::TextDelta { text } => {
            &&& r.step is Continue
            &&& appended(s0.spec_content(), s1.spec_content(), text@, false)
            &&& s1.pending_tools() == s0.pending_tools()
        },
        StreamEvent::ThinkingDelta { text } => {
            &&& r.step is Continue
            &&& appended(s0.spec_content(), s1.spec_content(), text@, true)
            &&& s1.pending_tools() == s0.pending_tools()
        },
        StreamEvent::ToolUseStart { id, name } => {
            &&& r.step is Continue
            &&& s1.pending_tools() == s0.pending_tools().insert(id@, (name@, Seq::empty()))
            &&& s1.spec_content() == s0.spec_content()
        },
        StreamEvent::ToolInputDelta { id, json_chunk } => {
            &&& r.step is Continue
            &&& s1.spec_content() == s0.spec_content()
            &&& (s0.pending_tools().dom().contains(id@) ==> s1.pending_tools()
                == s0.pending_tools().insert(id@, (s0.pending_tools()[id@].0, s0.pending_tools()[id@].1 + json_chunk@)))
            &&& (!s0.pending_tools().dom().contains(id@) ==> s1.pending_tools() == s0.pending_tools())
        },
        StreamEvent::ToolUseEnd { id } => {
            &&& s1.pending_tools() == s0.pending_tools().remove(id@)
            &&& (!s0.pending_tools().dom().contains(id@) ==> r.step is Continue && r.events@.len() == 1
                && s1.spec_content() == s0.spec_content() && msgs1 == msgs0)
            &&& (s0.pending_tools().dom().contains(id@) ==> {
                let (name, json) = s0.pending_tools()[id@];
                &&& (r.step is Continue || r.step is Submit || r.step matches StreamStep::Fatal(TurnStopReason::RequiresAction { .. }))
                &&& exists|n: String, inp: String| n@ == name && inp@ == spec_tool_input(json)
                    && dispatch_ok(step_outcome(r.step), r.control, r.events@.skip(1), id@, name, spec_tool_input(json),
                        spec_check(permission.spec_mode(), permission.spec_rules(), name),
                        #[trigger] run_spec(hooks, HookEvent::PreToolUse { tool_name: n, input: inp }),
                        m0, m1,
                        s0.spec_content(), s1.spec_content(), msgs0, msgs1)
            })
        },
        StreamEvent::MessageEnd { usage, stop_reason } => {
            &&& r.step is Continue
            &&& s1.spec_usage() == usage
            &&& s1.spec_stop_reason() == stop_reason
            &&& s1.spec_content() == s0.spec_content()
            &&& s1.pending_tools() == s0.pending_tools()
        },
        StreamEvent::Error { message, is_retryable } => {
            let class = stream_error_class(message@);
            let rs = rec0;
            &&& s1.spec_content() == s0.spec_content()
            &&& s1.pending_tools() == s0.pending_tools()
            &&& (!is_retryable || class >= 2 ==> (r.step matches StreamStep::Fatal(TurnStopReason::Error(m)) && m@ == message@))
            &&& (!is_retryable ==> rec1 == rs)
            &&& (is_retryable && class == 2 ==> rec1 == next_state(s0.spec_stop_reason(), 0, rs,
                Some(crate::kernel::error_recovery::ApiErrorKind::PromptTooLong)))
            &&& (is_retryable && class == 3 ==> exists|m: String| m@ == message@
                && rec1 == #[trigger] next_state(s0.spec_stop_reason(), 0, rs,
                    Some(crate::kernel::error_recovery::ApiErrorKind::Other { message: m })))
            &&& (is_retryable && class == 0 ==> {
                &&& rec1.rate_limit_retries == rs.rate_limit_retries + 1
                &&& (rs.rate_limit_retries + 1 > MAX_RATE_LIMIT_RETRIES ==>
                    (r.step matches StreamStep::Fatal(TurnStopReason::Error(m)) && m@ == message@))
                &&& (rs.rate_limit_retries + 1 <= MAX_RATE_LIMIT_RETRIES ==>
                    (r.step matches StreamStep::Retry { duration_ms } && exists|j: nat| j < BACKOFF_BASE_MS
                        && duration_ms == #[trigger] backoff_ms((rs.rate_limit_retries + 1) as nat, j)))
            })
            &&& (is_retryable && class == 1 ==> {
                &&& rec1.server_error_retries == rs.server_error_retries + 1
                &&& (rs.server_error_retries + 1 > MAX_SERVER_ERROR_RETRIES ==>
                    (r.step matches StreamStep::Fatal(TurnStopReason::Error(m)) && m@ == message@))
                &&& (rs.server_error_retries + 1 <= MAX_SERVER_ERROR_RETRIES ==>
                    (r.step matches StreamStep::Retry { duration_ms } && exists|j: nat| j < BACKOFF_BASE_MS
                        && duration_ms == #[trigger] backoff_ms((rs.server_error_retries + 1) as nat, j)))
            })
        },
    }
}

/// Handle one event of the model's response stream. Every event is first
/// republished as a stream event.
pub fn on_stream_event(
    state: &mut StreamState,
    event: StreamEvent,
    recovery: &mut RecoveryState,
    permission: &PermissionEvaluator,
    hooks: &HookRunner,
    metrics: &mut Metrics,
    messages: &mut Vec<Message>,
) -> (r: StreamReaction)
    requires
        recovery_bounded(*old(recovery)),
        old(state).end_preview_ok(event),
    ensures
        stream_reaction_ok(*old(state), *final(state), event, *old(recovery), *final(recovery), *permission,
            hooks.hooks@, old(metrics).spec_snapshot(), final(metrics).spec_snapshot(), old(messages)@, final(messages)@, r),
{
    let mut events: Vec<LoopEvent> = Vec::new();
    events.push(LoopEvent::Stream(event.duplicate()));
    match event {
        StreamEvent::TextDelta { text } => {
            append_text(&mut state.content, text);
            StreamReaction { step: StreamStep::Continue, events, control: None }
        },
        StreamEvent::ThinkingDelta { text } => {
            append_thinking(&mut state.content, text);
            StreamReaction { step: StreamStep::Continue, events, control: None }
        },
        StreamEvent::ToolUseStart { id, name } => {
            state.on_tool_start(id, name);
            StreamReaction { step: StreamStep::Continue, events, control: None }
        },
        StreamEvent::ToolInputDelta { id, json_chunk } => {
            state.on_tool_delta(id.as_str(), json_chunk.as_str());
            StreamReaction { step: StreamStep::Continue, events, control: None }
        },
        StreamEvent::ToolUseEnd { id } => {
            match state.take_tool(id.as_str()) {
                None => StreamReaction { step: StreamStep::Continue, events, control: None },
                Some(call) => {
                    let ghost cg = call;
                    let d = on_tool_end(call, permission, hooks, metrics, &mut state.content, messages);
                    let ghost de = d.events@;
                    let mut k: usize = 0;
                    while k < d.events.len()
                        invariant
                            k <= d.events@.len(),
                            events@ == seq![LoopEvent::Stream(event)] + d.events@.take(k as int),
                        decreases d.events@.len() - k,
                    {
                        events.push(d.events[k].duplicate());
                        k = k + 1;
                        assert(events@ =~= seq![LoopEvent::Stream(event)] + d.events@.take(k as int));
                    }
                    assert(d.events@.take(d.events@.len() as int) =~= d.events@);
                    assert(events@.skip(1) =~= d.events@);
                    let step = match d.outcome {
                        DispatchOutcome::Submit(p) => StreamStep::Submit(p),
                        DispatchOutcome::Blocked => StreamStep::Continue,
                        DispatchOutcome::RequiresAction { request_id } =>
                            StreamStep::Fatal(TurnStopReason::RequiresAction { request_id }),
                    };
                    StreamReaction { step, events, control: d.control }
                },
            }
        },
        StreamEvent::MessageEnd { usage, stop_reason } => {
            state.usage = usage;
            state.stop_reason = stop_reason;
            StreamReaction { step: StreamStep::Continue, events, control: None }
        },
        StreamEvent::Error { message, is_retryable } => {
            if is_retryable {
                let kind = classify_stream_error(message.as_str());
                let action = evaluate(&state.stop_reason, 0, recovery, Some(&kind));
                if let RecoveryAction::WaitAndRetry { duration_ms } = action {
                    return StreamReaction { step: StreamStep::Retry { duration_ms }, events, control: None };
                }
            }
            StreamReaction { step: StreamStep::Fatal(TurnStopReason::Error(message)), events, control: None }
        },
    }
}


/// `on_stream_event` where the event can be handled: `None`, with nothing
/// changed, when it completes a tool call whose input preview would have to
/// be cut inside a character.
pub fn on_stream_event_checked(
    state: &mut StreamState,
    event: StreamEvent,
    recovery: &mut RecoveryState,
    permission: &PermissionEvaluator,
    hooks: &HookRunner,
    metrics: &mut Metrics,
    messages: &mut Vec<Message>,
) -> (r: Option<StreamReaction>)
    requires
        recovery_bounded(*old(recovery)),
    ensures
        r is None <==> !old(state).end_preview_ok(event),
        r is None ==> *final(state) == *old(state) && *final(recovery) == *old(recovery)
            && *final(metrics) == *old(metrics) && final(messages)@ == old(messages)@,
        r matches Some(x) ==> stream_reaction_ok(*old(state), *final(state), event, *old(recovery), *final(recovery),
            *permission, hooks.hooks@, old(metrics).spec_snapshot(), final(metrics).spec_snapshot(), old(messages)@,
            final(messages)@, x),
{
    if !state.end_preview_fits(&event) {
        return None;
    }
    Some(on_stream_event(state, event, recovery, permission, hooks, metrics, messages))
}

// ---------------------------------------------------------------------------
// The loop between awaits
// ---------------------------------------------------------------------------

/// Events published when a run starts.
pub fn start_events(mode: RunMode) -> (r: Vec<LoopEvent>)
    ensures
        mode == RunMode::Planning ==> r@.len() == 2
            && (r@[0] matches LoopEvent::SessionStateChanged { state } && state@ == "planning"@)
            && (r@[1] matches LoopEvent::PlanModeChanged { mode: m } && m@ == "planning"@),
        mode != RunMode::Planning ==> r@.len() == 1
            && (r@[0] matches LoopEvent::SessionStateChanged { state } && state@ == "running"@),
{
    let mut r: Vec<LoopEvent> = Vec::new();
    if mode == RunMode::Planning {
        r.push(LoopEvent::SessionStateChanged { state: owned("planning") });
        r.push(LoopEvent::PlanModeChanged { mode: owned("planning") });
    } else {
        r.push(LoopEvent::SessionStateChanged { state: owned("running") });
    }
    r
}

/// One iteration guard: a cancelled turn stops without counting; otherwise
/// the iteration is counted (in the turn and in the turn metric) and the
/// turn stops once it exceeds `max_iterations`.
pub open spec fn iteration_began(
    s0: TurnState,
    s1: TurnState,
    m0: MetricsSnapshot,
    m1: MetricsSnapshot,
    cancelled: bool,
    max_iterations: u32,
    r: Option<TurnStopReason>,
) -> bool {
    &&& cancelled ==> r == Some(TurnStopReason::Cancelled) && s1 == s0 && m1 == m0
    &&& !cancelled ==> {
        &&& s1.iteration == s0.iteration + 1
        &&& s1.recovery == s0.recovery
        &&& s1.total_usage == s0.total_usage
        &&& s1.compact_count == s0.compact_count
        &&& m1 == (MetricsSnapshot { turns_total: wadd(m0.turns_total, 1), ..m0 })
        &&& r == (if s0.iteration + 1 > max_iterations { Some(TurnStopReason::MaxIterations) } else { None })
    }
}

/// The guards of a run counted one by one.
proof fn lemma_guards_counted(
    states: Seq<TurnState>,
    metrics: Seq<MetricsSnapshot>,
    results: Seq<Option<TurnStopReason>>,
    max_iterations: u32,
)
    requires
        states.len() == results.len() + 1,
        metrics.len() == results.len() + 1,
        states[0].iteration == 0,
        forall|i: int| 0 <= i < results.len() ==> #[trigger] iteration_began(states[i], states[i + 1], metrics[i],
            metrics[i + 1], false, max_iterations, results[i]),
    ensures
        forall|i: int| 0 <= i <= results.len() ==> (#[trigger] states[i]).iteration == i,
        forall|i: int| 0 <= i <= results.len()
            ==> (#[trigger] metrics[i]).turns_total == (metrics[0].turns_total + i) % 0x1_0000_0000_0000_0000,
        forall|i: int| 0 <= i < results.len() ==> ((#[trigger] results[i]) is None <==> i < max_iterations),
        forall|i: int| 0 <= i < results.len() ==> (#[trigger] results[i]) is Some ==> results[i] == Some(TurnStopReason::MaxIterations),
    decreases results.len(),
{
    let n = results.len();
    if n > 0 {
        let k = (n - 1) as int;
        lemma_guards_counted(states.take(n as int), metrics.take(n as int), results.take(k), max_iterations);
        assert(forall|i: int| 0 <= i <= k ==> states.take(n as int)[i] == states[i]);
        assert(forall|i: int| 0 <= i <= k ==> metrics.take(n as int)[i] == metrics[i]);
        assert(forall|i: int| 0 <= i < k ==> results.take(k)[i] == results[i]);
        assert(iteration_began(states[k], states[k + 1], metrics[k], metrics[k + 1], false, max_iterations, results[k]));
        assert(states.take(n as int)[k] == states[k]);
        assert(metrics.take(n as int)[k] == metrics[k]);
        let t0 = metrics[0].turns_total as int;
        assert(metrics.take(n as int)[0] == metrics[0]);
        assert(metrics[k].turns_total == (t0 + k) % 0x1_0000_0000_0000_0000);
        vstd::arithmetic::div_mod::lemma_add_mod_noop(t0 + k, 1, 0x1_0000_0000_0000_0000);
        assert(metrics[k + 1].turns_total == (t0 + k + 1) % 0x1_0000_0000_0000_0000);
    }
}

/// A run's iteration guards, none cancelled, from a fresh turn: after `n`
/// guards the turn counter is `n` and the turn metric has grown by `n`
/// (modulo 2^64, as the counter wraps); a guard stops the run exactly when
/// it is past the `max_iterations`-th, always with `MaxIterations`. So the
/// model is called at most `max_iterations` times (only after a guard that
/// lets the run go on, which carries the counter from 1 to `max_iterations`),
/// and a run stopped this way has counted `max_iterations + 1` iterations
/// and as many turns.
pub proof fn lemma_iterations_counted(
    states: Seq<TurnState>,
    metrics: Seq<MetricsSnapshot>,
    results: Seq<Option<TurnStopReason>>,
    max_iterations: u32,
)
    requires
        states.len() == results.len() + 1,
        metrics.len() == results.len() + 1,
        states[0].iteration == 0,
        forall|i: int| 0 <= i < results.len() ==> #[trigger] iteration_began(states[i], states[i + 1], metrics[i],
            metrics[i + 1], false, max_iterations, results[i]),
    ensures
        forall|i: int| 0 <= i <= results.len() ==> (#[trigger] states[i]).iteration == i,
        forall|i: int| 0 <= i <= results.len()
            ==> (#[trigger] metrics[i]).turns_total == (metrics[0].turns_total + i) % 0x1_0000_0000_0000_0000,
        forall|i: int| 0 <= i < results.len() ==> ((#[trigger] results[i]) is None <==> i < max_iterations),
        forall|i: int| 0 <= i < results.len() ==> (#[trigger] results[i]) is Some ==> results[i] == Some(TurnStopReason::MaxIterations),
        forall|i: int| 0 <= i < results.len() && (#[trigger] results[i]) is None
            ==> 1 <= states[i + 1].iteration <= max_iterations,
        forall|i: int| 0 <= i < results.len() && (#[trigger] results[i]) is Some
            && (forall|j: int| 0 <= j < i ==> results[j] is None)
            ==> i == max_iterations && states[i + 1].iteration == max_iterations + 1
                && metrics[i + 1].turns_total == (metrics[0].turns_total + max_iterations + 1) % 0x1_0000_0000_0000_0000,
{
    lemma_guards_counted(states, metrics, results, max_iterations);
    assert forall|i: int| 0 <= i < results.len() && (#[trigger] results[i]) is Some
        && (forall|j: int| 0 <= j < i ==> results[j] is None) implies i == max_iterations by {
        if i > max_iterations {
            assert(results[max_iterations as int] is Some);
        }
    }
}

/// What the loop carries from one iteration to the next.
pub struct TurnState {
    pub recovery: RecoveryState,
    pub compact_count: u32,
    pub total_usage: TokenUsage,
    pub iteration: u32,
}

impl TurnState {
    /// The state of a turn that has not started an iteration yet.
    pub fn new() -> (r: Self)
        ensures
            r.recovery == crate::kernel::error_recovery::initial_recovery_state(),
            recovery_bounded(r.recovery),
            r.recovery.budget_mode == false,
            r.compact_count == 0,
            r.total_usage == (TokenUsage { input_tokens: 0, output_tokens: 0 }),
            r.iteration == 0,
    {
        TurnState {
            recovery: RecoveryState {
                token_escalation_count: 0,
                low_output_streak: 0,
                has_compacted: false,
                rate_limit_retries: 0,
                server_error_retries: 0,
                budget_mode: false,
            },
            compact_count: 0,
            total_usage: TokenUsage { input_tokens: 0, output_tokens: 0 },
            iteration: 0,
        }
    }

    /// The guards at the top of each iteration: a cancelled turn stops
    /// without counting; otherwise the iteration is counted and the turn
    /// stops once it exceeds `max_iterations`.
    pub fn begin_iteration(&mut self, cancelled: bool, max_iterations: u32, metrics: &mut Metrics) -> (r: Option<TurnStopReason>)
        requires
            cancelled || old(self).iteration < u32::MAX,
        ensures
            iteration_began(*old(self), *final(self), old(metrics).spec_snapshot(), final(metrics).spec_snapshot(),
                cancelled, max_iterations, r),
    {
        if cancelled {
            return Some(TurnStopReason::Cancelled);
        }
        self.iteration = self.iteration + 1;
        metrics.record_turn();
        if self.iteration > max_iterations {
            return Some(TurnStopReason::MaxIterations);
        }
        None
    }

    /// After the stream ended normally: record the assistant message and the
    /// usage, then let error recovery judge the response.
    pub fn after_stream(&mut self, stream: StreamState, messages: &mut Vec<Message>, metrics: &mut Metrics) -> (r: AfterStream)
        requires
            recovery_bounded(old(self).recovery),
            old(self).total_usage.input_tokens + stream.spec_usage().input_tokens <= u64::MAX,
            old(self).total_usage.output_tokens + stream.spec_usage().output_tokens <= u64::MAX,
        ensures
            ({
                let u = stream.spec_usage();
                let stop = stream.spec_stop_reason();
                let n = old(messages)@.len();
                &&& r.content@ == stream.spec_content()
                &&& r.stop_reason == stop
                &&& final(self).recovery == next_state(stop, u.output_tokens, old(self).recovery, None)
                &&& r.action.kind() == next_kind(stop, u.output_tokens, old(self).recovery, None)
                &&& action_data_ok(r.action, stop, old(self).recovery, None)
                &&& r.control == spec_loop_control(r.action)
                &&& (!(r.control is Return) ==> recovery_bounded(final(self).recovery))
                &&& final(self).total_usage.input_tokens == old(self).total_usage.input_tokens + u.input_tokens
                &&& final(self).total_usage.output_tokens == old(self).total_usage.output_tokens + u.output_tokens
                &&& final(self).iteration == old(self).iteration
                &&& final(self).compact_count == old(self).compact_count
                &&& final(messages)@.take(n as int) == old(messages)@
                &&& final(messages)@[n as int].role == Role::Assistant
                &&& final(messages)@[n as int].content@ == stream.spec_content()
                &&& (r.action is InjectContinuation ==> final(messages)@.len() == n + 2
                    && is_text_message(final(messages)@[n as int + 1], final(messages)@[n as int + 1].id@, Role::User, continuation_prompt_text()))
                &&& (!(r.action is InjectContinuation) ==> final(messages)@.len() == n + 1)
                &&& final(metrics).spec_snapshot() == (MetricsSnapshot {
                        input_tokens_total: wadd(old(metrics).spec_snapshot().input_tokens_total, u.input_tokens),
                        output_tokens_total: wadd(old(metrics).spec_snapshot().output_tokens_total, u.output_tokens),
                        errors_total: if r.action is Abort {
                            wadd(old(metrics).spec_snapshot().errors_total, 1)
                        } else {
                            old(metrics).spec_snapshot().errors_total
                        },
                        ..old(metrics).spec_snapshot()
                    })
            }),
    {
        let StreamState { content, buffers: _, usage, stop_reason } = stream;
        let ghost c = content@;
        messages.push(Message::assistant(new_id().as_str(), copy_blocks(content.as_slice())));
        self.total_usage.accumulate(&usage);
        metrics.record_tokens(usage.input_tokens, usage.output_tokens);
        let action = evaluate(&stop_reason, usage.output_tokens, &mut self.recovery, None);
        match &action {
            RecoveryAction::InjectContinuation => {
                messages.push(Message::user(new_id().as_str(), continuation_prompt()));
            },
            RecoveryAction::Abort { .. } => {
                metrics.record_error();
            },
            _ => {},
        }
        let control = action.duplicate().into_loop_control();
        AfterStream { action, control, content, stop_reason }
    }
}

/// The text of the continuation prompt.
pub open spec fn continuation_prompt_text() -> Seq<char> {
    "Your previous response was truncated due to length limits. Continue exactly where you left off. Do not repeat what you already said."@
}

/// What error recovery made of a finished stream.
pub struct AfterStream {
    /// The side effect to perform: compaction or a wait before retrying.
    pub action: RecoveryAction,
    pub control: LoopControl,
    /// The assistant content of the response.
    pub content: Vec<ContentBlock>,
    pub stop_reason: StopReason,
}

/// How the loop proceeds at a context pressure level.
pub enum PressureStep {
    Proceed,
    Compress,
    Stop(TurnStopReason),
}

/// Overflow ends the turn; compaction pressure compresses first.
pub fn pressure_step(p: ContextPressure) -> (r: PressureStep)
    ensures
        p == ContextPressure::Overflow ==> r == PressureStep::Stop(TurnStopReason::ContextOverflow),
        p == ContextPressure::Compact ==> r is Compress,
        p == ContextPressure::Normal ==> r is Proceed,
{
    match p {
        ContextPressure::Overflow => PressureStep::Stop(TurnStopReason::ContextOverflow),
        ContextPressure::Compact => PressureStep::Compress,
        ContextPressure::Normal => PressureStep::Proceed,
    }
}

/// What a compression stage reports.
#[derive(Clone, Copy, Debug, PartialEq, Eq, Structural)]
pub enum StageEvent {
    Collapsed { folded_count: usize },
    Compacted { pre_tokens: usize },
}

/// The loop event of a compression stage; a compaction is counted.
pub fn stage_event(e: StageEvent, metrics: &mut Metrics) -> (r: LoopEvent)
    ensures
        match e {
            StageEvent::Collapsed { folded_count } => r == LoopEvent::Collapsed { folded_count }
                && final(metrics).spec_snapshot() == old(metrics).spec_snapshot(),
            StageEvent::Compacted { pre_tokens } => r == LoopEvent::Compacted { pre_tokens }
                && final(metrics).spec_snapshot() == (MetricsSnapshot { compacts_total: wadd(old(metrics).spec_snapshot().compacts_total, 1), ..old(metrics).spec_snapshot() }),
        },
{
    match e {
        StageEvent::Collapsed { folded_count } => LoopEvent::Collapsed { folded_count },
        StageEvent::Compacted { pre_tokens } => {
            metrics.record_compact();
            LoopEvent::Compacted { pre_tokens }
        },
    }
}

// ---------------------------------------------------------------------------
// Turn end
// ---------------------------------------------------------------------------

/// The payload of a plan review request.
pub open spec fn plan_payload(plan: Seq<char>) -> Seq<char> {
    json_object(seq![("plan"@, json_str(plan)), ("steps"@, "[]"@)])
}

/// How a turn that ended without tool calls finishes.
pub struct Finalize {
    /// Whether any hook handles the pre-complete event (the hooks are only
    /// consulted then).
    pub checked_hooks: bool,
    /// The pre-complete event the hooks were given.
    pub evaluated: Ghost<HookEvent>,
    /// `None`: a hook blocked completion; the loop continues.
    pub result: Option<TurnResult>,
    pub events: Vec<LoopEvent>,
    pub control: Option<PendingControl>,
}

/// Called when the model ended its turn without tool calls: pre-complete
/// hooks may send it back to work; a planning run asks for plan review.
pub fn finalize_turn(
    mode: RunMode,
    hooks: &HookRunner,
    assistant_content: &[ContentBlock],
    messages: &mut Vec<Message>,
    total_usage: TokenUsage,
    iteration: u32,
) -> (r: Finalize)
    ensures
        exists|e: HookEvent| #[trigger] is_empty_pre_complete(e)
            && (r.checked_hooks <==> exists|i: int| 0 <= i < hooks.hooks@.len() && #[trigger] hooks.hooks@[i].spec_handles(e)),
        ({
            let text = text_of(assistant_content@);
            let n = old(messages)@.len();
            let blocked = r.checked_hooks && run_spec(hooks.hooks@, r.evaluated@) is Some;
            &&& r.evaluated@ matches HookEvent::PreComplete { assistant_text } && assistant_text@ == text
            &&& if blocked {
                &&& r.result is None
                &&& r.control is None
                &&& r.events@.len() == 1
                &&& r.events@[0] matches LoopEvent::HookBlocked { hook_name, reason }
                    && hook_name@ == "pre_complete"@
                    && final(messages)@.len() == n + 1
                    && final(messages)@.take(n as int) == old(messages)@
                    && is_text_message(final(messages)@[n as int], final(messages)@[n as int].id@, Role::User, reason@)
                    && run_spec(hooks.hooks@, r.evaluated@) == Some(reason@)
            } else {
                &&& final(messages)@ == old(messages)@
                &&& r.result matches Some(t)
                &&& msgs_view(t.messages@) == msgs_view(old(messages)@)
                &&& t.usage == total_usage
                &&& t.iterations == iteration
                &&& if mode == RunMode::Planning {
                    &&& t.stop_reason matches TurnStopReason::PlanReview { plan } && plan@ == spec_wrap("plan"@, text)
                    &&& r.control matches Some(pc)
                    &&& pc.kind@ == "plan_review"@
                    &&& pc.payload@ == plan_payload(spec_wrap("plan"@, text))
                    &&& r.events@.len() == 3
                    &&& r.events@[0] matches LoopEvent::SessionStateChanged { state } && state@ == "requires_action"@
                    &&& r.events@[1] matches LoopEvent::ControlRequest { request_id, kind, payload }
                        && request_id@ == pc.request_id@ && kind@ == "plan_review"@ && payload@ == pc.payload@
                    &&& r.events@[2] == LoopEvent::TurnEnd { stop_reason: t.stop_reason, usage: total_usage }
                } else {
                    &&& t.stop_reason == TurnStopReason::Completed
                    &&& r.control is None
                    &&& r.events@.len() == 2
                    &&& r.events@[0] == LoopEvent::TurnEnd { stop_reason: TurnStopReason::Completed, usage: total_usage }
                    &&& r.events@[1] matches LoopEvent::SessionStateChanged { state } && state@ == "idle"@
                }
            }
        }),
{
    proof {
        reveal_strlit("pre_complete");
        reveal_strlit("plan_review");
        reveal_strlit("requires_action");
        reveal_strlit("idle");
        reveal_strlit("plan");
        reveal_strlit("steps");
        reveal_strlit("[]");
    }
    let final_text = extract_text(assistant_content);
    let checked = hooks.has_pre_complete_hooks();
    let ev = HookEvent::PreComplete { assistant_text: final_text.clone() };
    let evaluated = Ghost(ev);
    if checked {
        let d = hooks.run(&ev);
        if let HookDecision::Block { reason } = d {
            let mut events: Vec<LoopEvent> = Vec::new();
            events.push(LoopEvent::HookBlocked { hook_name: owned("pre_complete"), reason: reason.clone() });
            messages.push(Message::user(new_id().as_str(), reason.as_str()));
            assert(messages@.take(old(messages)@.len() as int) =~= old(messages)@);
            return Finalize { checked_hooks: checked, evaluated, result: None, events, control: None };
        }
    }
    let mut events: Vec<LoopEvent> = Vec::new();
    let mut control: Option<PendingControl> = None;
    let stop_reason = if mode == RunMode::Planning {
        let request_id = new_id();
        let plan = xml::plan(final_text.as_str());
        let keys: [&str; 2] = ["plan", "steps"];
        let values: Vec<String> = vec![json_string(plan.as_str()), owned("[]")];
        let payload = json_object_of(keys.as_slice(), values.as_slice());
        proof {
            assert(Seq::new(2, |i: int| (keys@[i]@, values@[i]@)) =~= seq![("plan"@, json_str(plan@)), ("steps"@, "[]"@)]);
        }
        control = Some(PendingControl {
            request_id: request_id.clone(),
            kind: owned("plan_review"),
            payload: payload.clone(),
        });
        events.push(LoopEvent::SessionStateChanged { state: owned("requires_action") });
        events.push(LoopEvent::ControlRequest { request_id, kind: owned("plan_review"), payload });
        TurnStopReason::PlanReview { plan }
    } else {
        TurnStopReason::Completed
    };
    events.push(LoopEvent::TurnEnd { stop_reason: stop_reason.duplicate(), usage: total_usage });
    if mode != RunMode::Planning {
        events.push(LoopEvent::SessionStateChanged { state: owned("idle") });
    }
    let result = TurnResult::build(messages.as_slice(), stop_reason, total_usage, iteration);
    Finalize { checked_hooks: checked, evaluated, result: Some(result), events, control }
}


// ---------------------------------------------------------------------------
// Tool results
// ---------------------------------------------------------------------------

/// A tool call the executor finished.
pub struct CompletedTool {
    pub id: String,
    pub name: String,
    pub output: ToolOutput,
}

impl CompletedTool {
    /// The tool result block the model sees.
    pub fn to_content_block(&self) -> (r: ContentBlock)
        ensures
            r == (ContentBlock::ToolResult { tool_use_id: self.id, content: self.output.content, is_error: self.output.is_error }),
    {
        ContentBlock::ToolResult {
            tool_use_id: self.id.clone(),
            content: self.output.content.clone(),
            is_error: self.output.is_error,
        }
    }
}

/// A successful memory write, which the run counts.
pub open spec fn is_memory_write(t: CompletedTool) -> bool {
    t.name@ == "MemoryWrite"@ && !t.output.is_error
}

/// The counter after one more wrapping increment.
pub open spec fn bump(x: u32) -> u32 {
    if x == u32::MAX { 0 } else { (x + 1) as u32 }
}

/// The memory-write counter after these results.
pub open spec fn writes_after(x: u32, rs: Seq<CompletedTool>) -> u32
    decreases rs.len(),
{
    if rs.len() == 0 {
        x
    } else {
        let y = writes_after(x, rs.drop_last());
        if is_memory_write(rs.last()) { bump(y) } else { y }
    }
}

/// The loop event announcing a finished tool.
pub open spec fn result_event(t: CompletedTool) -> LoopEvent {
    LoopEvent::ToolResult { id: t.id, name: t.name, content: t.output.content, is_error: t.output.is_error }
}

/// The event announcing a finished tool, before its result is collected.
pub fn tool_result_event(done: &CompletedTool) -> (r: LoopEvent)
    ensures
        r == result_event(*done),
{
    LoopEvent::ToolResult {
        id: done.id.clone(),
        name: done.name.clone(),
        content: done.output.content.clone(),
        is_error: done.output.is_error,
    }
}

/// Whether the event announces the result of one of the given calls.
pub open spec fn announces_one_of(e: LoopEvent, ids: Seq<Seq<char>>) -> bool {
    match e {
        LoopEvent::ToolResult { id, .. } => ids.contains(id@),
        _ => false,
    }
}

fn id_in(id: &str, ids: &[String]) -> (r: bool)
    ensures
        r == crate::text::views(ids@).contains(id@),
{
    let mut i: usize = 0;
    while i < ids.len()
        invariant
            i <= ids@.len(),
            forall|k: int| 0 <= k < i ==> ids@[k]@ != id@,
        decreases ids@.len() - i,
    {
        if crate::text::str_eq(ids[i].as_str(), id) {
            assert(crate::text::views(ids@)[i as int] == id@);
            return true;
        }
        i = i + 1;
    }
    assert forall|k: int| 0 <= k < crate::text::views(ids@).len() implies crate::text::views(ids@)[k] != id@ by {
        assert(crate::text::views(ids@)[k] == ids@[k]@);
    }
    false
}

/// The collected events but the results of the calls already announced
/// while the model was streaming, so that no result is announced twice.
pub fn drop_announced(events: Vec<LoopEvent>, announced: &[String]) -> (r: Vec<LoopEvent>)
    ensures
        r@ == events@.filter(|e: LoopEvent| !announces_one_of(e, crate::text::views(announced@))),
{
    let ghost ids = crate::text::views(announced@);
    let ghost p = |e: LoopEvent| !announces_one_of(e, ids);
    let ghost orig = events@;
    assert(orig.len() == events.len());
    let mut rest = events;
    let mut r: Vec<LoopEvent> = Vec::new();
    let mut k: usize = 0;
    while rest.len() > 0
        invariant
            k + rest@.len() == orig.len() <= usize::MAX,
            rest@ == orig.skip(k as int),
            r@ == orig.take(k as int).filter(p),
            ids == crate::text::views(announced@),
            p == (|e: LoopEvent| !announces_one_of(e, ids)),
        decreases rest@.len(),
    {
        let e = rest.remove(0);
        proof {
            assert(e == orig[k as int]);
            assert(orig.take(k + 1).drop_last() =~= orig.take(k as int));
            assert(orig.take(k + 1).last() == e);
            reveal_with_fuel(Seq::filter, 1);
            assert(rest@ =~= orig.skip(k + 1));
        }
        let keep = match &e {
            LoopEvent::ToolResult { id, .. } => !id_in(id.as_str(), announced),
            _ => true,
        };
        if keep {
            r.push(e);
        }
        k = k + 1;
    }
    assert(orig.take(orig.len() as int) =~= orig);
    r
}

/// The event for a finished tool; a successful memory write is counted.
pub fn emit_tool_result(stats: &mut LoopStats, done: &CompletedTool) -> (r: LoopEvent)
    ensures
        r == result_event(*done),
        final(stats).spec_memories_written() == (if is_memory_write(*done) {
            bump(old(stats).spec_memories_written())
        } else {
            old(stats).spec_memories_written()
        }),
{
    proof {
        reveal_strlit("MemoryWrite");
    }
    if crate::text::str_eq(done.name.as_str(), "MemoryWrite") && !done.output.is_error {
        stats.record_memory_write();
    }
    LoopEvent::ToolResult {
        id: done.id.clone(),
        name: done.name.clone(),
        content: done.output.content.clone(),
        is_error: done.output.is_error,
    }
}

/// The messages tools asked to append, in order.
pub open spec fn extra_messages(rs: Seq<CompletedTool>) -> Seq<Message>
    decreases rs.len(),
{
    if rs.len() == 0 { Seq::empty() } else { extra_messages(rs.drop_last()) + rs.last().output.extra_messages@ }
}

/// After the executor finished every tool: run the post-tool-use hooks
/// (for audit; they cannot block), publish each result, append the
/// messages tools asked for, then one user message with all results.
pub fn collect_tool_results(
    results: Vec<CompletedTool>,
    hooks: &HookRunner,
    messages: &mut Vec<Message>,
    stats: &mut LoopStats,
) -> (r: Vec<LoopEvent>)
    ensures
        r@ == results@.map_values(|t: CompletedTool| result_event(t)),
        final(stats).spec_memories_written() == writes_after(old(stats).spec_memories_written(), results@),
        ({
            let n = old(messages)@.len() as int;
            let k = extra_messages(results@).len() as int;
            &&& final(messages)@.len() == n + k + 1
            &&& msgs_view(final(messages)@.take(n + k)) == msgs_view(old(messages)@ + extra_messages(results@))
            &&& final(messages)@[n + k].role == Role::User
            &&& final(messages)@[n + k].content@ == results@.map_values(|t: CompletedTool|
                ContentBlock::ToolResult { tool_use_id: t.id, content: t.output.content, is_error: t.output.is_error })
        }),
{
    let ghost m0 = messages@;
    let ghost s0 = stats.spec_memories_written();
    let mut events: Vec<LoopEvent> = Vec::new();
    let mut blocks: Vec<ContentBlock> = Vec::new();
    let mut i: usize = 0;
    while i < results.len()
        invariant
            i <= results@.len(),
            events@ == results@.take(i as int).map_values(|t: CompletedTool| result_event(t)),
            blocks@ == results@.take(i as int).map_values(|t: CompletedTool|
                ContentBlock::ToolResult { tool_use_id: t.id, content: t.output.content, is_error: t.output.is_error }),
            stats.spec_memories_written() == writes_after(s0, results@.take(i as int)),
            msgs_view(messages@) == msgs_view(m0 + extra_messages(results@.take(i as int))),
        decreases results@.len() - i,
    {
        let t = &results[i];
        assert(results@.take(i + 1).drop_last() =~= results@.take(i as int));
        let audit = HookEvent::PostToolUse {
            tool_name: t.name.clone(),
            input: owned("null"),
            output: ToolOutput {
                content: t.output.content.clone(),
                is_error: t.output.is_error,
                extra_messages: copy_messages(t.output.extra_messages.as_slice()),
            },
        };
        let _ = hooks.run(&audit);
        events.push(emit_tool_result(stats, t));
        blocks.push(t.to_content_block());
        let ghost before = messages@;
        let mut j: usize = 0;
        while j < t.output.extra_messages.len()
            invariant
                j <= t.output.extra_messages@.len(),
                msgs_view(messages@) == msgs_view(before + t.output.extra_messages@.take(j as int)),
            decreases t.output.extra_messages@.len() - j,
        {
            let ghost b = messages@;
            messages.push(t.output.extra_messages[j].duplicate());
            proof {
                assert(msgs_view(messages@) =~= msgs_view(b).push(t.output.extra_messages@[j as int]@));
                assert(before + t.output.extra_messages@.take(j + 1) =~= (before + t.output.extra_messages@.take(j as int)).push(t.output.extra_messages@[j as int]));
                assert(msgs_view((before + t.output.extra_messages@.take(j as int)).push(t.output.extra_messages@[j as int]))
                    =~= msgs_view(before + t.output.extra_messages@.take(j as int)).push(t.output.extra_messages@[j as int]@));
            }
            j = j + 1;
        }
        proof {
            assert(t.output.extra_messages@.take(t.output.extra_messages@.len() as int) =~= t.output.extra_messages@);
            let x = extra_messages(results@.take(i as int));
            assert(extra_messages(results@.take(i + 1)) == x + t.output.extra_messages@);
            assert(m0 + (x + t.output.extra_messages@) =~= (m0 + x) + t.output.extra_messages@);
            lemma_msgs_view_concat(before, m0 + x, t.output.extra_messages@);
        }
        i = i + 1;
        proof {
            assert(events@ =~= results@.take(i as int).map_values(|t: CompletedTool| result_event(t)));
            assert(blocks@ =~= results@.take(i as int).map_values(|t: CompletedTool|
                ContentBlock::ToolResult { tool_use_id: t.id, content: t.output.content, is_error: t.output.is_error }));
        }
    }
    assert(results@.take(results@.len() as int) =~= results@);
    let ghost mid = messages@;
    messages.push(Message::tool_results(new_id().as_str(), blocks));
    proof {
        assert(msgs_view(mid).len() == mid.len());
        assert(msgs_view(m0 + extra_messages(results@)).len() == m0.len() + extra_messages(results@).len());
        assert(messages@.take(mid.len() as int) =~= mid);
    }
    events
}

proof fn lemma_msgs_view_concat(a: Seq<Message>, b: Seq<Message>, c: Seq<Message>)
    requires
        msgs_view(a) == msgs_view(b),
    ensures
        msgs_view(a + c) == msgs_view(b + c),
{
    assert(msgs_view(a).len() == a.len());
    assert(msgs_view(b).len() == b.len());
    assert forall|i: int| 0 <= i < a.len() implies a[i]@ == b[i]@ by {
        assert(msgs_view(a)[i] == a[i]@);
        assert(msgs_view(b)[i] == b[i]@);
    }
    assert(msgs_view(a + c) =~= msgs_view(b + c));
}


// ---------------------------------------------------------------------------
// What dispatch promises
// ---------------------------------------------------------------------------

/// A tool call reaches the executor only when the permission evaluator
/// allows it and no pre-tool-use hook blocks it.
pub proof fn lemma_submit_only_when_allowed(
    outcome: DispatchOutcome, control: Option<PendingControl>, events: Seq<LoopEvent>,
    id: Seq<char>, name: Seq<char>, input: Seq<char>, decision: PermissionDecision, hook: Option<Seq<char>>,
    m0: MetricsSnapshot, m1: MetricsSnapshot, c0: Seq<ContentBlock>, c1: Seq<ContentBlock>,
    ms0: Seq<Message>, ms1: Seq<Message>,
)
    requires
        dispatch_ok(outcome, control, events, id, name, input, decision, hook, m0, m1, c0, c1, ms0, ms1),
        outcome is Submit,
    ensures
        decision == PermissionDecision::Allow,
        hook is None,
{
}

/// A denied or blocked call is answered: the conversation gains the call and
/// an error result for it, so the model sees why it did not run.
pub proof fn lemma_blocked_call_answered(
    outcome: DispatchOutcome, control: Option<PendingControl>, events: Seq<LoopEvent>,
    id: Seq<char>, name: Seq<char>, input: Seq<char>, decision: PermissionDecision, hook: Option<Seq<char>>,
    m0: MetricsSnapshot, m1: MetricsSnapshot, c0: Seq<ContentBlock>, c1: Seq<ContentBlock>,
    ms0: Seq<Message>, ms1: Seq<Message>,
)
    requires
        dispatch_ok(outcome, control, events, id, name, input, decision, hook, m0, m1, c0, c1, ms0, ms1),
        outcome is Blocked,
    ensures
        ms1.len() == ms0.len() + 2,
        ms1[ms0.len() as int].content@ == c1,
        pushed_call(c0, c1, id, name, input),
        ms1[ms0.len() as int + 1].content@.len() == 1,
        ms1[ms0.len() as int + 1].content@[0] matches ContentBlock::ToolResult { tool_use_id: t, is_error: e, .. }
            && t@ == id && e,
        control is None,
{
}

/// A call that needs the user's permission pauses the turn and changes
/// nothing in the conversation.
pub proof fn lemma_permission_request_pauses(
    outcome: DispatchOutcome, control: Option<PendingControl>, events: Seq<LoopEvent>,
    id: Seq<char>, name: Seq<char>, input: Seq<char>, hook: Option<Seq<char>>,
    m0: MetricsSnapshot, m1: MetricsSnapshot, c0: Seq<ContentBlock>, c1: Seq<ContentBlock>,
    ms0: Seq<Message>, ms1: Seq<Message>,
)
    requires
        dispatch_ok(outcome, control, events, id, name, input, PermissionDecision::Ask, hook, m0, m1, c0, c1, ms0, ms1),
    ensures
        outcome is RequiresAction,
        control is Some,
        c1 == c0,
        ms1 == ms0,
        m1 == m0,
{
}

}
