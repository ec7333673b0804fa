//! Context window pressure.
//!
//! Token counts are estimated from UTF-8 byte lengths (about four bytes
//! per token); the estimate only has to tell whether the window is close
//! to full.
use vstd::prelude::*;
use vstd::utf8::encode_utf8;
use crate::common::message::{ContentBlock, Message};

verus! {

/// Approximate bytes per token.
pub const CHARS_PER_TOKEN: usize = 4;

/// UTF-8 length of a string, in bytes.
pub open spec fn blen(s: Seq<char>) -> nat {
    encode_utf8(s).len()
}

/// Size of one content block.
pub open spec fn block_size(b: ContentBlock) -> nat {
    match b {
        ContentBlock::Text { text } => blen(text@),
        ContentBlock::Thinking { text } => blen(text@),
        ContentBlock::ToolUse { name, input, .. } => blen(name@) + blen(input@),
        ContentBlock::ToolResult { content, .. } => blen(content@),
        ContentBlock::CompactBoundary { summary } => blen(summary@),
        ContentBlock::Collapsed { summary, .. } => blen(summary@),
    }
}

/// Total size of a list of blocks.
pub open spec fn blocks_size(bs: Seq<ContentBlock>) -> nat
    decreases bs.len(),
{
    if bs.len() == 0 { 0 } else { blocks_size(bs.drop_last()) + block_size(bs.last()) }
}

/// Total size of a list of messages.
pub open spec fn messages_size(ms: Seq<Message>) -> nat
    decreases ms.len(),
{
    if ms.len() == 0 { 0 } else { messages_size(ms.drop_last()) + blocks_size(ms.last().content@) }
}

/// Estimated tokens of a list of messages.
pub open spec fn spec_estimate_tokens(ms: Seq<Message>) -> nat {
    messages_size(ms) / (CHARS_PER_TOKEN as nat)
}

proof fn lemma_blocks_size_mono(bs: Seq<ContentBlock>, i: int)
    requires
        0 <= i <= bs.len(),
    ensures
        blocks_size(bs.take(i)) <= blocks_size(bs),
    decreases bs.len() - i,
{
    if i < bs.len() {
        lemma_blocks_size_mono(bs, i + 1);
        assert(bs.take(i + 1).drop_last() =~= bs.take(i));
    } else {
        assert(bs.take(i) =~= bs);
    }
}

proof fn lemma_messages_size_mono(ms: Seq<Message>, i: int)
    requires
        0 <= i <= ms.len(),
    ensures
        messages_size(ms.take(i)) <= messages_size(ms),
    decreases ms.len() - i,
{
    if i < ms.len() {
        lemma_messages_size_mono(ms, i + 1);
        assert(ms.take(i + 1).drop_last() =~= ms.take(i));
    } else {
        assert(ms.take(i) =~= ms);
    }
}

/// Size of one content block.
pub fn block_char_count(block: &ContentBlock) -> (r: usize)
    requires
        block_size(*block) <= usize::MAX,
    ensures
        r == block_size(*block),
{
    match block {
        ContentBlock::Text { text } => text.as_str().len(),
        ContentBlock::Thinking { text } => text.as_str().len(),
        ContentBlock::ToolUse { name, input, .. } => name.as_str().len() + input.as_str().len(),
        ContentBlock::ToolResult { content, .. } => content.as_str().len(),
        ContentBlock::CompactBoundary { summary } => summary.as_str().len(),
        ContentBlock::Collapsed { summary, .. } => summary.as_str().len(),
    }
}

fn blocks_char_count(blocks: &[ContentBlock]) -> (r: usize)
    requires
        blocks_size(blocks@) <= usize::MAX,
    ensures
        r == blocks_size(blocks@),
{
    let mut total: usize = 0;
    let mut i: usize = 0;
    while i < blocks.len()
        invariant
            i <= blocks@.len(),
            blocks_size(blocks@) <= usize::MAX,
            total == blocks_size(blocks@.take(i as int)),
        decreases blocks@.len() - i,
    {
        proof {
            lemma_blocks_size_mono(blocks@, i + 1);
            assert(blocks@.take(i + 1).drop_last() =~= blocks@.take(i as int));
        }
        total = total + block_char_count(&blocks[i]);
        i = i + 1;
    }
    assert(blocks@.take(blocks@.len() as int) =~= blocks@);
    total
}

/// Estimated token count of a message list (bytes divided by four).
pub fn estimate_tokens(messages: &[Message]) -> (r: usize)
    requires
        messages_size(messages@) <= usize::MAX,
    ensures
        r == spec_estimate_tokens(messages@),
{
    let mut total: usize = 0;
    let mut i: usize = 0;
    while i < messages.len()
        invariant
            i <= messages@.len(),
            messages_size(messages@) <= usize::MAX,
            total == messages_size(messages@.take(i as int)),
        decreases messages@.len() - i,
    {
        proof {
            lemma_messages_size_mono(messages@, i + 1);
            assert(messages@.take(i + 1).drop_last() =~= messages@.take(i as int));
        }
        total = total + blocks_char_count(messages[i].content.as_slice());
        i = i + 1;
    }
    assert(messages@.take(messages@.len() as int) =~= messages@);
    total / CHARS_PER_TOKEN
}

/// What the context manager recommends, from least to most severe.
#[derive(Clone, Copy, Debug, PartialEq, Eq, PartialOrd, Ord, Structural)]
pub enum ContextPressure {
    /// Plenty of room.
    Normal,
    /// Approaching the limit: compact before the next API call.
    Compact,
    /// Over the limit even after compaction: abort the turn.
    Overflow,
}

impl ContextPressure {
    pub open spec fn spec_severity(self) -> nat {
        match self {
            ContextPressure::Normal => 0,
            ContextPressure::Compact => 1,
            ContextPressure::Overflow => 2,
        }
    }

    /// 0 for normal, 1 for compact, 2 for overflow.
    pub fn severity(&self) -> (r: u8)
        ensures
            r == self.spec_severity(),
    {
        match self {
            ContextPressure::Normal => 0,
            ContextPressure::Compact => 1,
            ContextPressure::Overflow => 2,
        }
    }
}

/// Pressure for an estimate, a window and a compaction threshold (tokens).
pub open spec fn pressure_of(estimated: nat, max_tokens: nat, threshold: nat) -> ContextPressure {
    if estimated > max_tokens {
        ContextPressure::Overflow
    } else if estimated > threshold {
        ContextPressure::Compact
    } else {
        ContextPressure::Normal
    }
}

/// Index of the last compact boundary, or 0 when there is none.
pub open spec fn api_start(ms: Seq<Message>) -> int
    decreases ms.len(),
{
    if ms.len() == 0 {
        0
    } else if ms.last().spec_is_compact_boundary() {
        ms.len() - 1
    } else {
        api_start(ms.drop_last())
    }
}

/// Context window manager for one model's window.
///
/// The compaction threshold is held in tokens; callers that configure it
/// as a fraction of the window convert it once.
pub struct ContextManager {
    pub max_tokens: usize,
    pub compact_threshold_tokens: usize,
}

impl ContextManager {
    /// A manager for a window of `max_tokens` that compacts above `threshold_tokens`.
    pub fn with_limits(max_tokens: usize, threshold_tokens: usize) -> (r: Self)
        ensures
            r.max_tokens == max_tokens,
            r.compact_threshold_tokens == threshold_tokens,
    {
        ContextManager { max_tokens, compact_threshold_tokens: threshold_tokens }
    }

    /// Pressure of the given history, checked before every API call.
    pub fn check_pressure(&self, messages: &[Message]) -> (r: ContextPressure)
        requires
            messages_size(messages@) <= usize::MAX,
        ensures
            r == pressure_of(spec_estimate_tokens(messages@), self.max_tokens as nat, self.compact_threshold_tokens as nat),
    {
        let estimated = estimate_tokens(messages);
        if estimated > self.max_tokens {
            ContextPressure::Overflow
        } else if estimated > self.compact_threshold_tokens {
            ContextPressure::Compact
        } else {
            ContextPressure::Normal
        }
    }

    /// The messages sent to the API: from the last compact boundary on.
    pub fn messages_for_api<'a>(&self, messages: &'a [Message]) -> (r: &'a [Message])
        ensures
            r@ == messages@.skip(api_start(messages@)),
    {
        let mut i: usize = messages.len();
        while i > 0
            invariant
                i <= messages@.len(),
                forall|k: int| i <= k < messages@.len() ==> !(#[trigger] messages@[k]).spec_is_compact_boundary(),
            decreases i,
        {
            if messages[i - 1].is_compact_boundary() {
                let pos = i - 1;
                proof {
                    lemma_api_start_tail(messages@, pos as int);
                }
                return &messages[pos..messages.len()];
            }
            i = i - 1;
        }
        proof {
            lemma_api_start_tail(messages@, -1);
            assert(messages@.skip(0) =~= messages@);
        }
        &messages[0..messages.len()]
    }

    /// Tokens left before the compaction threshold (0 when past it).
    pub fn remaining_before_compact(&self, messages: &[Message]) -> (r: usize)
        requires
            messages_size(messages@) <= usize::MAX,
        ensures
            r == (if spec_estimate_tokens(messages@) >= self.compact_threshold_tokens {
                0
            } else {
                self.compact_threshold_tokens - spec_estimate_tokens(messages@)
            }),
    {
        let used = estimate_tokens(messages);
        self.compact_threshold_tokens.saturating_sub(used)
    }
}

/// `api_start` is the last boundary position, when that is after every other boundary.
proof fn lemma_api_start_tail(ms: Seq<Message>, pos: int)
    requires
        -1 <= pos < ms.len(),
        pos >= 0 ==> ms[pos].spec_is_compact_boundary(),
        forall|k: int| pos < k < ms.len() ==> !(#[trigger] ms[k]).spec_is_compact_boundary(),
    ensures
        api_start(ms) == (if pos >= 0 { pos } else { 0 }),
    decreases ms.len(),
{
    if ms.len() > 0 && ms.len() - 1 != pos {
        let t = ms.drop_last();
        assert forall|k: int| pos < k < t.len() implies !(#[trigger] t[k]).spec_is_compact_boundary() by {
            assert(t[k] == ms[k]);
        }
        if pos >= 0 {
            assert(t[pos] == ms[pos]);
        }
        lemma_api_start_tail(t, pos);
    }
}

// ---------------------------------------------------------------------------
// Laws
// ---------------------------------------------------------------------------

/// Pressure never decreases as the estimate grows.
pub proof fn lemma_pressure_monotone(e1: nat, e2: nat, max_tokens: nat, threshold: nat)
    requires
        e1 <= e2,
    ensures
        pressure_of(e1, max_tokens, threshold).spec_severity() <= pressure_of(e2, max_tokens, threshold).spec_severity(),
{
}

/// The API window starts at the last compact boundary: it begins with that
/// boundary and holds no other one.
pub proof fn lemma_api_window_starts_at_last_boundary(ms: Seq<Message>)
    requires
        exists|i: int| 0 <= i < ms.len() && (#[trigger] ms[i]).spec_is_compact_boundary(),
    ensures
        0 <= api_start(ms) < ms.len(),
        ms[api_start(ms)].spec_is_compact_boundary(),
        forall|k: int| api_start(ms) < k < ms.len() ==> !(#[trigger] ms[k]).spec_is_compact_boundary(),
    decreases ms.len(),
{
    if !ms.last().spec_is_compact_boundary() {
        let t = ms.drop_last();
        let i = choose|i: int| 0 <= i < ms.len() && (#[trigger] ms[i]).spec_is_compact_boundary();
        assert(t[i] == ms[i]);
        lemma_api_window_starts_at_last_boundary(t);
        assert forall|k: int| api_start(ms) < k < ms.len() implies !(#[trigger] ms[k]).spec_is_compact_boundary() by {
            if k < t.len() {
                assert(t[k] == ms[k]);
            }
        }
        assert(t[api_start(t)] == ms[api_start(t)]);
    }
}

/// Without a boundary, the whole history is sent.
pub proof fn lemma_api_window_without_boundary(ms: Seq<Message>)
    requires
        forall|i: int| 0 <= i < ms.len() ==> !(#[trigger] ms[i]).spec_is_compact_boundary(),
    ensures
        api_start(ms) == 0,
{
    lemma_api_start_tail(ms, -1);
}

/// A block's size is the UTF-8 byte length of the text it carries, for
/// every kind of block: a tool call's name and input, a tool result's
/// content, and the text of the others.
pub proof fn lemma_block_size_is_its_bytes(b: ContentBlock)
    ensures
        b matches ContentBlock::Text { text } ==> block_size(b) == encode_utf8(text@).len(),
        b matches ContentBlock::Thinking { text } ==> block_size(b) == encode_utf8(text@).len(),
        b matches ContentBlock::ToolUse { name, input, .. }
            ==> block_size(b) == encode_utf8(name@).len() + encode_utf8(input@).len(),
        b matches ContentBlock::ToolResult { content, .. } ==> block_size(b) == encode_utf8(content@).len(),
        b matches ContentBlock::CompactBoundary { summary } ==> block_size(b) == encode_utf8(summary@).len(),
        b matches ContentBlock::Collapsed { summary, .. } ==> block_size(b) == encode_utf8(summary@).len(),
{
}

proof fn lemma_blocks_size_has_block(bs: Seq<ContentBlock>, j: int)
    requires
        0 <= j < bs.len(),
    ensures
        block_size(bs[j]) <= blocks_size(bs),
    decreases bs.len(),
{
    if j < bs.len() - 1 {
        lemma_blocks_size_has_block(bs.drop_last(), j);
        assert(bs.drop_last()[j] == bs[j]);
    }
}

proof fn lemma_messages_size_has_message(ms: Seq<Message>, i: int)
    requires
        0 <= i < ms.len(),
    ensures
        blocks_size(ms[i].content@) <= messages_size(ms),
    decreases ms.len(),
{
    if i < ms.len() - 1 {
        lemma_messages_size_has_message(ms.drop_last(), i);
        assert(ms.drop_last()[i] == ms[i]);
    }
}

/// Every block of the history counts toward the estimate: four times the
/// estimate, plus three, is at least the block's bytes. In particular a
/// tool result's content counts with its UTF-8 length.
pub proof fn lemma_every_block_counts(ms: Seq<Message>, i: int, j: int)
    requires
        0 <= i < ms.len(),
        0 <= j < ms[i].content@.len(),
    ensures
        block_size(ms[i].content@[j]) <= 4 * spec_estimate_tokens(ms) + 3,
        ms[i].content@[j] matches ContentBlock::ToolResult { content, .. }
            ==> encode_utf8(content@).len() <= 4 * spec_estimate_tokens(ms) + 3,
{
    lemma_blocks_size_has_block(ms[i].content@, j);
    lemma_messages_size_has_message(ms, i);
    lemma_block_size_is_its_bytes(ms[i].content@[j]);
}

/// Appending a message adds the bytes of its blocks: the estimate of a
/// history is the bytes of all its blocks, message by message, over four.
pub proof fn lemma_sizes_add_up(ms: Seq<Message>, m: Message, bs: Seq<ContentBlock>, b: ContentBlock)
    ensures
        messages_size(ms.push(m)) == messages_size(ms) + blocks_size(m.content@),
        blocks_size(bs.push(b)) == blocks_size(bs) + block_size(b),
        messages_size(Seq::empty()) == 0,
        blocks_size(Seq::empty()) == 0,
        4 * spec_estimate_tokens(ms) <= messages_size(ms) < 4 * spec_estimate_tokens(ms) + 4,
{
    assert(ms.push(m).drop_last() =~= ms);
    assert(bs.push(b).drop_last() =~= bs);
}

/// A history of one message holding one tool result of content `c` is
/// estimated at `c`'s UTF-8 bytes over four, and its pressure follows from
/// that estimate.
pub proof fn lemma_tool_result_history(ms: Seq<Message>, max_tokens: nat, threshold: nat)
    requires
        ms.len() == 1,
        ms[0].content@.len() == 1,
        ms[0].content@[0] is ToolResult,
    ensures
        ms[0].content@[0] matches ContentBlock::ToolResult { content, .. }
            && spec_estimate_tokens(ms) == encode_utf8(content@).len() / 4
            && pressure_of(spec_estimate_tokens(ms), max_tokens, threshold)
                == pressure_of(encode_utf8(content@).len() / 4, max_tokens, threshold),
{
    let m = ms[0];
    assert(ms.drop_last() =~= Seq::<Message>::empty());
    assert(m.content@.drop_last() =~= Seq::<ContentBlock>::empty());
    lemma_block_size_is_its_bytes(m.content@[0]);
    assert(messages_size(ms) == messages_size(ms.drop_last()) + blocks_size(m.content@));
    assert(blocks_size(m.content@) == blocks_size(m.content@.drop_last()) + block_size(m.content@[0]));
    assert(messages_size(ms) == block_size(m.content@[0]));
}

/// The pressure levels split the estimates at the window and at the
/// threshold: past the window is overflow; within it, past the threshold is
/// compaction; anything else is normal.
pub proof fn lemma_pressure_levels(estimated: nat, max_tokens: nat, threshold: nat)
    ensures
        pressure_of(estimated, max_tokens, threshold) == ContextPressure::Overflow <==> estimated > max_tokens,
        pressure_of(estimated, max_tokens, threshold) == ContextPressure::Compact
            <==> threshold < estimated <= max_tokens,
        pressure_of(estimated, max_tokens, threshold) == ContextPressure::Normal
            <==> estimated <= threshold && estimated <= max_tokens,
{
}

}
