//! Conversation messages and the events of an LLM response stream.
use vstd::prelude::*;
use crate::text::owned;

verus! {

/// Who authored a message.
#[derive(Clone, Copy, Debug, PartialEq, Eq, Structural)]
pub enum Role {
    User,
    Assistant,
    System,
}

/// One block of message content.
///
/// Tool inputs are carried as compact JSON text, the form in which the
/// provider delivers and re-serialises them.
#[derive(Clone, Debug, PartialEq)]
pub enum ContentBlock {
    Text { text: String },
    Thinking { text: String },
    ToolUse { id: String, name: String, input: String },
    ToolResult { tool_use_id: String, content: String, is_error: bool },
    CompactBoundary { summary: String },
    Collapsed {
        folded_count: u32,
        first_message_id: String,
        last_message_id: String,
        summary: String,
    },
}

/// A message in a conversation.
#[derive(Clone, Debug, PartialEq)]
pub struct Message {
    pub id: String,
    pub role: Role,
    pub content: Vec<ContentBlock>,
}

/// The mathematical value of a message.
pub struct MessageView {
    pub id: Seq<char>,
    pub role: Role,
    pub content: Seq<ContentBlock>,
}

impl View for Message {
    type V = MessageView;

    open spec fn view(&self) -> MessageView {
        MessageView { id: self.id@, role: self.role, content: self.content@ }
    }
}

/// The values of a sequence of messages.
pub open spec fn msgs_view(s: Seq<Message>) -> Seq<MessageView> {
    s.map_values(|m: Message| m@)
}

/// Why the model stopped generating.
#[derive(Clone, Copy, Debug, PartialEq, Eq, Structural)]
pub enum StopReason {
    EndTurn,
    MaxTokens,
    ToolUse,
    StopSequence,
}

/// Token accounting of one or more API calls.
#[derive(Clone, Copy, Debug, PartialEq, Eq, Structural)]
pub struct TokenUsage {
    pub input_tokens: u64,
    pub output_tokens: u64,
}

/// One event of a streamed LLM response.
#[derive(Clone, Debug, PartialEq)]
pub enum StreamEvent {
    TextDelta { text: String },
    ThinkingDelta { text: String },
    ToolUseStart { id: String, name: String },
    ToolInputDelta { id: String, json_chunk: String },
    ToolUseEnd { id: String },
    MessageEnd { usage: TokenUsage, stop_reason: StopReason },
    Error { message: String, is_retryable: bool },
}

/// What a tool handed back.
#[derive(Clone, Debug, PartialEq)]
pub struct ToolOutput {
    pub content: String,
    pub is_error: bool,
    /// Messages the tool asks to append to the conversation.
    pub extra_messages: Vec<Message>,
}

impl ContentBlock {
    /// An identical copy of this block.
    pub fn duplicate(&self) -> (r: Self)
        ensures
            r == *self,
    {
        match self {
            ContentBlock::Text { text } => ContentBlock::Text { text: text.clone() },
            ContentBlock::Thinking { text } => ContentBlock::Thinking { text: text.clone() },
            ContentBlock::ToolUse { id, name, input } => ContentBlock::ToolUse {
                id: id.clone(),
                name: name.clone(),
                input: input.clone(),
            },
            ContentBlock::ToolResult { tool_use_id, content, is_error } => ContentBlock::ToolResult {
                tool_use_id: tool_use_id.clone(),
                content: content.clone(),
                is_error: *is_error,
            },
            ContentBlock::CompactBoundary { summary } => ContentBlock::CompactBoundary {
                summary: summary.clone(),
            },
            ContentBlock::Collapsed { folded_count, first_message_id, last_message_id, summary } =>
                ContentBlock::Collapsed {
                folded_count: *folded_count,
                first_message_id: first_message_id.clone(),
                last_message_id: last_message_id.clone(),
                summary: summary.clone(),
            },
        }
    }
}

/// An identical copy of `blocks`.
pub fn copy_blocks(blocks: &[ContentBlock]) -> (r: Vec<ContentBlock>)
    ensures
        r@ == blocks@,
{
    let mut r: Vec<ContentBlock> = Vec::new();
    let mut i: usize = 0;
    while i < blocks.len()
        invariant
            i <= blocks@.len(),
            r@ == blocks@.take(i as int),
        decreases blocks@.len() - i,
    {
        r.push(blocks[i].duplicate());
        i = i + 1;
        assert(r@ =~= blocks@.take(i as int));
    }
    assert(blocks@.take(blocks@.len() as int) =~= blocks@);
    r
}

/// An identical copy of `messages[lo..hi]`.
pub fn copy_messages_range(messages: &[Message], lo: usize, hi: usize) -> (r: Vec<Message>)
    requires
        lo <= hi <= messages@.len(),
    ensures
        msgs_view(r@) == msgs_view(messages@.subrange(lo as int, hi as int)),
{
    let mut r: Vec<Message> = Vec::new();
    let mut i: usize = lo;
    while i < hi
        invariant
            lo <= i <= hi <= messages@.len(),
            r@.len() == i - lo,
            forall|k: int| 0 <= k < r@.len() ==> #[trigger] r@[k]@ == messages@[lo + k]@,
        decreases hi - i,
    {
        r.push(messages[i].duplicate());
        i = i + 1;
    }
    assert(msgs_view(r@) =~= msgs_view(messages@.subrange(lo as int, hi as int)));
    r
}

/// An identical copy of `messages`.
pub fn copy_messages(messages: &[Message]) -> (r: Vec<Message>)
    ensures
        msgs_view(r@) == msgs_view(messages@),
{
    let r = copy_messages_range(messages, 0, messages.len());
    assert(messages@.subrange(0, messages@.len() as int) =~= messages@);
    r
}

/// A message whose single block is the text `text`.
pub open spec fn is_text_message(m: Message, id: Seq<char>, role: Role, text: Seq<char>) -> bool {
    &&& m.id@ == id
    &&& m.role == role
    &&& m.content.len() == 1
    &&& m.content@[0] matches ContentBlock::Text { text: t } && t@ == text
}

impl Message {
    /// An identical copy of this message.
    pub fn duplicate(&self) -> (r: Self)
        ensures
            r@ == self@,
    {
        Message { id: self.id.clone(), role: self.role, content: copy_blocks(self.content.as_slice()) }
    }

    /// A user message holding one text block.
    pub fn user(id: &str, text: &str) -> (m: Self)
        ensures
            is_text_message(m, id@, Role::User, text@),
    {
        let mut content: Vec<ContentBlock> = Vec::new();
        content.push(ContentBlock::Text { text: owned(text) });
        Message { id: owned(id), role: Role::User, content }
    }

    /// An assistant message with the given content.
    pub fn assistant(id: &str, content: Vec<ContentBlock>) -> (m: Self)
        ensures
            m.id@ == id@,
            m.role == Role::Assistant,
            m.content@ == content@,
    {
        Message { id: owned(id), role: Role::Assistant, content }
    }

    /// A user message carrying tool results.
    pub fn tool_results(id: &str, results: Vec<ContentBlock>) -> (m: Self)
        ensures
            m.id@ == id@,
            m.role == Role::User,
            m.content@ == results@,
    {
        Message { id: owned(id), role: Role::User, content: results }
    }

    /// A system message marking that everything before it was summarised.
    pub fn compact_boundary(id: &str, summary: &str) -> (m: Self)
        ensures
            m.id@ == id@,
            m.role == Role::System,
            m.content.len() == 1,
            m.content@[0] matches ContentBlock::CompactBoundary { summary: s } && s@ == summary@,
    {
        let mut content: Vec<ContentBlock> = Vec::new();
        content.push(ContentBlock::CompactBoundary { summary: owned(summary) });
        Message { id: owned(id), role: Role::System, content }
    }

    pub open spec fn spec_is_compact_boundary(self) -> bool {
        exists|i: int| 0 <= i < self.content.len() && #[trigger] self.content@[i] is CompactBoundary
    }

    /// Whether this message holds a compact boundary block.
    pub fn is_compact_boundary(&self) -> (r: bool)
        ensures
            r == self.spec_is_compact_boundary(),
    {
        let mut i: usize = 0;
        while i < self.content.len()
            invariant
                i <= self.content@.len(),
                forall|k: int| 0 <= k < i ==> !(#[trigger] self.content@[k] is CompactBoundary),
            decreases self.content@.len() - i,
        {
            if let ContentBlock::CompactBoundary { .. } = &self.content[i] {
                return true;
            }
            i = i + 1;
        }
        false
    }
}

impl StopReason {
    pub open spec fn spec_name(self) -> Seq<char> {
        match self {
            StopReason::EndTurn => "end_turn"@,
            StopReason::MaxTokens => "max_tokens"@,
            StopReason::ToolUse => "tool_use"@,
            StopReason::StopSequence => "stop_sequence"@,
        }
    }

    /// The provider's wire name of this stop reason.
    pub fn name(&self) -> (r: String)
        ensures
            r@ == self.spec_name(),
    {
        match self {
            StopReason::EndTurn => owned("end_turn"),
            StopReason::MaxTokens => owned("max_tokens"),
            StopReason::ToolUse => owned("tool_use"),
            StopReason::StopSequence => owned("stop_sequence"),
        }
    }
}

impl TokenUsage {
    pub fn zero() -> (r: Self)
        ensures
            r.input_tokens == 0,
            r.output_tokens == 0,
    {
        TokenUsage { input_tokens: 0, output_tokens: 0 }
    }

    /// Add another call's usage to this one.
    pub fn accumulate(&mut self, other: &TokenUsage)
        requires
            old(self).input_tokens + other.input_tokens <= u64::MAX,
            old(self).output_tokens + other.output_tokens <= u64::MAX,
        ensures
            final(self).input_tokens == old(self).input_tokens + other.input_tokens,
            final(self).output_tokens == old(self).output_tokens + other.output_tokens,
    {
        self.input_tokens = self.input_tokens + other.input_tokens;
        self.output_tokens = self.output_tokens + other.output_tokens;
    }

    /// Input plus output tokens.
    pub fn total(&self) -> (r: u64)
        requires
            self.input_tokens + self.output_tokens <= u64::MAX,
        ensures
            r == self.input_tokens + self.output_tokens,
    {
        self.input_tokens + self.output_tokens
    }
}


impl StreamEvent {
    /// An identical copy of this event.
    pub fn duplicate(&self) -> (r: Self)
        ensures
            r == *self,
    {
        match self {
            StreamEvent::TextDelta { text } => StreamEvent::TextDelta { text: text.clone() },
            StreamEvent::ThinkingDelta { text } => StreamEvent::ThinkingDelta { text: text.clone() },
            StreamEvent::ToolUseStart { id, name } => StreamEvent::ToolUseStart { id: id.clone(), name: name.clone() },
            StreamEvent::ToolInputDelta { id, json_chunk } => StreamEvent::ToolInputDelta {
                id: id.clone(),
                json_chunk: json_chunk.clone(),
            },
            StreamEvent::ToolUseEnd { id } => StreamEvent::ToolUseEnd { id: id.clone() },
            StreamEvent::MessageEnd { usage, stop_reason } => StreamEvent::MessageEnd { usage: *usage, stop_reason: *stop_reason },
            StreamEvent::Error { message, is_retryable } => StreamEvent::Error {
                message: message.clone(),
                is_retryable: *is_retryable,
            },
        }
    }
}

}
