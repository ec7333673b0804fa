//! Everything the agent needs to resume a conversation.
use vstd::prelude::*;
use crate::common::message::Message;
use crate::text::owned;

verus! {

/// A structured control request (permission or plan review) that paused a turn.
/// The payload is JSON text.
#[derive(Clone, Debug, PartialEq)]
pub struct PendingControl {
    pub request_id: String,
    pub kind: String,
    pub payload: String,
}

/// Where a forked conversation came from.
#[derive(Clone, Debug, PartialEq)]
pub struct ForkOrigin {
    pub source_thread_id: String,
    pub fork_point_message_id: String,
}

/// Execution snapshot of one thread.
#[derive(Clone, Debug, PartialEq)]
pub struct Checkpoint {
    pub thread_id: String,
    pub compact_summary: Option<String>,
    pub recent_messages: Vec<Message>,
    pub total_input_tokens: u64,
    pub total_output_tokens: u64,
    pub compact_count: u32,
    pub forked_from: Option<ForkOrigin>,
    pub pending_control: Option<PendingControl>,
}

impl Checkpoint {
    /// The snapshot of a thread that has no history yet.
    pub fn new(thread_id: &str) -> (c: Self)
        ensures
            c.thread_id@ == thread_id@,
            c.compact_summary is None,
            c.recent_messages@.len() == 0,
            c.total_input_tokens == 0,
            c.total_output_tokens == 0,
            c.compact_count == 0,
            c.forked_from is None,
            c.pending_control is None,
    {
        Checkpoint {
            thread_id: owned(thread_id),
            compact_summary: None,
            recent_messages: Vec::new(),
            total_input_tokens: 0,
            total_output_tokens: 0,
            compact_count: 0,
            forked_from: None,
            pending_control: None,
        }
    }
}

}
