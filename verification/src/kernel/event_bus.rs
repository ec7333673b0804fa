//! The event bus: what a sub-agent's events look like in its parent's stream.
use vstd::prelude::*;
use crate::kernel::turn::LoopEvent;
use crate::text::{cat3};

verus! {

/// A sub-agent's event as its parent publishes it: tool events get the task
/// id as prefix of their id (`task:id`), hook blocks and compression events
/// pass unchanged, and the rest (model text, state changes, turn end) stay
/// with the sub-agent.
pub open spec fn forwarded(task_id: Seq<char>, e: LoopEvent, r: Option<LoopEvent>) -> bool {
    match e {
        LoopEvent::ToolStart { id, name, input_preview } => r matches Some(LoopEvent::ToolStart { id: i, name: n, input_preview: p })
            && i@ == task_id + ":"@ + id@ && n == name && p == input_preview,
        LoopEvent::ToolResult { id, name, content, is_error } => r matches Some(LoopEvent::ToolResult { id: i, name: n, content: c, is_error: b })
            && i@ == task_id + ":"@ + id@ && n == name && c == content && b == is_error,
        LoopEvent::HookBlocked { .. } => r == Some(e),
        LoopEvent::Compacted { .. } => r == Some(e),
        LoopEvent::Collapsed { .. } => r == Some(e),
        _ => r is None,
    }
}

/// Forward one event of a sub-agent to its parent's bus.
pub fn forward_child_event(task_id: &str, event: LoopEvent) -> (r: Option<LoopEvent>)
    ensures
        forwarded(task_id@, event, r),
{
    match event {
        LoopEvent::ToolStart { id, name, input_preview } => Some(LoopEvent::ToolStart {
            id: cat3(task_id, ":", id.as_str()),
            name,
            input_preview,
        }),
        LoopEvent::ToolResult { id, name, content, is_error } => Some(LoopEvent::ToolResult {
            id: cat3(task_id, ":", id.as_str()),
            name,
            content,
            is_error,
        }),
        LoopEvent::HookBlocked { .. } => Some(event),
        LoopEvent::Compacted { .. } => Some(event),
        LoopEvent::Collapsed { .. } => Some(event),
        _ => None,
    }
}

}
