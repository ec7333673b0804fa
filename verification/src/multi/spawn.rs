//! Spawning a sub-agent: the events its parent publishes, the messages it
//! starts from, and the report of what it did. The runtime runs its loop.
use vstd::prelude::*;
use vstd::utf8::{encode_utf8, decode_utf8, is_char_boundary};
use vstd::string::StringSliceAdditionalSpecFns;
use crate::common::ids::new_id;
use crate::common::message::{ContentBlock, Message, Role, is_text_message, msgs_view};
use crate::kernel::turn::{LoopEvent, TurnResult, TurnStopReason, preview_cut, text_of};
use crate::multi::fork::{build_fork_messages, open_calls, is_placeholder_for, last_assistant};
use crate::text::{cat, cat3, decimal, owned, u64_to_string};

verus! {

/// `s` cut to `max_len - 3` bytes with `...` when longer than `max_len` bytes.
pub open spec fn spec_preview(s: Seq<char>, max_len: nat) -> Seq<char> {
    let bytes = encode_utf8(s);
    if bytes.len() <= max_len {
        s
    } else {
        decode_utf8(bytes.take(preview_cut(max_len) as int)) + "..."@
    }
}

/// Whether `s` can be cut for a preview of `max_len` bytes without
/// splitting a character.
pub open spec fn preview_ok(s: Seq<char>, max_len: nat) -> bool {
    let bytes = encode_utf8(s);
    bytes.len() <= max_len || is_char_boundary(bytes, preview_cut(max_len) as int)
}

/// Whether `truncate_preview` can cut `s`.
pub fn preview_fits(s: &str, max_len: usize) -> (r: bool)
    ensures
        r == preview_ok(s@, max_len as nat),
{
    broadcast use vstd::utf8::encode_utf8_valid_utf8;
    assert(s.spec_bytes() == encode_utf8(s@));
    if s.as_bytes().len() <= max_len {
        return true;
    }
    let cut: usize = if max_len >= 3 { max_len - 3 } else { 0 };
    s.is_char_boundary(cut)
}

/// A short preview of a sub-agent prompt.
pub fn truncate_preview(s: &str, max_len: usize) -> (r: String)
    requires
        preview_ok(s@, max_len as nat),
    ensures
        r@ == spec_preview(s@, max_len as nat),
{
    broadcast use vstd::utf8::encode_utf8_valid_utf8, vstd::utf8::encode_utf8_decode_utf8;
    proof {
        reveal_strlit("...");
    }
    let ghost bytes = encode_utf8(s@);
    assert(s.spec_bytes() == bytes);
    if s.as_bytes().len() <= max_len {
        return owned(s);
    }
    let cut: usize = if max_len >= 3 { max_len - 3 } else { 0 };
    let (head, _tail) = s.split_at(cut);
    assert(head.spec_bytes() =~= bytes.take(cut as int));
    let mut r = owned(head);
    r.append("...");
    r
}

/// The text of the last assistant message of a finished sub-agent turn.
pub open spec fn final_text(ms: Seq<Message>) -> Seq<char> {
    match last_assistant(ms) {
        Some(i) => text_of(ms[i].content@),
        None => Seq::empty(),
    }
}

/// The sub-agent's answer: the text of its last assistant message.
pub fn extract_final_text(result: &TurnResult) -> (r: String)
    ensures
        r@ == final_text(result.messages@),
{
    let ms = result.messages.as_slice();
    let mut i: usize = ms.len();
    assert(ms@.take(i as int) =~= ms@);
    while i > 0
        invariant
            i <= ms@.len(),
            ms@ == result.messages@,
            last_assistant(ms@) == last_assistant(ms@.take(i as int)),
        decreases i,
    {
        assert(ms@.take(i as int).drop_last() =~= ms@.take(i - 1));
        if ms[i - 1].role == Role::Assistant {
            return crate::kernel::turn::extract_text(ms[i - 1].content.as_slice());
        }
        i = i - 1;
    }
    String::new()
}

/// How a sub-agent run is reported.
pub open spec fn status_text(r: TurnStopReason) -> Seq<char> {
    match r {
        TurnStopReason::Completed => "completed"@,
        TurnStopReason::Cancelled => "stopped"@,
        _ => "failed"@,
    }
}

/// `completed`, `stopped` or `failed`.
pub fn sub_agent_status(r: &TurnStopReason) -> (s: &'static str)
    ensures
        s@ == status_text(*r),
{
    proof {
        reveal_strlit("completed");
        reveal_strlit("stopped");
        reveal_strlit("failed");
    }
    match r {
        TurnStopReason::Completed => "completed",
        TurnStopReason::Cancelled => "stopped",
        _ => "failed",
    }
}

/// The name under which a sub-agent shows as a tool: `Agent(name)`.
pub fn agent_display_name(name: &str) -> (r: String)
    ensures
        r@ == "Agent("@ + name@ + ")"@,
{
    cat3("Agent(", name, ")")
}

/// Bytes of the sub-agent prompt shown in its start event.
pub const SPAWN_PREVIEW_BYTES: usize = 100;

/// The event announcing a sub-agent.
pub fn spawn_start_event(task_id: &str, agent_name: &str, prompt: &str) -> (r: LoopEvent)
    requires
        preview_ok(prompt@, SPAWN_PREVIEW_BYTES as nat),
    ensures
        r matches LoopEvent::ToolStart { id, name, input_preview }
            && id@ == task_id@ && name@ == "Agent("@ + agent_name@ + ")"@
            && input_preview@ == spec_preview(prompt@, SPAWN_PREVIEW_BYTES as nat),
{
    LoopEvent::ToolStart {
        id: owned(task_id),
        name: agent_display_name(agent_name),
        input_preview: truncate_preview(prompt, SPAWN_PREVIEW_BYTES),
    }
}

/// The answer given when the nesting limit refuses a sub-agent.
pub open spec fn depth_exceeded_text(name: Seq<char>, max_depth: u32) -> Seq<char> {
    "Cannot spawn sub-agent '"@ + name + "': max nesting depth ("@ + decimal(max_depth as nat) + ") exceeded"@
}

/// The answer and the event when the nesting limit refuses a sub-agent.
pub fn spawn_rejected(task_id: &str, agent_name: &str, max_depth: u32) -> (r: (String, LoopEvent))
    ensures
        r.0@ == depth_exceeded_text(agent_name@, max_depth),
        r.1 matches LoopEvent::ToolResult { id, name, content, is_error }
            && id@ == task_id@ && name@ == "Agent("@ + agent_name@ + ")"@ && content@ == r.0@ && is_error,
{
    let a = cat3("Cannot spawn sub-agent '", agent_name, "': max nesting depth (");
    let msg = cat3(a.as_str(), u64_to_string(max_depth as u64).as_str(), ") exceeded");
    assert(msg@ =~= depth_exceeded_text(agent_name@, max_depth));
    let event = LoopEvent::ToolResult {
        id: owned(task_id),
        name: agent_display_name(agent_name),
        content: msg.clone(),
        is_error: true,
    };
    (msg, event)
}

/// The messages a sub-agent starts from: the prompt alone, or the parent's
/// history forked with the prompt as directive.
pub fn child_messages(parent_messages: &[Message], prompt: &str) -> (r: Vec<Message>)
    ensures
        parent_messages@.len() == 0 ==> r@.len() == 1 && is_text_message(r@[0], r@[0].id@, Role::User, prompt@),
        parent_messages@.len() > 0 ==> ({
            let n = parent_messages@.len() as int;
            let ids = open_calls(parent_messages@);
            let k: int = if ids.len() > 0 { 1 } else { 0 };
            &&& r@.len() == n + k + 1
            &&& msgs_view(r@.take(n)) == msgs_view(parent_messages@)
            &&& (ids.len() > 0 ==> {
                &&& r@[n].role == Role::User
                &&& r@[n].content@.len() == ids.len()
                &&& forall|j: int| 0 <= j < ids.len() ==> is_placeholder_for(#[trigger] r@[n].content@[j], ids[j])
            })
            &&& is_text_message(r@[n + k], r@[n + k].id@, Role::User, prompt@)
        }),
{
    if parent_messages.len() == 0 {
        let mut r: Vec<Message> = Vec::new();
        r.push(Message::user(new_id().as_str(), prompt));
        r
    } else {
        build_fork_messages(parent_messages, prompt)
    }
}

/// The report a finished sub-agent leaves in its parent's stream.
pub open spec fn notification_text(task_id: Seq<char>, status: Seq<char>, output: Seq<char>, tokens: nat, iterations: nat, duration_ms: nat) -> Seq<char> {
    "<task-notification>\n<task-id>"@ + task_id + "</task-id>\n<status>"@ + status + "</status>\n<result>"@ + output
        + "</result>\n<usage>total_tokens: "@ + decimal(tokens) + ", iterations: "@ + decimal(iterations)
        + ", duration_ms: "@ + decimal(duration_ms) + "</usage>\n</task-notification>"@
}

/// The sub-agent's answer and the event reporting it: the answer, its
/// status and its usage; a failed run is an error result.
pub fn spawn_finished(task_id: &str, agent_name: &str, result: &TurnResult, duration_ms: u64) -> (r: (String, LoopEvent))
    requires
        result.usage.input_tokens + result.usage.output_tokens <= u64::MAX,
    ensures
        r.0@ == final_text(result.messages@),
        r.1 matches LoopEvent::ToolResult { id, name, content, is_error }
            && id@ == task_id@ && name@ == "Agent("@ + agent_name@ + ")"@
            && content@ == notification_text(task_id@, status_text(result.stop_reason), final_text(result.messages@),
                (result.usage.input_tokens + result.usage.output_tokens) as nat, result.iterations as nat, duration_ms as nat)
            && is_error == (status_text(result.stop_reason) == "failed"@),
{
    proof {
        reveal_strlit("failed");
        reveal_strlit("completed");
        reveal_strlit("stopped");
    }
    let output = extract_final_text(result);
    let status = sub_agent_status(&result.stop_reason);
    let a = cat3("<task-notification>\n<task-id>", task_id, "</task-id>\n<status>");
    let b = cat3(a.as_str(), status, "</status>\n<result>");
    let c = cat3(b.as_str(), output.as_str(), "</result>\n<usage>total_tokens: ");
    let d = cat3(c.as_str(), u64_to_string(result.usage.total()).as_str(), ", iterations: ");
    let e = cat3(d.as_str(), u64_to_string(result.iterations as u64).as_str(), ", duration_ms: ");
    let content = cat3(e.as_str(), u64_to_string(duration_ms).as_str(), "</usage>\n</task-notification>");
    assert(content@ =~= notification_text(task_id@, status_text(result.stop_reason), final_text(result.messages@),
        (result.usage.input_tokens + result.usage.output_tokens) as nat, result.iterations as nat, duration_ms as nat));
    let failed = match &result.stop_reason {
        TurnStopReason::Completed => false,
        TurnStopReason::Cancelled => false,
        _ => true,
    };
    let event = LoopEvent::ToolResult { id: owned(task_id), name: agent_display_name(agent_name), content, is_error: failed };
    (output, event)
}

}
