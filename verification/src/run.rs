//! What one run of the message pipeline decides around the turn loop:
//! slash commands, the events written to the results stream, the
//! conversation text given to reflection, and the checkpoint after a turn.
use vstd::prelude::*;
use crate::common::checkpoint::{Checkpoint, PendingControl};
use crate::common::json::{
    json_object, json_str, json_bool, json_string, json_bool_text, json_number, obj1, obj2, obj3, obj4,
    spec_debug_str, debug_str,
};
use crate::common::message::{ContentBlock, Message, Role, StopReason, StreamEvent, TokenUsage, is_text_message};
use crate::infra::store::stream_key;
use crate::kernel::turn::{LoopEvent, TurnResult, TurnStopReason};
use crate::text::{
    chars_of, decimal, join, owned, string_of_range, cat, cat3, join_strings, views, first_occurrence,
    find_chars, occurs_at, u64_to_string,
};

verus! {

/// Input to a single agent run.
pub struct RunRequest<'a> {
    pub thread_id: &'a str,
    pub user_id: &'a str,
    pub content: &'a str,
    pub message_id: &'a str,
}

/// Output from a successful agent run.
pub struct RunOutput {
    /// Echo of the request's message id.
    pub message_id: String,
    /// Results stream key clients subscribe to.
    pub stream_key: String,
    /// Final stop reason of the run.
    pub stop_reason: TurnStopReason,
}

// ---------------------------------------------------------------------------
// Slash commands
// ---------------------------------------------------------------------------

/// Number of leading `/` characters.
pub open spec fn leading_slashes(s: Seq<char>) -> nat
    decreases s.len(),
{
    if s.len() > 0 && s[0] == '/' { 1 + leading_slashes(s.drop_first()) } else { 0 }
}

/// `"/name args"` as `(name, args)`: leading slashes dropped, split at the
/// first space; no space gives empty arguments.
pub open spec fn spec_slash_command(content: Seq<char>) -> (Seq<char>, Seq<char>) {
    let w = content.skip(leading_slashes(content) as int);
    match first_occurrence(w, seq![' ']) {
        Some(p) => (w.take(p), w.skip(p + 1)),
        None => (w, Seq::empty()),
    }
}

/// Parse `"/skill-name args"` into `("skill-name", "args")`.
pub fn parse_slash_command(content: &str) -> (r: (String, String))
    ensures
        (r.0@, r.1@) == spec_slash_command(content@),
{
    let v = chars_of(content);
    let mut start: usize = 0;
    assert(content@.skip(0) =~= content@);
    while start < v.len() && v[start] == '/'
        invariant
            v@ == content@,
            start <= v@.len(),
            leading_slashes(content@) == start + leading_slashes(content@.skip(start as int)),
        decreases v@.len() - start,
    {
        assert(content@.skip(start as int).drop_first() =~= content@.skip(start + 1));
        start = start + 1;
    }
    assert(leading_slashes(content@.skip(start as int)) == 0);
    let w = string_of_range(v.as_slice(), start, v.len());
    assert(w@ =~= content@.skip(start as int));
    let wv = chars_of(w.as_str());
    let sp: Vec<char> = vec![' '];
    assert(sp@ =~= seq![' ']);
    match find_chars(wv.as_slice(), sp.as_slice()) {
        Some(p) => {
            let n = wv.len();
            assert(occurs_at(wv@, sp@, p as int));
            let name = string_of_range(wv.as_slice(), 0, p);
            let args = string_of_range(wv.as_slice(), p + 1, n);
            assert(wv@.subrange(0, p as int) =~= wv@.take(p as int));
            assert(wv@.subrange(p + 1, n as int) =~= wv@.skip(p + 1));
            (name, args)
        },
        None => (w, String::new()),
    }
}

// ---------------------------------------------------------------------------
// Reflection transcript
// ---------------------------------------------------------------------------

/// The texts of the text blocks.
pub open spec fn block_texts(bs: Seq<ContentBlock>) -> Seq<Seq<char>>
    decreases bs.len(),
{
    if bs.len() == 0 {
        Seq::empty()
    } else {
        let rest = block_texts(bs.drop_last());
        match bs.last() {
            ContentBlock::Text { text } => rest.push(text@),
            _ => rest,
        }
    }
}

/// One line of the reflection transcript, if the message has any text.
pub open spec fn transcript_line(m: Message) -> Option<Seq<char>> {
    let text = join(block_texts(m.content@), " "@);
    match m.role {
        Role::System => None,
        _ => if text.len() == 0 {
            None
        } else {
            Some((if m.role == Role::User { "User"@ } else { "Assistant"@ }) + ": "@ + text)
        },
    }
}

/// The lines of the transcript.
pub open spec fn transcript_lines(ms: Seq<Message>) -> Seq<Seq<char>>
    decreases ms.len(),
{
    if ms.len() == 0 {
        Seq::empty()
    } else {
        let rest = transcript_lines(ms.drop_last());
        match transcript_line(ms.last()) {
            Some(l) => rest.push(l),
            None => rest,
        }
    }
}

fn block_text_list(bs: &[ContentBlock]) -> (r: Vec<String>)
    ensures
        views(r@) == block_texts(bs@),
{
    let mut r: Vec<String> = Vec::new();
    let mut i: usize = 0;
    while i < bs.len()
        invariant
            i <= bs@.len(),
            views(r@) == block_texts(bs@.take(i as int)),
        decreases bs@.len() - i,
    {
        assert(bs@.take(i + 1).drop_last() =~= bs@.take(i as int));
        let ghost before = r@;
        if let ContentBlock::Text { text } = &bs[i] {
            r.push(text.clone());
            assert(views(r@) =~= views(before).push(text@));
        }
        i = i + 1;
    }
    assert(bs@.take(bs@.len() as int) =~= bs@);
    r
}

/// Flatten a conversation into plain text for the reflection prompt: one
/// `Role: text` line per user or assistant message with text, the texts of
/// its blocks joined by spaces, lines separated by a blank line.
pub fn format_conversation_for_reflection(messages: &[Message]) -> (r: String)
    ensures
        r@ == join(transcript_lines(messages@), "\n\n"@),
{
    let mut lines: Vec<String> = Vec::new();
    let mut i: usize = 0;
    while i < messages.len()
        invariant
            i <= messages@.len(),
            views(lines@) == transcript_lines(messages@.take(i as int)),
        decreases messages@.len() - i,
    {
        assert(messages@.take(i + 1).drop_last() =~= messages@.take(i as int));
        let m = &messages[i];
        let ghost before = lines@;
        match m.role {
            Role::System => {},
            _ => {
                let texts = block_text_list(m.content.as_slice());
                let text = join_strings(texts.as_slice(), " ");
                if !text.as_str().is_empty() {
                    let role = if m.role == Role::User { "User" } else { "Assistant" };
                    let line = cat3(role, ": ", text.as_str());
                    lines.push(line);
                    assert(views(lines@) =~= views(before).push(line@));
                }
            },
        }
        i = i + 1;
    }
    assert(messages@.take(messages@.len() as int) =~= messages@);
    join_strings(lines.as_slice(), "\n\n")
}

// ---------------------------------------------------------------------------
// Results stream events
// ---------------------------------------------------------------------------

/// The `Debug` text of a stop reason.
pub open spec fn stop_reason_debug(r: TurnStopReason) -> Seq<char> {
    match r {
        TurnStopReason::Completed => "Completed"@,
        TurnStopReason::MaxIterations => "MaxIterations"@,
        TurnStopReason::Cancelled => "Cancelled"@,
        TurnStopReason::ContextOverflow => "ContextOverflow"@,
        TurnStopReason::DiminishingReturns => "DiminishingReturns"@,
        TurnStopReason::RequiresAction { request_id } => "RequiresAction { request_id: "@ + spec_debug_str(request_id@) + " }"@,
        TurnStopReason::PlanReview { plan } => "PlanReview { plan: "@ + spec_debug_str(plan@) + " }"@,
        TurnStopReason::Error(m) => "Error("@ + spec_debug_str(m@) + ")"@,
    }
}

/// `format!("{:?}", reason)`.
pub fn turn_stop_reason_debug(r: &TurnStopReason) -> (s: String)
    ensures
        s@ == stop_reason_debug(*r),
{
    match r {
        TurnStopReason::Completed => owned("Completed"),
        TurnStopReason::MaxIterations => owned("MaxIterations"),
        TurnStopReason::Cancelled => owned("Cancelled"),
        TurnStopReason::ContextOverflow => owned("ContextOverflow"),
        TurnStopReason::DiminishingReturns => owned("DiminishingReturns"),
        TurnStopReason::RequiresAction { request_id } =>
            cat3("RequiresAction { request_id: ", debug_str(request_id.as_str()).as_str(), " }"),
        TurnStopReason::PlanReview { plan } => cat3("PlanReview { plan: ", debug_str(plan.as_str()).as_str(), " }"),
        TurnStopReason::Error(m) => cat3("Error(", debug_str(m.as_str()).as_str(), ")"),
    }
}

/// Whether the usage totals fit the counter the stream reports.
pub open spec fn event_fits(e: LoopEvent) -> bool {
    e matches LoopEvent::TurnEnd { usage, .. } ==> usage.input_tokens + usage.output_tokens <= u64::MAX
}

/// The stream payload of a model stream event.
pub open spec fn stream_payload(e: StreamEvent) -> Seq<char> {
    match e {
        StreamEvent::TextDelta { text } => json_object(seq![("text"@, json_str(text@)), ("type"@, json_str("text_delta"@))]),
        StreamEvent::ThinkingDelta { text } => json_object(seq![("text"@, json_str(text@)), ("type"@, json_str("thinking_delta"@))]),
        StreamEvent::ToolUseStart { id, name } => json_object(seq![
            ("id"@, json_str(id@)), ("name"@, json_str(name@)), ("type"@, json_str("tool_use_start"@))]),
        StreamEvent::ToolInputDelta { id, json_chunk } => json_object(seq![
            ("id"@, json_str(id@)), ("json_chunk"@, json_str(json_chunk@)), ("type"@, json_str("tool_input_delta"@))]),
        StreamEvent::ToolUseEnd { id } => json_object(seq![("id"@, json_str(id@)), ("type"@, json_str("tool_use_end"@))]),
        StreamEvent::MessageEnd { usage, stop_reason } => json_object(seq![
            ("input_tokens"@, decimal(usage.input_tokens as nat)),
            ("output_tokens"@, decimal(usage.output_tokens as nat)),
            ("stop_reason"@, json_str(stop_reason.spec_name())),
            ("type"@, json_str("message_end"@))]),
        StreamEvent::Error { message, is_retryable } => json_object(seq![
            ("is_retryable"@, json_bool(is_retryable)), ("message"@, json_str(message@)), ("type"@, json_str("error"@))]),
    }
}

/// The results-stream entry of a loop event: its type and JSON payload
/// (object keys in sorted order).
pub open spec fn redis_event(e: LoopEvent) -> (Seq<char>, Seq<char>) {
    match e {
        LoopEvent::SessionStateChanged { state } => ("session_state_changed"@, json_object(seq![("state"@, json_str(state@))])),
        LoopEvent::ControlRequest { request_id, kind, payload } => ("control_request"@, json_object(seq![
            ("payload"@, payload@), ("request_id"@, json_str(request_id@)), ("type"@, json_str(kind@))])),
        LoopEvent::Stream(s) => ("stream"@, stream_payload(s)),
        LoopEvent::ToolStart { id, name, input_preview } => ("tool_start"@, json_object(seq![
            ("id"@, json_str(id@)), ("input_preview"@, json_str(input_preview@)), ("name"@, json_str(name@))])),
        LoopEvent::ToolResult { id, name, content, is_error } => ("tool_result"@, json_object(seq![
            ("content"@, json_str(content@)), ("id"@, json_str(id@)), ("is_error"@, json_bool(is_error)), ("name"@, json_str(name@))])),
        LoopEvent::Compacted { pre_tokens } => ("compacted"@, json_object(seq![("pre_tokens"@, decimal(pre_tokens as nat))])),
        LoopEvent::Collapsed { folded_count } => ("collapsed"@, json_object(seq![("folded_count"@, decimal(folded_count as nat))])),
        LoopEvent::HookBlocked { hook_name, reason } => ("hook_blocked"@, json_object(seq![
            ("hook_name"@, json_str(hook_name@)), ("reason"@, json_str(reason@))])),
        LoopEvent::PlanModeChanged { mode } => ("plan_mode_changed"@, json_object(seq![("mode"@, json_str(mode@))])),
        LoopEvent::TurnEnd { stop_reason, usage } => ("turn_end"@, json_object(seq![
            ("stop_reason"@, json_str(stop_reason_debug(stop_reason))),
            ("total_tokens"@, decimal((usage.input_tokens + usage.output_tokens) as nat))])),
    }
}

fn jstr(s: &str) -> (r: String)
    ensures
        r@ == json_str(s@),
{
    json_string(s)
}

fn stream_event_payload(e: &StreamEvent) -> (r: String)
    ensures
        r@ == stream_payload(*e),
{
    match e {
        StreamEvent::TextDelta { text } => obj2("text", jstr(text.as_str()), "type", jstr("text_delta")),
        StreamEvent::ThinkingDelta { text } => obj2("text", jstr(text.as_str()), "type", jstr("thinking_delta")),
        StreamEvent::ToolUseStart { id, name } =>
            obj3("id", jstr(id.as_str()), "name", jstr(name.as_str()), "type", jstr("tool_use_start")),
        StreamEvent::ToolInputDelta { id, json_chunk } =>
            obj3("id", jstr(id.as_str()), "json_chunk", jstr(json_chunk.as_str()), "type", jstr("tool_input_delta")),
        StreamEvent::ToolUseEnd { id } => obj2("id", jstr(id.as_str()), "type", jstr("tool_use_end")),
        StreamEvent::MessageEnd { usage, stop_reason } => obj4(
            "input_tokens", json_number(usage.input_tokens),
            "output_tokens", json_number(usage.output_tokens),
            "stop_reason", jstr(stop_reason.name().as_str()),
            "type", jstr("message_end"),
        ),
        StreamEvent::Error { message, is_retryable } => obj3(
            "is_retryable", owned(json_bool_text(*is_retryable)),
            "message", jstr(message.as_str()),
            "type", jstr("error"),
        ),
    }
}

/// Convert a loop event to the (event type, JSON payload) pair written to
/// the results stream.
pub fn loop_event_to_redis(event: &LoopEvent) -> (r: Option<(&'static str, String)>)
    requires
        event_fits(*event),
    ensures
        r matches Some((t, p)) && t@ == redis_event(*event).0 && p@ == redis_event(*event).1,
{
    proof {
        reveal_strlit("session_state_changed");
        reveal_strlit("control_request");
        reveal_strlit("stream");
        reveal_strlit("tool_start");
        reveal_strlit("tool_result");
        reveal_strlit("compacted");
        reveal_strlit("collapsed");
        reveal_strlit("hook_blocked");
        reveal_strlit("plan_mode_changed");
        reveal_strlit("turn_end");
    }
    match event {
        LoopEvent::SessionStateChanged { state } => Some(("session_state_changed", obj1("state", jstr(state.as_str())))),
        LoopEvent::ControlRequest { request_id, kind, payload } => Some(("control_request", obj3(
            "payload", payload.clone(),
            "request_id", jstr(request_id.as_str()),
            "type", jstr(kind.as_str()),
        ))),
        LoopEvent::Stream(s) => Some(("stream", stream_event_payload(s))),
        LoopEvent::ToolStart { id, name, input_preview } => Some(("tool_start", obj3(
            "id", jstr(id.as_str()),
            "input_preview", jstr(input_preview.as_str()),
            "name", jstr(name.as_str()),
        ))),
        LoopEvent::ToolResult { id, name, content, is_error } => Some(("tool_result", obj4(
            "content", jstr(content.as_str()),
            "id", jstr(id.as_str()),
            "is_error", owned(json_bool_text(*is_error)),
            "name", jstr(name.as_str()),
        ))),
        LoopEvent::Compacted { pre_tokens } => Some(("compacted", obj1("pre_tokens", json_number(*pre_tokens as u64)))),
        LoopEvent::Collapsed { folded_count } => Some(("collapsed", obj1("folded_count", json_number(*folded_count as u64)))),
        LoopEvent::HookBlocked { hook_name, reason } => Some(("hook_blocked", obj2(
            "hook_name", jstr(hook_name.as_str()),
            "reason", jstr(reason.as_str()),
        ))),
        LoopEvent::PlanModeChanged { mode } => Some(("plan_mode_changed", obj1("mode", jstr(mode.as_str())))),
        LoopEvent::TurnEnd { stop_reason, usage } => Some(("turn_end", obj2(
            "stop_reason", jstr(turn_stop_reason_debug(stop_reason).as_str()),
            "total_tokens", json_number(usage.total()),
        ))),
    }
}

/// A message that invokes a skill (`/name args`): the skill's name and its
/// arguments, `None` when empty. Other messages invoke none.
pub open spec fn spec_slash_invocation(content: Seq<char>) -> Option<(Seq<char>, Option<Seq<char>>)> {
    if content.len() > 0 && content[0] == '/' {
        let (name, args) = spec_slash_command(content);
        Some((name, if args.len() == 0 { None } else { Some(args) }))
    } else {
        None
    }
}

/// The skill a message invokes, with its arguments.
pub fn slash_invocation(content: &str) -> (r: Option<(String, Option<String>)>)
    ensures
        match spec_slash_invocation(content@) {
            None => r is None,
            Some((name, args)) => r matches Some((n, a)) && n@ == name && match args {
                None => a is None,
                Some(x) => a matches Some(y) && y@ == x,
            },
        },
{
    let v = chars_of(content);
    if v.len() == 0 || v[0] != '/' {
        return None;
    }
    let (name, args) = parse_slash_command(content);
    if args.as_str().is_empty() {
        Some((name, None))
    } else {
        Some((name, Some(args)))
    }
}

/// What a turn's conversation starts with: the messages an inline skill
/// produced, then the user's message.
pub fn open_turn(messages: &mut Vec<Message>, skill_messages: Vec<Message>, message_id: &str, content: &str)
    ensures
        final(messages)@.len() == old(messages)@.len() + skill_messages@.len() + 1,
        final(messages)@.take((old(messages)@.len() + skill_messages@.len()) as int) == old(messages)@ + skill_messages@,
        is_text_message(final(messages)@.last(), message_id@, Role::User, content@),
{
    let mut extra = skill_messages;
    let ghost e = extra@;
    messages.append(&mut extra);
    let ghost mid = messages@;
    messages.push(Message::user(message_id, content));
    assert(messages@.take(mid.len() as int) =~= mid);
}

/// The answer to a run request: its message id, the results stream to
/// follow, and how the turn ended.
pub fn run_output(message_id: &str, thread_id: &str, stop_reason: TurnStopReason) -> (r: RunOutput)
    ensures
        r.message_id@ == message_id@,
        r.stream_key@ == "results:"@ + thread_id@,
        r.stop_reason == stop_reason,
{
    RunOutput { message_id: owned(message_id), stream_key: stream_key(thread_id), stop_reason }
}

// ---------------------------------------------------------------------------
// After the turn
// ---------------------------------------------------------------------------

/// Record a finished turn in the checkpoint: a control request is kept only
/// when the turn paused for it; token totals grow by the turn's usage.
pub fn finish_checkpoint(checkpoint: &mut Checkpoint, result: &TurnResult, pending: Option<PendingControl>)
    requires
        old(checkpoint).total_input_tokens + result.usage.input_tokens <= u64::MAX,
        old(checkpoint).total_output_tokens + result.usage.output_tokens <= u64::MAX,
    ensures
        final(checkpoint).pending_control == (match result.stop_reason {
            TurnStopReason::RequiresAction { .. } => pending,
            TurnStopReason::PlanReview { .. } => pending,
            _ => None,
        }),
        final(checkpoint).total_input_tokens == old(checkpoint).total_input_tokens + result.usage.input_tokens,
        final(checkpoint).total_output_tokens == old(checkpoint).total_output_tokens + result.usage.output_tokens,
        final(checkpoint).thread_id == old(checkpoint).thread_id,
        final(checkpoint).recent_messages == old(checkpoint).recent_messages,
        final(checkpoint).compact_summary == old(checkpoint).compact_summary,
        final(checkpoint).compact_count == old(checkpoint).compact_count,
        final(checkpoint).forked_from == old(checkpoint).forked_from,
{
    checkpoint.pending_control = match result.stop_reason {
        TurnStopReason::RequiresAction { .. } => pending,
        TurnStopReason::PlanReview { .. } => pending,
        _ => None,
    };
    checkpoint.total_input_tokens = checkpoint.total_input_tokens + result.usage.input_tokens;
    checkpoint.total_output_tokens = checkpoint.total_output_tokens + result.usage.output_tokens;
}

/// The system prompt of a run: the joined prompt sections, then the
/// recalled memories when there are any, then the memory write guidance,
/// separated by blank lines.
pub fn assemble_system_prompt(sections: &str, recalled: Option<&str>, guidance: &str) -> (r: String)
    ensures
        r@ == sections@ + (match recalled {
            Some(x) => "\n\n"@ + x@,
            None => Seq::empty(),
        }) + "\n\n"@ + guidance@,
{
    let mut r = owned(sections);
    match recalled {
        Some(x) => {
            r.append("\n\n");
            r.append(x);
        },
        None => {},
    }
    r.append("\n\n");
    r.append(guidance);
    assert(r@ =~= sections@ + (match recalled {
        Some(x) => "\n\n"@ + x@,
        None => Seq::empty(),
    }) + "\n\n"@ + guidance@);
    r
}

}
