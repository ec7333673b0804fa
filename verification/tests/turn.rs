use hahi_agent::common::checkpoint::{Checkpoint, PendingControl};
use hahi_agent::common::json::json_string;
use hahi_agent::common::message::{ContentBlock, Message, Role, StopReason, StreamEvent, TokenUsage, ToolOutput};
use hahi_agent::infra::metrics::Metrics;
use hahi_agent::infra::store::{stream_key, tool_result_ref};
use hahi_agent::kernel::error_recovery::{ApiErrorKind, LoopControl, RecoveryAction};
use hahi_agent::kernel::event_bus::forward_child_event;
use hahi_agent::kernel::hooks::{HookExt, HookRunner, ToolBlocklistHook};
use hahi_agent::kernel::permission::{PermissionDecision, PermissionEvaluator, PermissionMode, PermissionRule};
use hahi_agent::kernel::turn::{
    append_text, append_thinking, classify_stream_error, collect_tool_results, dispatch_tool, extract_text,
    finalize_turn, on_stream_event, parse_tool_input, start_events, truncate_json_preview, CompletedTool,
    DispatchOutcome, LoopEvent, LoopStats, QueryChain, RunMode, StreamState, StreamStep, TurnState, TurnStopReason,
};
use hahi_agent::run::{
    assemble_system_prompt, finish_checkpoint, format_conversation_for_reflection, loop_event_to_redis, open_turn,
    parse_slash_command, run_output, slash_invocation, turn_stop_reason_debug,
};
use hahi_agent::kernel::turn::{
    drop_announced, json_preview_fits, on_stream_event_checked, recovery_within_limits, TurnResult, DEFAULT_CONTEXT_WINDOW_TOKENS, DEFAULT_MAX_ITERATIONS, DEFAULT_MAX_TOKENS,
};
use hahi_agent::kernel::error_recovery::{MAX_LOW_OUTPUT_TURNS, MAX_SERVER_ERROR_RETRIES};

#[test]
fn text_deltas_merge_into_one_block() {
    let mut content = Vec::new();
    append_text(&mut content, "Hel".to_string());
    append_text(&mut content, "lo".to_string());
    append_thinking(&mut content, "hmm".to_string());
    append_text(&mut content, "!".to_string());
    assert_eq!(content.len(), 3);
    assert_eq!(extract_text(&content), "Hello!");
}

#[test]
fn stream_errors_are_classified() {
    assert_eq!(classify_stream_error("HTTP 429: Rate Limit"), ApiErrorKind::RateLimit { retry_after_seconds: None });
    assert_eq!(classify_stream_error("503 Service Unavailable"), ApiErrorKind::ServerError);
    assert_eq!(classify_stream_error("Prompt is too long"), ApiErrorKind::PromptTooLong);
    assert_eq!(classify_stream_error("boom"), ApiErrorKind::Other { message: "boom".to_string() });
}

#[test]
fn tool_input_is_normalized_or_null() {
    assert_eq!(parse_tool_input("{ \"a\" : 1 }"), "{\"a\":1}");
    assert_eq!(parse_tool_input("{oops"), "null");
    assert_eq!(truncate_json_preview("{ \"a\" : 1 }", 120), "{\"a\":1}");
    assert_eq!(truncate_json_preview("not json at all", 120), "notjsonatall");
    let long = format!("{{\"q\":\"{}\"}}", "x".repeat(200));
    let preview = truncate_json_preview(&long, 20);
    assert_eq!(preview, format!("{{\"q\":\"{}...", "x".repeat(11)));
    assert_eq!(parse_tool_input("[1, 2]"), "[1,2]");
}

#[test]
fn json_strings_are_escaped_like_serde_json() {
    assert_eq!(json_string("a\"b\\c\n\u{1}"), "\"a\\\"b\\\\c\\n\\u0001\"");
}

fn permission(mode: PermissionMode) -> PermissionEvaluator {
    PermissionEvaluator::new(mode, vec![])
}

#[test]
fn allowed_tool_is_submitted_with_history() {
    let mut metrics = Metrics::new();
    let mut content = vec![ContentBlock::Text { text: "Let me look.".into() }];
    let mut messages = vec![Message::user("1", "find it")];
    let d = dispatch_tool(
        "t1".into(), "WebSearch".into(), "{\"q\":1}".into(),
        &permission(PermissionMode::Auto), &HookRunner::empty(), &mut metrics, &mut content, &mut messages,
    );
    match d.outcome {
        DispatchOutcome::Submit(p) => {
            assert_eq!(p.id, "t1");
            assert_eq!(p.message_history.len(), 2);
            assert_eq!(p.message_history[1].role, Role::Assistant);
            assert_eq!(p.message_history[1].content.len(), 2);
        }
        _ => panic!("expected submit"),
    }
    assert!(d.events.is_empty());
    assert_eq!(content.len(), 2);
    assert_eq!(messages.len(), 1);
    assert_eq!(metrics.snapshot().tool_calls_total, 1);
}

#[test]
fn denied_tool_gets_an_error_result() {
    let mut metrics = Metrics::new();
    let mut content = Vec::new();
    let mut messages = Vec::new();
    let d = dispatch_tool(
        "t1".into(), "Bash".into(), "{}".into(),
        &permission(PermissionMode::Readonly), &HookRunner::empty(), &mut metrics, &mut content, &mut messages,
    );
    assert!(matches!(d.outcome, DispatchOutcome::Blocked));
    assert_eq!(messages.len(), 2);
    assert_eq!(
        messages[1].content[0],
        ContentBlock::ToolResult {
            tool_use_id: "t1".into(),
            content: "Tool 'Bash' is not permitted in this session.".into(),
            is_error: true,
        }
    );
    assert_eq!(metrics.snapshot().errors_total, 1);
    assert!(matches!(&d.events[0], LoopEvent::HookBlocked { hook_name, .. } if hook_name == "permission"));
}

#[test]
fn hook_blocked_tool_gets_the_hooks_reason() {
    let mut metrics = Metrics::new();
    let mut content = Vec::new();
    let mut messages = Vec::new();
    let hooks = HookRunner::new(vec![ToolBlocklistHook::new(vec!["rm".into()]).boxed()]);
    let d = dispatch_tool("t9".into(), "rm".into(), "{}".into(), &permission(PermissionMode::Auto), &hooks, &mut metrics, &mut content, &mut messages);
    assert!(matches!(d.outcome, DispatchOutcome::Blocked));
    assert!(matches!(&d.events[0], LoopEvent::HookBlocked { hook_name, .. } if hook_name == "pre_tool"));
    assert_eq!(messages.len(), 2);
    assert_eq!(metrics.snapshot().errors_total, 0);
}

#[test]
fn asking_for_permission_pauses_with_a_control_request() {
    let mut metrics = Metrics::new();
    let mut content = Vec::new();
    let mut messages = Vec::new();
    let d = dispatch_tool(
        "t1".into(), "Bash".into(), "{\"cmd\":\"ls\"}".into(),
        &permission(PermissionMode::Ask), &HookRunner::empty(), &mut metrics, &mut content, &mut messages,
    );
    let request_id = match d.outcome {
        DispatchOutcome::RequiresAction { request_id } => request_id,
        _ => panic!("expected a permission request"),
    };
    let control = d.control.unwrap();
    assert_eq!(control.request_id, request_id);
    assert_eq!(control.kind, "permission");
    assert_eq!(control.payload, "{\"input\":{\"cmd\":\"ls\"},\"tool_name\":\"Bash\"}");
    assert!(messages.is_empty() && content.is_empty());
}

#[test]
fn a_stream_accumulates_and_dispatches() {
    let mut state = StreamState::new();
    let mut turn = TurnState::new();
    let mut metrics = Metrics::new();
    let mut messages = vec![Message::user("1", "go")];
    let perm = PermissionEvaluator::new(PermissionMode::Auto, vec![]);
    let hooks = HookRunner::empty();
    let events = vec![
        StreamEvent::TextDelta { text: "Sure".into() },
        StreamEvent::ToolUseStart { id: "t1".into(), name: "WebFetch".into() },
        StreamEvent::ToolInputDelta { id: "t1".into(), json_chunk: "{\"url\":".into() },
        StreamEvent::ToolInputDelta { id: "zz".into(), json_chunk: "ignored".into() },
        StreamEvent::ToolInputDelta { id: "t1".into(), json_chunk: "\"http://x\"}".into() },
    ];
    for e in events {
        let r = on_stream_event(&mut state, e, &mut turn.recovery, &perm, &hooks, &mut metrics, &mut messages);
        assert!(matches!(r.step, StreamStep::Continue));
        assert_eq!(r.events.len(), 1);
    }
    let r = on_stream_event(&mut state, StreamEvent::ToolUseEnd { id: "t1".into() }, &mut turn.recovery, &perm, &hooks, &mut metrics, &mut messages);
    match r.step {
        StreamStep::Submit(p) => {
            assert_eq!(p.name, "WebFetch");
            assert_eq!(p.input, "{\"url\":\"http://x\"}");
        }
        _ => panic!("expected submit"),
    }
    assert!(matches!(&r.events[1], LoopEvent::ToolStart { input_preview, .. } if input_preview == "{\"url\":\"http://x\"}"));
    let again = on_stream_event(&mut state, StreamEvent::ToolUseEnd { id: "t1".into() }, &mut turn.recovery, &perm, &hooks, &mut metrics, &mut messages);
    assert!(matches!(again.step, StreamStep::Continue));
    on_stream_event(
        &mut state,
        StreamEvent::MessageEnd { usage: TokenUsage { input_tokens: 100, output_tokens: 600 }, stop_reason: StopReason::ToolUse },
        &mut turn.recovery, &perm, &hooks, &mut metrics, &mut messages,
    );
    let after = turn.after_stream(state, &mut messages, &mut metrics);
    assert_eq!(after.action, RecoveryAction::Continue);
    assert_eq!(after.control, LoopControl::Continue);
    assert_eq!(after.content.len(), 2);
    assert_eq!(messages.len(), 2);
    assert_eq!(turn.total_usage.output_tokens, 600);
    assert_eq!(metrics.snapshot().input_tokens_total, 100);
}

#[test]
fn retryable_stream_errors_wait_and_others_end_the_turn() {
    let mut state = StreamState::new();
    let mut turn = TurnState::new();
    let mut metrics = Metrics::new();
    let mut messages = Vec::new();
    let perm = PermissionEvaluator::auto();
    let hooks = HookRunner::empty();
    let r = on_stream_event(&mut state, StreamEvent::Error { message: "overloaded 503".into(), is_retryable: true }, &mut turn.recovery, &perm, &hooks, &mut metrics, &mut messages);
    match r.step {
        StreamStep::Retry { duration_ms } => assert!(500 <= duration_ms && duration_ms < 1000),
        _ => panic!("expected a retry"),
    }
    let r = on_stream_event(&mut state, StreamEvent::Error { message: "bad request".into(), is_retryable: false }, &mut turn.recovery, &perm, &hooks, &mut metrics, &mut messages);
    assert!(matches!(r.step, StreamStep::Fatal(TurnStopReason::Error(m)) if m == "bad request"));
}

#[test]
fn iterations_are_capped_and_cancellation_wins() {
    let mut turn = TurnState::new();
    let mut metrics = Metrics::new();
    assert_eq!(turn.begin_iteration(false, 2, &mut metrics), None);
    assert_eq!(turn.begin_iteration(false, 2, &mut metrics), None);
    assert_eq!(turn.begin_iteration(false, 2, &mut metrics), Some(TurnStopReason::MaxIterations));
    assert_eq!(turn.iteration, 3);
    assert_eq!(turn.begin_iteration(true, 2, &mut metrics), Some(TurnStopReason::Cancelled));
    assert_eq!(turn.iteration, 3);
    assert_eq!(metrics.snapshot().turns_total, 3);
}

#[test]
fn finishing_a_turn_completes_or_asks_for_plan_review() {
    let mut messages = vec![Message::user("1", "hi")];
    let content = vec![ContentBlock::Text { text: "Done.".into() }];
    let usage = TokenUsage { input_tokens: 3, output_tokens: 4 };
    let f = finalize_turn(RunMode::Execute, &HookRunner::empty(), &content, &mut messages, usage, 1);
    let result = f.result.unwrap();
    assert_eq!(result.stop_reason, TurnStopReason::Completed);
    assert_eq!(f.events.len(), 2);
    let p = finalize_turn(RunMode::Planning, &HookRunner::empty(), &content, &mut messages, usage, 1);
    match p.result.unwrap().stop_reason {
        TurnStopReason::PlanReview { plan } => assert_eq!(plan, "<plan>\nDone.\n</plan>"),
        _ => panic!("expected plan review"),
    }
    assert_eq!(p.control.unwrap().payload, "{\"plan\":\"<plan>\\nDone.\\n</plan>\",\"steps\":[]}");
    assert_eq!(p.events.len(), 3);
}

#[test]
fn tool_results_are_collected_into_one_message() {
    let mut messages = vec![Message::user("1", "go")];
    let mut stats = LoopStats::new();
    let results = vec![
        CompletedTool {
            id: "a".into(),
            name: "MemoryWrite".into(),
            output: ToolOutput { content: "saved".into(), is_error: false, extra_messages: vec![Message::user("x", "extra")] },
        },
        CompletedTool {
            id: "b".into(),
            name: "WebFetch".into(),
            output: ToolOutput { content: "fail".into(), is_error: true, extra_messages: vec![] },
        },
    ];
    let events = collect_tool_results(results, &HookRunner::empty(), &mut messages, &mut stats);
    assert_eq!(events.len(), 2);
    assert_eq!(messages.len(), 3);
    assert_eq!(messages[1].id, "x");
    assert_eq!(messages[2].content.len(), 2);
    assert_eq!(stats.memories_written_this_run(), 1);
}

#[test]
fn start_events_announce_planning() {
    assert_eq!(start_events(RunMode::Planning).len(), 2);
    assert_eq!(start_events(RunMode::Execute).len(), 1);
    let root = QueryChain::root();
    assert_eq!(root.depth, 0);
    assert_eq!(root.max_depth, 5);
    assert_eq!(root.child().depth, 1);
}

#[test]
fn child_tool_events_are_prefixed_and_text_is_dropped() {
    let fwd = forward_child_event("task", LoopEvent::ToolStart { id: "t1".into(), name: "N".into(), input_preview: "p".into() });
    assert!(matches!(fwd, Some(LoopEvent::ToolStart { id, .. }) if id == "task:t1"));
    assert!(forward_child_event("task", LoopEvent::Stream(StreamEvent::TextDelta { text: "x".into() })).is_none());
    assert!(forward_child_event("task", LoopEvent::Compacted { pre_tokens: 5 }).is_some());
}

#[test]
fn redis_events_are_compact_sorted_json() {
    let (t, p) = loop_event_to_redis(&LoopEvent::ToolResult { id: "i".into(), name: "n".into(), content: "c".into(), is_error: false }).unwrap();
    assert_eq!(t, "tool_result");
    assert_eq!(p, "{\"content\":\"c\",\"id\":\"i\",\"is_error\":false,\"name\":\"n\"}");
    let (t, p) = loop_event_to_redis(&LoopEvent::TurnEnd {
        stop_reason: TurnStopReason::Error("x".into()),
        usage: TokenUsage { input_tokens: 1, output_tokens: 2 },
    }).unwrap();
    assert_eq!(t, "turn_end");
    assert_eq!(p, "{\"stop_reason\":\"Error(\\\"x\\\")\",\"total_tokens\":3}");
    let (_, p) = loop_event_to_redis(&LoopEvent::Stream(StreamEvent::MessageEnd {
        usage: TokenUsage { input_tokens: 1, output_tokens: 2 },
        stop_reason: StopReason::EndTurn,
    })).unwrap();
    assert_eq!(p, "{\"input_tokens\":1,\"output_tokens\":2,\"stop_reason\":\"end_turn\",\"type\":\"message_end\"}");
    assert_eq!(turn_stop_reason_debug(&TurnStopReason::PlanReview { plan: "p".into() }), "PlanReview { plan: \"p\" }");
}

#[test]
fn slash_commands_split_at_the_first_space() {
    assert_eq!(parse_slash_command("/commit -m fix"), ("commit".to_string(), "-m fix".to_string()));
    assert_eq!(parse_slash_command("//review"), ("review".to_string(), String::new()));
}

#[test]
fn reflection_transcript_skips_system_and_empty_messages() {
    let messages = vec![
        Message::user("1", "hello"),
        Message::compact_boundary("2", "summary"),
        Message::assistant("3", vec![ContentBlock::Text { text: "hi".into() }, ContentBlock::Text { text: "there".into() }]),
        Message::assistant("4", vec![ContentBlock::ToolUse { id: "t".into(), name: "x".into(), input: "{}".into() }]),
    ];
    assert_eq!(format_conversation_for_reflection(&messages), "User: hello\n\nAssistant: hi there");
}

#[test]
fn checkpoint_keeps_control_only_when_paused() {
    let mut cp = Checkpoint::new("thread");
    let pending = PendingControl { request_id: "r".into(), kind: "permission".into(), payload: "{}".into() };
    let paused = TurnResult::build(&[], TurnStopReason::RequiresAction { request_id: "r".into() }, TokenUsage { input_tokens: 1, output_tokens: 2 }, 1);
    finish_checkpoint(&mut cp, &paused, Some(pending.clone()));
    assert_eq!(cp.pending_control, Some(pending.clone()));
    let done = TurnResult::build(&[], TurnStopReason::Completed, TokenUsage { input_tokens: 1, output_tokens: 2 }, 1);
    finish_checkpoint(&mut cp, &done, Some(pending));
    assert_eq!(cp.pending_control, None);
    assert_eq!(cp.total_input_tokens, 2);
    assert_eq!(cp.total_output_tokens, 4);
    assert_eq!(stream_key("thread"), "results:thread");
    assert_eq!(assemble_system_prompt("S", Some("R"), "G"), "S\n\nR\n\nG");
    assert_eq!(assemble_system_prompt("S", None, "G"), "S\n\nG");
}

#[test]
fn long_tool_results_are_stored_with_a_preview() {
    assert!(tool_result_ref("t", "short").is_none());
    let long = "y".repeat(60_000);
    let r = tool_result_ref("t", &long).unwrap();
    assert_eq!(r.total_chars, 60_000);
    assert!(r.preview.starts_with(&"y".repeat(5_000)));
    assert!(r.preview.ends_with("[Result truncated. Showing first 5000 of 60000 chars. Full result stored.]"));
}

#[test]
fn permission_rules_reach_dispatch() {
    let perm = PermissionEvaluator::new(PermissionMode::Auto, vec![PermissionRule { tool_pattern: "Bash".into(), decision: PermissionDecision::Deny }]);
    let mut metrics = Metrics::new();
    let mut content = Vec::new();
    let mut messages = Vec::new();
    let d = dispatch_tool("t".into(), "Bash".into(), "{}".into(), &perm, &HookRunner::empty(), &mut metrics, &mut content, &mut messages);
    assert!(matches!(d.outcome, DispatchOutcome::Blocked));
}

#[test]
fn stream_usage_is_read_back_and_recovery_limits_checked() {
    let mut state = StreamState::new();
    let mut turn = TurnState::new();
    let mut metrics = Metrics::new();
    let mut messages = Vec::new();
    let perm = PermissionEvaluator::auto();
    let hooks = HookRunner::empty();
    assert_eq!(state.usage(), TokenUsage { input_tokens: 0, output_tokens: 0 });
    on_stream_event(
        &mut state,
        StreamEvent::MessageEnd { usage: TokenUsage { input_tokens: 7, output_tokens: 9 }, stop_reason: StopReason::EndTurn },
        &mut turn.recovery, &perm, &hooks, &mut metrics, &mut messages,
    );
    assert_eq!(state.usage(), TokenUsage { input_tokens: 7, output_tokens: 9 });
    assert!(recovery_within_limits(&turn.recovery));
    let mut r = turn.recovery;
    r.server_error_retries = MAX_SERVER_ERROR_RETRIES + 1;
    assert!(!recovery_within_limits(&r));
    let mut r = turn.recovery;
    r.low_output_streak = MAX_LOW_OUTPUT_TURNS;
    assert!(!recovery_within_limits(&r));
}

#[test]
fn loop_defaults() {
    assert_eq!(DEFAULT_CONTEXT_WINDOW_TOKENS, 200_000);
    assert_eq!(DEFAULT_MAX_ITERATIONS, 50);
    assert_eq!(DEFAULT_MAX_TOKENS, 16_384);
}

#[test]
fn fresh_ids_are_hyphenated_and_distinct() {
    let id = QueryChain::root().chain_id;
    assert_eq!(id.chars().count(), 36);
    for i in [8, 13, 18, 23] {
        assert_eq!(id.chars().nth(i), Some('-'));
    }
    assert_ne!(QueryChain::root().chain_id, id);
}

#[test]
fn tool_previews_that_would_split_a_character_are_refused() {
    let split = format!("{{\"q\":\"{}\"}}", "\u{e9}".repeat(100));
    let whole = format!("{{\"q\":\"x{}\"}}", "\u{e9}".repeat(100));
    assert!(!json_preview_fits(&split, 120));
    assert!(json_preview_fits(&whole, 120));
    assert!(json_preview_fits("{}", 120));

    let mut state = StreamState::new();
    let mut turn = TurnState::new();
    let mut metrics = Metrics::new();
    let mut messages = Vec::new();
    let perm = PermissionEvaluator::auto();
    let hooks = HookRunner::empty();
    for e in [
        StreamEvent::ToolUseStart { id: "t1".into(), name: "Search".into() },
        StreamEvent::ToolInputDelta { id: "t1".into(), json_chunk: split.clone() },
    ] {
        assert!(on_stream_event_checked(&mut state, e, &mut turn.recovery, &perm, &hooks, &mut metrics, &mut messages).is_some());
    }
    let end = StreamEvent::ToolUseEnd { id: "t1".into() };
    assert!(!state.end_preview_fits(&end));
    assert!(on_stream_event_checked(&mut state, end, &mut turn.recovery, &perm, &hooks, &mut metrics, &mut messages).is_none());
    assert!(messages.is_empty());
}

#[test]
fn slash_messages_invoke_skills() {
    assert_eq!(slash_invocation("/commit -m fix"), Some(("commit".to_string(), Some("-m fix".to_string()))));
    assert_eq!(slash_invocation("/review"), Some(("review".to_string(), None)));
    assert_eq!(slash_invocation("/review "), Some(("review".to_string(), None)));
    assert_eq!(slash_invocation("please /review"), None);
    assert_eq!(slash_invocation(""), None);
}

#[test]
fn a_turn_opens_with_skill_messages_then_the_user_message() {
    let mut messages = vec![Message::user("m0", "earlier")];
    let skill = vec![Message::user("s1", "<system-reminder>\ndo it\n</system-reminder>")];
    open_turn(&mut messages, skill, "m1", "/deploy now");
    assert_eq!(messages.len(), 3);
    assert_eq!(messages[1].id, "s1");
    assert_eq!(messages[2].id, "m1");
    assert_eq!(messages[2].role, Role::User);
    assert_eq!(messages[2].content, vec![ContentBlock::Text { text: "/deploy now".into() }]);
}

#[test]
fn run_output_names_the_results_stream() {
    let out = run_output("m1", "thread-9", TurnStopReason::Completed);
    assert_eq!(out.message_id, "m1");
    assert_eq!(out.stream_key, "results:thread-9");
    assert_eq!(out.stop_reason, TurnStopReason::Completed);
}

#[test]
fn results_announced_while_streaming_are_not_announced_again() {
    let result = |id: &str| LoopEvent::ToolResult {
        id: id.to_string(),
        name: "Read".to_string(),
        content: "ok".to_string(),
        is_error: false,
    };
    let events = vec![
        result("a"),
        LoopEvent::Compacted { pre_tokens: 3 },
        result("b"),
        result("c"),
    ];
    let kept = drop_announced(events, &["b".to_string()]);
    let ids: Vec<String> = kept
        .iter()
        .map(|e| match e {
            LoopEvent::ToolResult { id, .. } => id.clone(),
            _ => "other".to_string(),
        })
        .collect();
    assert_eq!(ids, vec!["a".to_string(), "other".to_string(), "c".to_string()]);
}
