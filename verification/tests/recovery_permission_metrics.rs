use hahi_agent::common::message::StopReason;
use hahi_agent::infra::metrics::Metrics;
use hahi_agent::kernel::error_recovery::{
    backoff_duration, backoff_with_jitter, continuation_prompt, effective_max_tokens, evaluate, ApiErrorKind,
    LoopControl, RecoveryAction, RecoveryState, BACKOFF_MAX_MS, MAX_RATE_LIMIT_RETRIES,
};
use hahi_agent::kernel::permission::{PermissionDecision, PermissionEvaluator, PermissionMode, PermissionRule};
use hahi_agent::kernel::turn::TurnStopReason;

#[test]
fn test_metrics_recording() {
    let mut m = Metrics::new();
    m.record_turn();
    m.record_turn();
    m.record_tool_call();
    m.record_tokens(1000, 500);
    let snap = m.snapshot();
    assert_eq!(snap.turns_total, 2);
    assert_eq!(snap.tool_calls_total, 1);
    assert_eq!(snap.input_tokens_total, 1000);
    assert_eq!(snap.output_tokens_total, 500);
}

#[test]
fn test_active_runs_gauge() {
    let mut m = Metrics::new();
    m.run_started();
    m.run_started();
    assert_eq!(m.snapshot().active_runs, 2);
    m.run_ended();
    assert_eq!(m.snapshot().active_runs, 1);
}

#[test]
fn prometheus_text_lists_every_counter() {
    let mut m = Metrics::new();
    m.record_error();
    m.record_compact();
    let text = m.to_prometheus();
    assert!(text.contains("errors_total 1"));
    assert!(text.contains("compacts_total 1"));
    assert!(text.contains("active_runs 0"));
}

#[test]
fn test_normal_response_continues() {
    let mut state = RecoveryState::default();
    let action = evaluate(&StopReason::EndTurn, 1000, &mut state, None);
    assert_eq!(action, RecoveryAction::Continue);
}

#[test]
fn test_max_tokens_escalates() {
    let mut state = RecoveryState::default();
    let action = evaluate(&StopReason::MaxTokens, 16000, &mut state, None);
    assert!(matches!(action, RecoveryAction::EscalateTokens { .. }));
}

#[test]
fn max_tokens_ladder_escalates_then_continues_then_aborts() {
    let mut state = RecoveryState::default();
    assert_eq!(
        evaluate(&StopReason::MaxTokens, 16000, &mut state, None),
        RecoveryAction::EscalateTokens { new_max_tokens: 65_536 }
    );
    assert_eq!(effective_max_tokens(&state), 65_536);
    assert_eq!(evaluate(&StopReason::MaxTokens, 16000, &mut state, None), RecoveryAction::InjectContinuation);
    assert!(matches!(evaluate(&StopReason::MaxTokens, 16000, &mut state, None), RecoveryAction::Abort { .. }));
    assert!(continuation_prompt().starts_with("Your previous response was truncated"));
}

#[test]
fn test_rate_limit_exponential_backoff() {
    let mut state = RecoveryState::default();
    let err = ApiErrorKind::RateLimit { retry_after_seconds: None };
    let a1 = evaluate(&StopReason::EndTurn, 0, &mut state, Some(&err));
    let a2 = evaluate(&StopReason::EndTurn, 0, &mut state, Some(&err));
    match (a1, a2) {
        (RecoveryAction::WaitAndRetry { duration_ms: d1 }, RecoveryAction::WaitAndRetry { duration_ms: d2 }) => {
            assert!(d2 > d1, "backoff should increase: {:?} vs {:?}", d1, d2);
        }
        _ => panic!("expected WaitAndRetry"),
    }
}

#[test]
fn test_rate_limit_respects_retry_after() {
    let mut state = RecoveryState::default();
    let err = ApiErrorKind::RateLimit { retry_after_seconds: Some(30) };
    let action = evaluate(&StopReason::EndTurn, 0, &mut state, Some(&err));
    assert_eq!(action, RecoveryAction::WaitAndRetry { duration_ms: 30_000 });
}

#[test]
fn test_rate_limit_gives_up_after_max() {
    let mut state = RecoveryState { rate_limit_retries: MAX_RATE_LIMIT_RETRIES, ..Default::default() };
    let err = ApiErrorKind::RateLimit { retry_after_seconds: None };
    let action = evaluate(&StopReason::EndTurn, 0, &mut state, Some(&err));
    assert!(matches!(action, RecoveryAction::Abort { .. }));
    assert_eq!(action, RecoveryAction::Abort { reason: "rate limited 10 times, giving up".to_string() });
}

#[test]
fn test_diminishing_returns_skipped_in_budget_mode() {
    let mut state = RecoveryState { budget_mode: true, ..Default::default() };
    evaluate(&StopReason::EndTurn, 100, &mut state, None);
    evaluate(&StopReason::EndTurn, 100, &mut state, None);
    let action = evaluate(&StopReason::EndTurn, 100, &mut state, None);
    assert_eq!(action, RecoveryAction::Continue);
}

#[test]
fn test_diminishing_returns_fires_in_normal_mode() {
    let mut state = RecoveryState::default();
    evaluate(&StopReason::EndTurn, 100, &mut state, None);
    evaluate(&StopReason::EndTurn, 100, &mut state, None);
    let action = evaluate(&StopReason::EndTurn, 100, &mut state, None);
    assert_eq!(action, RecoveryAction::StopDiminishingReturns);
}

#[test]
fn useful_output_resets_the_low_output_streak() {
    let mut state = RecoveryState::default();
    evaluate(&StopReason::EndTurn, 100, &mut state, None);
    evaluate(&StopReason::EndTurn, 100, &mut state, None);
    evaluate(&StopReason::EndTurn, 5000, &mut state, None);
    assert_eq!(state.low_output_streak, 0);
    assert_eq!(evaluate(&StopReason::EndTurn, 100, &mut state, None), RecoveryAction::Continue);
}

#[test]
fn prompt_too_long_compacts_once_then_aborts() {
    let mut state = RecoveryState::default();
    let err = ApiErrorKind::PromptTooLong;
    assert_eq!(evaluate(&StopReason::EndTurn, 0, &mut state, Some(&err)), RecoveryAction::CompactAndRetry);
    assert_eq!(
        evaluate(&StopReason::EndTurn, 0, &mut state, Some(&err)),
        RecoveryAction::Abort { reason: "prompt too long after compaction".to_string() }
    );
    let after = state.clone();
    for _ in 0..5 {
        assert_eq!(
            evaluate(&StopReason::EndTurn, 0, &mut state, Some(&err)),
            RecoveryAction::Abort { reason: "prompt too long after compaction".to_string() }
        );
        assert_eq!(state, after);
    }
    assert!(state.has_compacted);
    assert_eq!(state.rate_limit_retries, 0);
    assert_eq!(state.server_error_retries, 0);
    assert_eq!(state.token_escalation_count, 0);
}

#[test]
fn recovery_actions_map_to_loop_control() {
    assert_eq!(RecoveryAction::Continue.into_loop_control(), LoopControl::Continue);
    assert_eq!(RecoveryAction::CompactAndRetry.into_loop_control(), LoopControl::Retry);
    assert_eq!(
        RecoveryAction::StopDiminishingReturns.into_loop_control(),
        LoopControl::Return(TurnStopReason::DiminishingReturns)
    );
    assert_eq!(
        RecoveryAction::Abort { reason: "x".to_string() }.into_loop_control(),
        LoopControl::Return(TurnStopReason::Error("x".to_string()))
    );
}

#[test]
fn test_backoff_increases() {
    let d1 = backoff_duration(1);
    let d2 = backoff_duration(2);
    let d3 = backoff_duration(3);
    assert!(d2 > d1);
    assert!(d3 > d2);
}

#[test]
fn test_backoff_capped() {
    let d = backoff_duration(20);
    assert!(d <= BACKOFF_MAX_MS);
}

#[test]
fn backoff_formula_exact_values() {
    assert_eq!(backoff_with_jitter(1, 0), 500);
    assert_eq!(backoff_with_jitter(3, 7), 2007);
    assert_eq!(backoff_with_jitter(7, 499), 30_000);
    assert_eq!(backoff_with_jitter(30, 0), 30_000);
}

#[test]
fn test_auto_mode_always_allows() {
    let eval = PermissionEvaluator::auto();
    assert_eq!(eval.check("Bash", "{}"), PermissionDecision::Allow);
}

#[test]
fn test_ask_mode_defaults_to_ask() {
    let eval = PermissionEvaluator::new(PermissionMode::Ask, vec![]);
    assert_eq!(eval.check("Bash", "{}"), PermissionDecision::Ask);
}

#[test]
fn test_readonly_mode_allows_reads() {
    let eval = PermissionEvaluator::new(PermissionMode::Readonly, vec![]);
    assert_eq!(eval.check("WebSearch", "{}"), PermissionDecision::Allow);
    assert_eq!(eval.check("Bash", "{}"), PermissionDecision::Deny);
}

#[test]
fn test_rule_overrides_mode() {
    let eval = PermissionEvaluator::new(
        PermissionMode::Ask,
        vec![PermissionRule { tool_pattern: "WebSearch".into(), decision: PermissionDecision::Allow }],
    );
    assert_eq!(eval.check("WebSearch", "{}"), PermissionDecision::Allow);
    assert_eq!(eval.check("Bash", "{}"), PermissionDecision::Ask);
}

#[test]
fn test_wildcard_rule() {
    let eval = PermissionEvaluator::new(
        PermissionMode::Ask,
        vec![PermissionRule { tool_pattern: "*".into(), decision: PermissionDecision::Allow }],
    );
    assert_eq!(eval.check("AnyTool", "{}"), PermissionDecision::Allow);
}

#[test]
fn first_matching_rule_wins() {
    let eval = PermissionEvaluator::new(
        PermissionMode::Auto,
        vec![
            PermissionRule { tool_pattern: "Bash".into(), decision: PermissionDecision::Deny },
            PermissionRule { tool_pattern: "*".into(), decision: PermissionDecision::Ask },
        ],
    );
    assert_eq!(eval.check("Bash", "{}"), PermissionDecision::Deny);
    assert_eq!(eval.check("Other", "{}"), PermissionDecision::Ask);
}
