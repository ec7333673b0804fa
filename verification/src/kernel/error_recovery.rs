//! Multi-layer error recovery.
//!
//! Errors are information: tool errors go back to the model. The framework
//! only intervenes for structural failures: truncated output, context
//! overflow, rate limits, server errors and diminishing returns.
use vstd::prelude::*;
use rand::Rng;
use crate::common::message::StopReason;
use crate::kernel::turn::TurnStopReason;
use crate::text::{cat3, owned, u64_to_string, decimal};

verus! {

/// Minimum useful output per turn. Below this the turn is "not making progress".
pub const MIN_USEFUL_TOKENS: u64 = 500;
/// Consecutive low-output turns before auto-stop (normal mode).
pub const MAX_LOW_OUTPUT_TURNS: u32 = 3;
/// Max output token escalation attempts.
pub const MAX_TOKEN_ESCALATIONS: u32 = 2;
pub const DEFAULT_MAX_OUTPUT_TOKENS: u32 = 16_384;
pub const ESCALATED_MAX_OUTPUT_TOKENS: u32 = 65_536;
pub const BACKOFF_BASE_MS: u64 = 500;
pub const BACKOFF_MAX_MS: u64 = 30_000;
pub const MAX_RATE_LIMIT_RETRIES: u32 = 10;
pub const MAX_SERVER_ERROR_RETRIES: u32 = 3;

/// Recovery state, carried through the loop.
#[derive(Clone, Copy, Debug, PartialEq, Eq, Structural)]
pub struct RecoveryState {
    pub token_escalation_count: u32,
    pub low_output_streak: u32,
    pub has_compacted: bool,
    pub rate_limit_retries: u32,
    pub server_error_retries: u32,
    /// If true, diminishing returns detection is disabled (the user explicitly
    /// wants to spend tokens).
    pub budget_mode: bool,
}

impl Default for RecoveryState {
    fn default() -> (r: Self)
        ensures
            r == initial_recovery_state(),
    {
        RecoveryState {
            token_escalation_count: 0,
            low_output_streak: 0,
            has_compacted: false,
            rate_limit_retries: 0,
            server_error_retries: 0,
            budget_mode: false,
        }
    }
}

pub open spec fn initial_recovery_state() -> RecoveryState {
    RecoveryState {
        token_escalation_count: 0,
        low_output_streak: 0,
        has_compacted: false,
        rate_limit_retries: 0,
        server_error_retries: 0,
        budget_mode: false,
    }
}

/// What the loop should do next.
#[derive(Clone, Debug, PartialEq, Eq)]
pub enum RecoveryAction {
    Continue,
    EscalateTokens { new_max_tokens: u32 },
    InjectContinuation,
    CompactAndRetry,
    WaitAndRetry { duration_ms: u64 },
    StopDiminishingReturns,
    Abort { reason: String },
}

/// The variant of a recovery action, without its data.
#[derive(Clone, Copy, Debug, PartialEq, Eq, Structural)]
pub enum RecoveryKind {
    Continue,
    EscalateTokens,
    InjectContinuation,
    CompactAndRetry,
    WaitAndRetry,
    StopDiminishingReturns,
    Abort,
}

impl RecoveryAction {
    pub open spec fn kind(self) -> RecoveryKind {
        match self {
            RecoveryAction::Continue => RecoveryKind::Continue,
            RecoveryAction::EscalateTokens { .. } => RecoveryKind::EscalateTokens,
            RecoveryAction::InjectContinuation => RecoveryKind::InjectContinuation,
            RecoveryAction::CompactAndRetry => RecoveryKind::CompactAndRetry,
            RecoveryAction::WaitAndRetry { .. } => RecoveryKind::WaitAndRetry,
            RecoveryAction::StopDiminishingReturns => RecoveryKind::StopDiminishingReturns,
            RecoveryAction::Abort { .. } => RecoveryKind::Abort,
        }
    }
}

/// High-level loop control decision, derived from a recovery action.
#[derive(Clone, Debug, PartialEq, Eq)]
pub enum LoopControl {
    /// Continue to the next iteration normally.
    Continue,
    /// Retry the API call this iteration.
    Retry,
    /// Return from the loop with the given stop reason.
    Return(TurnStopReason),
}

impl RecoveryAction {
    /// An identical copy.
    pub fn duplicate(&self) -> (r: Self)
        ensures
            r == *self,
    {
        match self {
            RecoveryAction::Continue => RecoveryAction::Continue,
            RecoveryAction::EscalateTokens { new_max_tokens } => RecoveryAction::EscalateTokens { new_max_tokens: *new_max_tokens },
            RecoveryAction::InjectContinuation => RecoveryAction::InjectContinuation,
            RecoveryAction::CompactAndRetry => RecoveryAction::CompactAndRetry,
            RecoveryAction::WaitAndRetry { duration_ms } => RecoveryAction::WaitAndRetry { duration_ms: *duration_ms },
            RecoveryAction::StopDiminishingReturns => RecoveryAction::StopDiminishingReturns,
            RecoveryAction::Abort { reason } => RecoveryAction::Abort { reason: reason.clone() },
        }
    }

    /// Map to a pure control-flow decision. Side-effect variants (escalate,
    /// inject continuation, compact, wait) become `Retry`: the caller performs
    /// the side effect first.
    pub fn into_loop_control(self) -> (r: LoopControl)
        ensures
            r == spec_loop_control(self),
    {
        match self {
            RecoveryAction::Continue => LoopControl::Continue,
            RecoveryAction::EscalateTokens { .. } => LoopControl::Retry,
            RecoveryAction::InjectContinuation => LoopControl::Retry,
            RecoveryAction::CompactAndRetry => LoopControl::Retry,
            RecoveryAction::WaitAndRetry { .. } => LoopControl::Retry,
            RecoveryAction::StopDiminishingReturns => LoopControl::Return(
                TurnStopReason::DiminishingReturns,
            ),
            RecoveryAction::Abort { reason } => LoopControl::Return(TurnStopReason::Error(reason)),
        }
    }
}

pub open spec fn spec_loop_control(a: RecoveryAction) -> LoopControl {
    match a {
        RecoveryAction::Continue => LoopControl::Continue,
        RecoveryAction::StopDiminishingReturns => LoopControl::Return(TurnStopReason::DiminishingReturns),
        RecoveryAction::Abort { reason } => LoopControl::Return(TurnStopReason::Error(reason)),
        _ => LoopControl::Retry,
    }
}

/// Classification of an API error for recovery routing.
#[derive(Clone, Debug, PartialEq, Eq)]
pub enum ApiErrorKind {
    /// 429 Too Many Requests.
    RateLimit { retry_after_seconds: Option<u32> },
    /// 5xx, transient.
    ServerError,
    /// 413, prompt too long.
    PromptTooLong,
    /// Anything else: not recoverable.
    Other { message: String },
}

// ---------------------------------------------------------------------------
// Specification
// ---------------------------------------------------------------------------

/// 2^k.
pub open spec fn pow2(k: nat) -> nat
    decreases k,
{
    if k == 0 { 1 } else { 2 * pow2((k - 1) as nat) }
}

/// Exponential backoff with jitter, in milliseconds:
/// `min(base * 2^min(attempt - 1, 10) + jitter, max)`.
pub open spec fn backoff_ms(attempt: nat, jitter: nat) -> nat {
    let k: nat = if attempt >= 11 { 10 } else { (attempt - 1) as nat };
    let exp = BACKOFF_BASE_MS * pow2(k);
    if exp + jitter <= BACKOFF_MAX_MS { (exp + jitter) as nat } else { BACKOFF_MAX_MS as nat }
}

/// Whether the counters that `evaluate` increments can be incremented.
pub open spec fn counters_fit(stop: StopReason, s: RecoveryState, err: Option<ApiErrorKind>) -> bool {
    match err {
        Some(ApiErrorKind::RateLimit { .. }) => s.rate_limit_retries < u32::MAX,
        Some(ApiErrorKind::ServerError) => s.server_error_retries < u32::MAX,
        Some(_) => true,
        None => if stop == StopReason::MaxTokens {
            s.token_escalation_count < u32::MAX
        } else {
            s.low_output_streak < u32::MAX
        },
    }
}

/// The recovery state after one evaluation.
pub open spec fn next_state(stop: StopReason, out: u64, s: RecoveryState, err: Option<ApiErrorKind>) -> RecoveryState {
    match err {
        Some(ApiErrorKind::RateLimit { .. }) => RecoveryState { rate_limit_retries: (s.rate_limit_retries + 1) as u32, ..s },
        Some(ApiErrorKind::ServerError) => RecoveryState { server_error_retries: (s.server_error_retries + 1) as u32, ..s },
        Some(ApiErrorKind::PromptTooLong) => RecoveryState { has_compacted: true, ..s },
        Some(ApiErrorKind::Other { .. }) => s,
        None => if stop == StopReason::MaxTokens {
            RecoveryState { token_escalation_count: (s.token_escalation_count + 1) as u32, ..s }
        } else if s.budget_mode {
            s
        } else if out < MIN_USEFUL_TOKENS {
            RecoveryState { low_output_streak: (s.low_output_streak + 1) as u32, ..s }
        } else {
            RecoveryState { low_output_streak: 0, ..s }
        },
    }
}

/// The kind of action one evaluation yields.
pub open spec fn next_kind(stop: StopReason, out: u64, s: RecoveryState, err: Option<ApiErrorKind>) -> RecoveryKind {
    let t = next_state(stop, out, s, err);
    match err {
        Some(ApiErrorKind::RateLimit { .. }) => if t.rate_limit_retries > MAX_RATE_LIMIT_RETRIES {
            RecoveryKind::Abort
        } else {
            RecoveryKind::WaitAndRetry
        },
        Some(ApiErrorKind::ServerError) => if t.server_error_retries > MAX_SERVER_ERROR_RETRIES {
            RecoveryKind::Abort
        } else {
            RecoveryKind::WaitAndRetry
        },
        Some(ApiErrorKind::PromptTooLong) => if s.has_compacted {
            RecoveryKind::Abort
        } else {
            RecoveryKind::CompactAndRetry
        },
        Some(ApiErrorKind::Other { .. }) => RecoveryKind::Abort,
        None => if stop == StopReason::MaxTokens {
            if t.token_escalation_count == 1 {
                RecoveryKind::EscalateTokens
            } else if t.token_escalation_count <= MAX_TOKEN_ESCALATIONS {
                RecoveryKind::InjectContinuation
            } else {
                RecoveryKind::Abort
            }
        } else if !s.budget_mode && out < MIN_USEFUL_TOKENS && t.low_output_streak >= MAX_LOW_OUTPUT_TURNS {
            RecoveryKind::StopDiminishingReturns
        } else {
            RecoveryKind::Continue
        },
    }
}

/// The reason given when an evaluation aborts.
pub open spec fn abort_reason(stop: StopReason, s: RecoveryState, err: Option<ApiErrorKind>) -> Seq<char> {
    match err {
        Some(ApiErrorKind::RateLimit { .. }) => "rate limited "@ + decimal(MAX_RATE_LIMIT_RETRIES as nat) + " times, giving up"@,
        Some(ApiErrorKind::ServerError) => "server error "@ + decimal(MAX_SERVER_ERROR_RETRIES as nat) + " times, giving up"@,
        Some(ApiErrorKind::PromptTooLong) => "prompt too long after compaction"@,
        Some(ApiErrorKind::Other { message }) => message@,
        None => "output truncated after multiple escalations"@,
    }
}

/// The data an action carries, given its kind.
pub open spec fn action_data_ok(a: RecoveryAction, stop: StopReason, s: RecoveryState, err: Option<ApiErrorKind>) -> bool {
    match a {
        RecoveryAction::EscalateTokens { new_max_tokens } => new_max_tokens == ESCALATED_MAX_OUTPUT_TOKENS,
        RecoveryAction::WaitAndRetry { duration_ms } => match err {
            Some(ApiErrorKind::RateLimit { retry_after_seconds: Some(secs) }) => duration_ms == secs * 1000,
            Some(ApiErrorKind::RateLimit { retry_after_seconds: None }) =>
                exists|j: nat| j < BACKOFF_BASE_MS && duration_ms == #[trigger] backoff_ms((s.rate_limit_retries + 1) as nat, j),
            Some(ApiErrorKind::ServerError) =>
                exists|j: nat| j < BACKOFF_BASE_MS && duration_ms == #[trigger] backoff_ms((s.server_error_retries + 1) as nat, j),
            _ => false,
        },
        RecoveryAction::Abort { reason } => reason@ == abort_reason(stop, s, err),
        _ => true,
    }
}

pub open spec fn opt_deref(e: Option<&ApiErrorKind>) -> Option<ApiErrorKind> {
    match e {
        Some(x) => Some(*x),
        None => None,
    }
}

// ---------------------------------------------------------------------------
// Implementation
// ---------------------------------------------------------------------------

/// A uniformly random number in `0..bound` (`rand::thread_rng().gen_range`).
/// Claims only the range.
#[verifier::external_body]
fn random_below(bound: u64) -> (r: u64)
    requires
        bound > 0,
    ensures
        r < bound,
{
    rand::thread_rng().gen_range(0..bound)
}

/// Backoff for a given attempt and jitter.
pub fn backoff_with_jitter(attempt: u32, jitter: u64) -> (r: u64)
    requires
        attempt >= 1,
        jitter < BACKOFF_BASE_MS,
    ensures
        r == backoff_ms(attempt as nat, jitter as nat),
{
    let k: u32 = if attempt - 1 < 10 { attempt - 1 } else { 10 };
    let mut p: u64 = 1;
    let mut i: u32 = 0;
    while i < k
        invariant
            i <= k <= 10,
            p == pow2(i as nat),
            p <= 1024,
        decreases k - i,
    {
        proof {
            lemma_pow2_bound((i + 1) as nat);
        }
        p = p * 2;
        i = i + 1;
    }
    let exp = BACKOFF_BASE_MS * p;
    let total = exp + jitter;
    if total <= BACKOFF_MAX_MS { total } else { BACKOFF_MAX_MS }
}

proof fn lemma_pow2_bound(k: nat)
    requires
        k <= 10,
    ensures
        pow2(k) <= 1024,
        pow2(k) >= 1,
    decreases k,
{
    if k > 0 {
        lemma_pow2_bound((k - 1) as nat);
        if k <= 9 {
            lemma_pow2_le9((k - 1) as nat);
        }
    }
    reveal_with_fuel(pow2, 11);
}

proof fn lemma_pow2_le9(k: nat)
    requires
        k <= 8,
    ensures
        pow2(k) <= 256,
{
    reveal_with_fuel(pow2, 10);
    if k == 0 {} else if k == 1 {} else if k == 2 {} else if k == 3 {} else if k == 4 {}
    else if k == 5 {} else if k == 6 {} else if k == 7 {} else {}
}

/// Exponential backoff with random jitter in `[0, base)`, capped at the maximum.
pub fn backoff_duration(attempt: u32) -> (r: u64)
    requires
        attempt >= 1,
    ensures
        exists|j: nat| j < BACKOFF_BASE_MS && r == backoff_ms(attempt as nat, j),
{
    let jitter = random_below(BACKOFF_BASE_MS);
    backoff_with_jitter(attempt, jitter)
}

/// Evaluate the model response (or API error) and decide how to recover.
pub fn evaluate(
    stop_reason: &StopReason,
    output_tokens: u64,
    state: &mut RecoveryState,
    api_error: Option<&ApiErrorKind>,
) -> (r: RecoveryAction)
    requires
        counters_fit(*stop_reason, *old(state), opt_deref(api_error)),
    ensures
        *final(state) == next_state(*stop_reason, output_tokens, *old(state), opt_deref(api_error)),
        r.kind() == next_kind(*stop_reason, output_tokens, *old(state), opt_deref(api_error)),
        action_data_ok(r, *stop_reason, *old(state), opt_deref(api_error)),
{
    if let Some(error) = api_error {
        return evaluate_api_error(error, state);
    }
    if *stop_reason == StopReason::MaxTokens {
        state.token_escalation_count = state.token_escalation_count + 1;
        if state.token_escalation_count == 1 {
            return RecoveryAction::EscalateTokens { new_max_tokens: ESCALATED_MAX_OUTPUT_TOKENS };
        }
        if state.token_escalation_count <= MAX_TOKEN_ESCALATIONS {
            return RecoveryAction::InjectContinuation;
        }
        return RecoveryAction::Abort { reason: owned("output truncated after multiple escalations") };
    }
    if !state.budget_mode {
        if output_tokens < MIN_USEFUL_TOKENS {
            state.low_output_streak = state.low_output_streak + 1;
            if state.low_output_streak >= MAX_LOW_OUTPUT_TURNS {
                return RecoveryAction::StopDiminishingReturns;
            }
        } else {
            state.low_output_streak = 0;
        }
    }
    RecoveryAction::Continue
}

/// Handle an API-level error with its retry strategy.
fn evaluate_api_error(error: &ApiErrorKind, state: &mut RecoveryState) -> (r: RecoveryAction)
    requires
        counters_fit(StopReason::EndTurn, *old(state), Some(*error)),
    ensures
        forall|stop: StopReason, out: u64| #![auto]
            *final(state) == next_state(stop, out, *old(state), Some(*error)),
        forall|stop: StopReason, out: u64| #![auto]
            r.kind() == next_kind(stop, out, *old(state), Some(*error)),
        forall|stop: StopReason| #![auto]
            action_data_ok(r, stop, *old(state), Some(*error)),
{
    match error {
        ApiErrorKind::RateLimit { retry_after_seconds } => {
            state.rate_limit_retries = state.rate_limit_retries + 1;
            if state.rate_limit_retries > MAX_RATE_LIMIT_RETRIES {
                return RecoveryAction::Abort {
                    reason: cat3("rate limited ", u64_to_string(MAX_RATE_LIMIT_RETRIES as u64).as_str(), " times, giving up"),
                };
            }
            let duration_ms = match retry_after_seconds {
                Some(s) => (*s as u64) * 1000,
                None => backoff_duration(state.rate_limit_retries),
            };
            proof {
                if retry_after_seconds.is_none() {
                    let j = choose|j: nat| j < BACKOFF_BASE_MS && duration_ms == backoff_ms(state.rate_limit_retries as nat, j);
                    assert(duration_ms == backoff_ms((old(state).rate_limit_retries + 1) as nat, j));
                }
            }
            RecoveryAction::WaitAndRetry { duration_ms }
        },
        ApiErrorKind::ServerError => {
            state.server_error_retries = state.server_error_retries + 1;
            if state.server_error_retries > MAX_SERVER_ERROR_RETRIES {
                return RecoveryAction::Abort {
                    reason: cat3("server error ", u64_to_string(MAX_SERVER_ERROR_RETRIES as u64).as_str(), " times, giving up"),
                };
            }
            let duration_ms = backoff_duration(state.server_error_retries);
            proof {
                let j = choose|j: nat| j < BACKOFF_BASE_MS && duration_ms == backoff_ms(state.server_error_retries as nat, j);
                assert(duration_ms == backoff_ms((old(state).server_error_retries + 1) as nat, j));
            }
            RecoveryAction::WaitAndRetry { duration_ms }
        },
        ApiErrorKind::PromptTooLong => {
            if state.has_compacted {
                return RecoveryAction::Abort { reason: owned("prompt too long after compaction") };
            }
            state.has_compacted = true;
            RecoveryAction::CompactAndRetry
        },
        ApiErrorKind::Other { message } => RecoveryAction::Abort { reason: message.clone() },
    }
}

/// The continuation prompt injected when output was truncated.
pub fn continuation_prompt() -> (r: &'static str)
    ensures
        r@ == "Your previous response was truncated due to length limits. Continue exactly where you left off. Do not repeat what you already said."@,
{
    "Your previous response was truncated due to length limits. Continue exactly where you left off. Do not repeat what you already said."
}

/// max_tokens for the next API call: escalated once any escalation happened.
pub fn effective_max_tokens(state: &RecoveryState) -> (r: u32)
    ensures
        r == (if state.token_escalation_count > 0 { ESCALATED_MAX_OUTPUT_TOKENS } else { DEFAULT_MAX_OUTPUT_TOKENS }),
{
    if state.token_escalation_count > 0 {
        ESCALATED_MAX_OUTPUT_TOKENS
    } else {
        DEFAULT_MAX_OUTPUT_TOKENS
    }
}

// ---------------------------------------------------------------------------
// Laws
// ---------------------------------------------------------------------------

/// In budget mode, diminishing-returns detection never stops the loop.
pub proof fn lemma_budget_mode_never_stops(stop: StopReason, out: u64, s: RecoveryState, err: Option<ApiErrorKind>)
    requires
        s.budget_mode,
    ensures
        next_kind(stop, out, s, err) != RecoveryKind::StopDiminishingReturns,
        next_state(stop, out, s, err).budget_mode,
{
}

/// Outside budget mode, three consecutive end-of-turn responses below the
/// useful-output threshold stop the loop on the third; the first two continue.
pub proof fn lemma_three_low_output_turns_stop(s: RecoveryState, o1: u64, o2: u64, o3: u64)
    requires
        !s.budget_mode,
        s.low_output_streak == 0,
        o1 < MIN_USEFUL_TOKENS,
        o2 < MIN_USEFUL_TOKENS,
        o3 < MIN_USEFUL_TOKENS,
    ensures
        ({
            let s1 = next_state(StopReason::EndTurn, o1, s, None);
            let s2 = next_state(StopReason::EndTurn, o2, s1, None);
            &&& next_kind(StopReason::EndTurn, o1, s, None) == RecoveryKind::Continue
            &&& next_kind(StopReason::EndTurn, o2, s1, None) == RecoveryKind::Continue
            &&& next_kind(StopReason::EndTurn, o3, s2, None) == RecoveryKind::StopDiminishingReturns
        }),
{
}

/// A useful response resets the low-output streak.
pub proof fn lemma_useful_output_resets_streak(stop: StopReason, out: u64, s: RecoveryState)
    requires
        stop != StopReason::MaxTokens,
        out >= MIN_USEFUL_TOKENS,
    ensures
        s.budget_mode || next_state(stop, out, s, None).low_output_streak == 0,
        next_kind(stop, out, s, None) == RecoveryKind::Continue,
{
}

/// Truncated output escalates max_tokens first, then injects a continuation,
/// then aborts.
pub proof fn lemma_max_tokens_escalation_ladder(s: RecoveryState)
    requires
        s.token_escalation_count == 0,
    ensures
        ({
            let s1 = next_state(StopReason::MaxTokens, 0, s, None);
            let s2 = next_state(StopReason::MaxTokens, 0, s1, None);
            &&& next_kind(StopReason::MaxTokens, 0, s, None) == RecoveryKind::EscalateTokens
            &&& next_kind(StopReason::MaxTokens, 0, s1, None) == RecoveryKind::InjectContinuation
            &&& next_kind(StopReason::MaxTokens, 0, s2, None) == RecoveryKind::Abort
        }),
{
}

/// Once the rate-limit retry budget is spent, a further rate limit aborts.
pub proof fn lemma_rate_limit_gives_up(stop: StopReason, out: u64, s: RecoveryState, after: Option<u32>)
    requires
        s.rate_limit_retries >= MAX_RATE_LIMIT_RETRIES,
        s.rate_limit_retries < u32::MAX,
    ensures
        next_kind(stop, out, s, Some(ApiErrorKind::RateLimit { retry_after_seconds: after })) == RecoveryKind::Abort,
{
}

/// Within the retry budget, a rate limit waits and retries.
pub proof fn lemma_rate_limit_retries_within_budget(stop: StopReason, out: u64, s: RecoveryState, after: Option<u32>)
    requires
        s.rate_limit_retries < MAX_RATE_LIMIT_RETRIES,
    ensures
        next_kind(stop, out, s, Some(ApiErrorKind::RateLimit { retry_after_seconds: after })) == RecoveryKind::WaitAndRetry,
{
}

/// Compaction is attempted once per turn: a second prompt-too-long aborts.
pub proof fn lemma_compact_only_once(stop: StopReason, out: u64, s: RecoveryState)
    requires
        !s.has_compacted,
    ensures
        ({
            let e = Some(ApiErrorKind::PromptTooLong);
            let s1 = next_state(stop, out, s, e);
            &&& next_kind(stop, out, s, e) == RecoveryKind::CompactAndRetry
            &&& next_kind(stop, out, s1, e) == RecoveryKind::Abort
        }),
{
}

/// The recovery state after `k` evaluations of the same outcome in a row.
pub open spec fn repeated_state(stop: StopReason, out: u64, s: RecoveryState, err: Option<ApiErrorKind>, k: nat) -> RecoveryState
    decreases k,
{
    if k == 0 { s } else { next_state(stop, out, repeated_state(stop, out, s, err, (k - 1) as nat), err) }
}

/// A prompt that stays too long, evaluated `k >= 1` times in a row: the
/// first evaluation compacts, every later one aborts with "prompt too long
/// after compaction" and leaves the state as it is; only the compaction
/// flag ever changes. These are the terms of `evaluate`'s contract, so this
/// is the law of `k` calls of `evaluate(stop, out, &mut state,
/// Some(&ApiErrorKind::PromptTooLong))` on one state.
pub proof fn lemma_prompt_too_long_repeated(stop: StopReason, out: u64, s: RecoveryState, k: nat)
    requires
        !s.has_compacted,
        k >= 1,
    ensures
        ({
            let e = Some(ApiErrorKind::PromptTooLong);
            &&& next_kind(stop, out, s, e) == RecoveryKind::CompactAndRetry
            &&& repeated_state(stop, out, s, e, k) == (RecoveryState { has_compacted: true, ..s })
            &&& forall|j: nat| 1 <= j <= k ==> {
                &&& #[trigger] repeated_state(stop, out, s, e, j) == (RecoveryState { has_compacted: true, ..s })
                &&& next_kind(stop, out, repeated_state(stop, out, s, e, j), e) == RecoveryKind::Abort
                &&& abort_reason(stop, repeated_state(stop, out, s, e, j), e) == "prompt too long after compaction"@
            }
        }),
    decreases k,
{
    let e = Some(ApiErrorKind::PromptTooLong);
    if k > 1 {
        lemma_prompt_too_long_repeated(stop, out, s, (k - 1) as nat);
        assert(repeated_state(stop, out, s, e, k) == next_state(stop, out, repeated_state(stop, out, s, e, (k - 1) as nat), e));
    } else {
        assert(repeated_state(stop, out, s, e, 0) == s);
        assert(repeated_state(stop, out, s, e, 1) == next_state(stop, out, s, e));
    }
    assert forall|j: nat| 1 <= j <= k implies #[trigger] repeated_state(stop, out, s, e, j) == (RecoveryState { has_compacted: true, ..s }) by {
        if j < k {
            lemma_prompt_too_long_repeated(stop, out, s, j);
        }
    }
}

/// Backoff never exceeds the cap.
pub proof fn lemma_backoff_capped(attempt: nat, jitter: nat)
    ensures
        backoff_ms(attempt, jitter) <= BACKOFF_MAX_MS,
{
}

/// Backoff strictly grows with the attempt number, whatever the jitter,
/// until the cap is reached (attempt 7 is the first capped one).
pub proof fn lemma_backoff_increases(a: nat, b: nat, ja: nat, jb: nat)
    requires
        1 <= a < b <= 7,
        ja < BACKOFF_BASE_MS,
        jb < BACKOFF_BASE_MS,
    ensures
        backoff_ms(a, ja) < backoff_ms(b, jb),
{
    reveal_with_fuel(pow2, 7);
}

}
