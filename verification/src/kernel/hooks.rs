//! Hooks: user-defined validation around tool use and turn completion.
//!
//! Each hook receives an event and allows or blocks it. A block reason is
//! fed back to the model so it can self-correct.
use vstd::prelude::*;
use crate::common::message::ToolOutput;
use crate::text::{cat3, owned, str_eq_ignore_ascii_case, eq_ignore_ascii_case};

verus! {

/// The event a hook evaluates. Tool inputs are JSON text.
#[derive(Clone, Debug, PartialEq)]
pub enum HookEvent {
    /// A tool is about to be executed.
    PreToolUse { tool_name: String, input: String },
    /// A tool has finished executing.
    PostToolUse { tool_name: String, input: String, output: ToolOutput },
    /// The model finished responding; the turn is about to end.
    PreComplete { assistant_text: String },
}

/// A hook's decision.
#[derive(Clone, Debug, PartialEq, Eq)]
pub enum HookDecision {
    Allow,
    /// Block the operation; the reason is shown to the model.
    Block { reason: String },
}

/// `None` for allow, `Some(reason)` for block.
pub open spec fn decision_view(d: HookDecision) -> Option<Seq<char>> {
    match d {
        HookDecision::Allow => None,
        HookDecision::Block { reason } => Some(reason@),
    }
}

/// A hook: handles some events, and allows or blocks those it handles.
pub trait Hook {
    spec fn spec_handles(&self, event: HookEvent) -> bool;

    spec fn spec_evaluate(&self, event: HookEvent) -> Option<Seq<char>>;

    /// The hook's name.
    spec fn spec_name(&self) -> Seq<char>;

    /// Name for logging.
    fn name(&self) -> (r: &str)
        ensures
            r@ == self.spec_name(),
    ;

    /// Whether this hook handles `event`.
    fn handles(&self, event: &HookEvent) -> (r: bool)
        ensures
            r == self.spec_handles(*event),
    ;

    /// Evaluate an event this hook handles.
    fn evaluate(&self, event: &HookEvent) -> (r: HookDecision)
        ensures
            decision_view(r) == self.spec_evaluate(*event),
    ;
}

/// A hook that blocks the listed tools (names compared ignoring ASCII case).
pub struct ToolBlocklistHook {
    pub blocked_tools: Vec<String>,
}

impl ToolBlocklistHook {
    pub fn new(blocked_tools: Vec<String>) -> (r: Self)
        ensures
            r.blocked_tools@ == blocked_tools@,
    {
        ToolBlocklistHook { blocked_tools }
    }

    pub open spec fn blocks(&self, tool_name: Seq<char>) -> bool {
        exists|i: int| 0 <= i < self.blocked_tools@.len() && eq_ignore_ascii_case(#[trigger] self.blocked_tools@[i]@, tool_name)
    }
}

pub open spec fn blocked_reason(tool_name: Seq<char>) -> Seq<char> {
    "Tool '"@ + tool_name + "' is not allowed. Choose a different approach."@
}

impl Hook for ToolBlocklistHook {
    open spec fn spec_handles(&self, event: HookEvent) -> bool {
        event is PreToolUse
    }

    open spec fn spec_evaluate(&self, event: HookEvent) -> Option<Seq<char>> {
        match event {
            HookEvent::PreToolUse { tool_name, .. } => if self.blocks(tool_name@) {
                Some(blocked_reason(tool_name@))
            } else {
                None
            },
            _ => None,
        }
    }

    open spec fn spec_name(&self) -> Seq<char> {
        "tool_blocklist"@
    }

    fn name(&self) -> &str {
        "tool_blocklist"
    }

    fn handles(&self, event: &HookEvent) -> (r: bool) {
        match event {
            HookEvent::PreToolUse { .. } => true,
            _ => false,
        }
    }

    #[verifier::loop_isolation(false)]
    fn evaluate(&self, event: &HookEvent) -> (r: HookDecision) {
        if let HookEvent::PreToolUse { tool_name, .. } = event {
            let mut i: usize = 0;
            while i < self.blocked_tools.len()
                invariant
                    i <= self.blocked_tools@.len(),
                    forall|k: int| 0 <= k < i ==> !eq_ignore_ascii_case(#[trigger] self.blocked_tools@[k]@, tool_name@),
                decreases self.blocked_tools@.len() - i,
            {
                if str_eq_ignore_ascii_case(self.blocked_tools[i].as_str(), tool_name.as_str()) {
                    assert(eq_ignore_ascii_case(self.blocked_tools@[i as int]@, tool_name@));
                    return HookDecision::Block {
                        reason: cat3("Tool '", tool_name.as_str(), "' is not allowed. Choose a different approach."),
                    };
                }
                i = i + 1;
            }
        }
        HookDecision::Allow
    }
}

/// A collection of hooks, evaluated in order.
pub struct HookRunner {
    pub hooks: Vec<Box<dyn Hook>>,
}

impl HookRunner {
    pub fn new(hooks: Vec<Box<dyn Hook>>) -> (r: Self)
        ensures
            r.hooks@ == hooks@,
    {
        HookRunner { hooks }
    }

    /// No hooks registered.
    pub fn empty() -> (r: Self)
        ensures
            r.hooks@.len() == 0,
    {
        HookRunner { hooks: Vec::new() }
    }

    /// The first block among the hooks that handle `event`, or allow.
    pub fn run(&self, event: &HookEvent) -> (r: HookDecision)
        ensures
            decision_view(r) == run_spec(self.hooks@, *event),
    {
        let mut i: usize = 0;
        assert(self.hooks@.skip(0) =~= self.hooks@);
        while i < self.hooks.len()
            invariant
                i <= self.hooks@.len(),
                run_spec(self.hooks@, *event) == run_spec(self.hooks@.skip(i as int), *event),
            decreases self.hooks@.len() - i,
        {
            proof {
                assert(self.hooks@.skip(i as int).drop_first() =~= self.hooks@.skip(i + 1));
                assert(self.hooks@.skip(i as int)[0] == self.hooks@[i as int]);
            }
            let hook = &self.hooks[i];
            if hook.handles(event) {
                let d = hook.evaluate(event);
                if let HookDecision::Block { .. } = d {
                    return d;
                }
            }
            i = i + 1;
        }
        HookDecision::Allow
    }
}

/// The first block among the handling hooks, in order.
pub open spec fn run_spec(hooks: Seq<Box<dyn Hook>>, event: HookEvent) -> Option<Seq<char>>
    decreases hooks.len(),
{
    if hooks.len() == 0 {
        None
    } else if hooks[0].spec_handles(event) && hooks[0].spec_evaluate(event) is Some {
        hooks[0].spec_evaluate(event)
    } else {
        run_spec(hooks.drop_first(), event)
    }
}

/// Hook combinator that requires both hooks to allow an event.
pub struct AndHook<A, B> {
    pub left: A,
    pub right: B,
}

/// Hook combinator that allows an event if either hook allows it.
pub struct OrHook<A, B> {
    pub left: A,
    pub right: B,
}

/// Outcome of a part of a combinator: its evaluation if it handles the
/// event, `otherwise` if it does not.
pub open spec fn part_outcome<H: Hook>(h: H, event: HookEvent, otherwise: Option<Seq<char>>) -> Option<Seq<char>> {
    if h.spec_handles(event) { h.spec_evaluate(event) } else { otherwise }
}

impl<A: Hook, B: Hook> Hook for AndHook<A, B> {
    open spec fn spec_handles(&self, event: HookEvent) -> bool {
        self.left.spec_handles(event) || self.right.spec_handles(event)
    }

    open spec fn spec_evaluate(&self, event: HookEvent) -> Option<Seq<char>> {
        let l = part_outcome(self.left, event, None);
        if l is Some { l } else { part_outcome(self.right, event, None) }
    }

    open spec fn spec_name(&self) -> Seq<char> {
        "and"@
    }

    fn name(&self) -> &str {
        "and"
    }

    fn handles(&self, event: &HookEvent) -> (r: bool) {
        self.left.handles(event) || self.right.handles(event)
    }

    fn evaluate(&self, event: &HookEvent) -> (r: HookDecision) {
        let left = if self.left.handles(event) {
            self.left.evaluate(event)
        } else {
            HookDecision::Allow
        };
        if let HookDecision::Block { .. } = left {
            return left;
        }
        if self.right.handles(event) {
            self.right.evaluate(event)
        } else {
            HookDecision::Allow
        }
    }
}

pub open spec fn left_unhandled() -> Seq<char> {
    "left hook did not handle event"@
}

pub open spec fn right_unhandled() -> Seq<char> {
    "right hook did not handle event"@
}

impl<A: Hook, B: Hook> Hook for OrHook<A, B> {
    open spec fn spec_handles(&self, event: HookEvent) -> bool {
        self.left.spec_handles(event) || self.right.spec_handles(event)
    }

    open spec fn spec_evaluate(&self, event: HookEvent) -> Option<Seq<char>> {
        let l = part_outcome(self.left, event, Some(left_unhandled()));
        let r = part_outcome(self.right, event, Some(right_unhandled()));
        if l is None || r is None { None } else { l }
    }

    open spec fn spec_name(&self) -> Seq<char> {
        "or"@
    }

    fn name(&self) -> &str {
        "or"
    }

    fn handles(&self, event: &HookEvent) -> (r: bool) {
        self.left.handles(event) || self.right.handles(event)
    }

    fn evaluate(&self, event: &HookEvent) -> (r: HookDecision) {
        let left = if self.left.handles(event) {
            self.left.evaluate(event)
        } else {
            HookDecision::Block { reason: owned("left hook did not handle event") }
        };
        if let HookDecision::Allow = left {
            return HookDecision::Allow;
        }
        let right = if self.right.handles(event) {
            self.right.evaluate(event)
        } else {
            HookDecision::Block { reason: owned("right hook did not handle event") }
        };
        if let HookDecision::Allow = right {
            HookDecision::Allow
        } else {
            left
        }
    }
}

/// Convenience combinators available on every hook.
pub trait HookExt: Hook + Sized + 'static {
    /// Box this hook for a hook runner.
    fn boxed(self) -> Box<dyn Hook> {
        let b: Box<dyn Hook> = Box::new(self);
        b
    }

    /// Require both hooks to allow the event.
    fn and<H: Hook + 'static>(self, other: H) -> (r: AndHook<Self, H>)
        ensures
            r.left == self,
            r.right == other,
    {
        AndHook { left: self, right: other }
    }

    /// Allow the event if either hook allows it.
    fn or<H: Hook + 'static>(self, other: H) -> (r: OrHook<Self, H>)
        ensures
            r.left == self,
            r.right == other,
    {
        OrHook { left: self, right: other }
    }
}

impl<T: Hook + Sized + 'static> HookExt for T {}

/// The pre-complete event with empty text.
pub open spec fn is_empty_pre_complete(e: HookEvent) -> bool {
    e matches HookEvent::PreComplete { assistant_text } && assistant_text@.len() == 0
}

impl HookRunner {
    /// Whether any hook handles the pre-complete event.
    pub fn has_pre_complete_hooks(&self) -> (r: bool)
        ensures
            exists|e: HookEvent| #[trigger] is_empty_pre_complete(e)
                && (r <==> exists|i: int| 0 <= i < self.hooks@.len() && #[trigger] self.hooks@[i].spec_handles(e)),
    {
        let test_event = HookEvent::PreComplete { assistant_text: String::new() };
        let mut i: usize = 0;
        while i < self.hooks.len()
            invariant
                i <= self.hooks@.len(),
                test_event matches HookEvent::PreComplete { assistant_text } && assistant_text@.len() == 0,
                forall|k: int| 0 <= k < i ==> !(#[trigger] self.hooks@[k]).spec_handles(test_event),
            decreases self.hooks@.len() - i,
        {
            if self.hooks[i].handles(&test_event) {
                assert(is_empty_pre_complete(test_event));
                return true;
            }
            i = i + 1;
        }
        assert(is_empty_pre_complete(test_event));
        false
    }
}

// ---------------------------------------------------------------------------
// Laws
// ---------------------------------------------------------------------------

/// An `and` of two hooks blocks exactly when one of them handles the event
/// and blocks it.
pub proof fn lemma_and_blocks_iff_a_part_blocks<A: Hook, B: Hook>(h: AndHook<A, B>, e: HookEvent)
    ensures
        h.spec_evaluate(e) is Some <==> (part_outcome(h.left, e, None) is Some || part_outcome(h.right, e, None) is Some),
{
}

/// An `or` of two hooks allows exactly when one of them handles the event
/// and allows it.
pub proof fn lemma_or_allows_iff_a_part_allows<A: Hook, B: Hook>(h: OrHook<A, B>, e: HookEvent)
    ensures
        h.spec_evaluate(e) is None <==> ((h.left.spec_handles(e) && h.left.spec_evaluate(e) is None)
            || (h.right.spec_handles(e) && h.right.spec_evaluate(e) is None)),
{
}

/// A runner without hooks allows everything.
pub proof fn lemma_empty_runner_allows(e: HookEvent)
    ensures
        run_spec(Seq::empty(), e) is None,
{
}

/// A runner blocks exactly when some hook handles the event and blocks it;
/// the reason is that of the first such hook.
pub proof fn lemma_runner_blocks_iff_some_hook_blocks(hooks: Seq<Box<dyn Hook>>, e: HookEvent)
    ensures
        run_spec(hooks, e) is Some <==> exists|i: int| 0 <= i < hooks.len() && (#[trigger] hooks[i]).spec_handles(e) && hooks[i].spec_evaluate(e) is Some,
    decreases hooks.len(),
{
    if hooks.len() > 0 {
        lemma_runner_blocks_iff_some_hook_blocks(hooks.drop_first(), e);
        if run_spec(hooks, e) is Some && !(hooks[0].spec_handles(e) && hooks[0].spec_evaluate(e) is Some) {
            let i = choose|i: int| 0 <= i < hooks.drop_first().len() && (#[trigger] hooks.drop_first()[i]).spec_handles(e) && hooks.drop_first()[i].spec_evaluate(e) is Some;
            assert(hooks[i + 1] == hooks.drop_first()[i]);
        }
        if exists|i: int| 0 <= i < hooks.len() && (#[trigger] hooks[i]).spec_handles(e) && hooks[i].spec_evaluate(e) is Some {
            let i = choose|i: int| 0 <= i < hooks.len() && (#[trigger] hooks[i]).spec_handles(e) && hooks[i].spec_evaluate(e) is Some;
            if i > 0 {
                assert(hooks.drop_first()[i - 1] == hooks[i]);
            }
        }
    }
}

}
