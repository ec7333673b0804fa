//! Permission system: whether a tool may execute.
//!
//! Per-tool rules are checked first (first match wins); otherwise the
//! session-wide mode decides.
use vstd::prelude::*;
use crate::kernel::plan_mode::{is_plan_mode_tool, plan_mode_allows};
use crate::text::{chars_of, ends_with, str_ends_with, str_eq};

verus! {

/// Permission mode for the entire session.
#[derive(Clone, Copy, Debug, PartialEq, Eq, Structural)]
pub enum PermissionMode {
    /// All tools auto-approved.
    Auto,
    /// Tools require explicit user approval.
    Ask,
    /// All tools denied except read-only ones.
    Readonly,
}

impl Default for PermissionMode {
    fn default() -> (r: Self)
        ensures
            r == PermissionMode::Ask,
    {
        PermissionMode::Ask
    }
}

/// The outcome of a permission check.
#[derive(Clone, Copy, Debug, PartialEq, Eq, Structural)]
pub enum PermissionDecision {
    /// Execution allowed without asking.
    Allow,
    /// Pause the run and ask the user.
    Ask,
    /// Execution denied; an error goes back to the model.
    Deny,
}

/// A rule matching a tool name pattern to a decision.
#[derive(Clone, Debug, PartialEq)]
pub struct PermissionRule {
    /// `*` matches all, `Bash` matches exactly, `Bash(*)` matches Bash with any arguments.
    pub tool_pattern: String,
    pub decision: PermissionDecision,
}

/// Evaluates permissions for tool invocations.
pub struct PermissionEvaluator {
    mode: PermissionMode,
    rules: Vec<PermissionRule>,
}

/// Whether `pattern` matches `tool_name`.
pub open spec fn pattern_matches(pattern: Seq<char>, tool_name: Seq<char>) -> bool {
    if pattern == "*"@ {
        true
    } else if ends_with(pattern, "(*)"@) {
        tool_name == pattern.take(pattern.len() - 3)
    } else {
        pattern == tool_name
    }
}

/// The decision of the first rule that matches, if any.
pub open spec fn rule_decision(rules: Seq<PermissionRule>, tool_name: Seq<char>) -> Option<PermissionDecision>
    decreases rules.len(),
{
    if rules.len() == 0 {
        None
    } else if pattern_matches(rules[0].tool_pattern@, tool_name) {
        Some(rules[0].decision)
    } else {
        rule_decision(rules.drop_first(), tool_name)
    }
}

/// The session-wide fallback decision.
pub open spec fn mode_decision(mode: PermissionMode, tool_name: Seq<char>) -> PermissionDecision {
    match mode {
        PermissionMode::Auto => PermissionDecision::Allow,
        PermissionMode::Ask => PermissionDecision::Ask,
        PermissionMode::Readonly => if is_plan_mode_tool(tool_name) {
            PermissionDecision::Allow
        } else {
            PermissionDecision::Deny
        },
    }
}

/// Rules first (first match wins), then the mode.
pub open spec fn spec_check(mode: PermissionMode, rules: Seq<PermissionRule>, tool_name: Seq<char>) -> PermissionDecision {
    match rule_decision(rules, tool_name) {
        Some(d) => d,
        None => mode_decision(mode, tool_name),
    }
}

proof fn lemma_rule_decision_skip(rules: Seq<PermissionRule>, name: Seq<char>, i: int)
    requires
        0 <= i <= rules.len(),
        forall|k: int| 0 <= k < i ==> !pattern_matches(#[trigger] rules[k].tool_pattern@, name),
    ensures
        rule_decision(rules, name) == rule_decision(rules.skip(i), name),
    decreases i,
{
    if i > 0 {
        let t = rules.drop_first();
        assert forall|k: int| 0 <= k < i - 1 implies !pattern_matches(#[trigger] t[k].tool_pattern@, name) by {
            assert(t[k] == rules[k + 1]);
        }
        lemma_rule_decision_skip(t, name, i - 1);
        assert(t.skip(i - 1) =~= rules.skip(i));
    } else {
        assert(rules.skip(0) =~= rules);
    }
}

/// Whether `pattern` matches `tool_name`.
pub fn matches_pattern(pattern: &str, tool_name: &str) -> (r: bool)
    ensures
        r == pattern_matches(pattern@, tool_name@),
{
    if str_eq(pattern, "*") {
        return true;
    }
    if str_ends_with(pattern, "(*)") {
        proof {
            reveal_strlit("(*)");
        }
        let p = chars_of(pattern);
        let t = chars_of(tool_name);
        let k = p.len() - 3;
        if t.len() != k {
            assert(t@.len() != p@.take(k as int).len());
            return false;
        }
        let mut i: usize = 0;
        while i < k
            invariant
                p@ == pattern@,
                t@ == tool_name@,
                pattern@ != "*"@,
                ends_with(pattern@, "(*)"@),
                k == p@.len() - 3,
                t@.len() == k,
                i <= k,
                forall|j: int| 0 <= j < i ==> t@[j] == p@[j],
            decreases k - i,
        {
            if t[i] != p[i] {
                assert(t@[i as int] != p@.take(k as int)[i as int]);
                return false;
            }
            i = i + 1;
        }
        assert(t@ =~= p@.take(k as int));
        return true;
    }
    str_eq(pattern, tool_name)
}

/// Whether the read-only mode allows `name`.
pub fn is_readonly_tool(name: &str) -> (r: bool)
    ensures
        r == is_plan_mode_tool(name@),
{
    plan_mode_allows(name)
}

impl PermissionEvaluator {
    pub closed spec fn spec_mode(&self) -> PermissionMode {
        self.mode
    }

    pub closed spec fn spec_rules(&self) -> Seq<PermissionRule> {
        self.rules@
    }

    pub fn new(mode: PermissionMode, rules: Vec<PermissionRule>) -> (r: Self)
        ensures
            r.spec_mode() == mode,
            r.spec_rules() == rules@,
    {
        PermissionEvaluator { mode, rules }
    }

    /// Auto-approve everything.
    pub fn auto() -> (r: Self)
        ensures
            r.spec_mode() == PermissionMode::Auto,
            r.spec_rules().len() == 0,
    {
        Self::new(PermissionMode::Auto, Vec::new())
    }

    /// Whether a tool may execute. `_input` is the tool input as JSON text;
    /// the decision depends on the tool name only.
    pub fn check(&self, tool_name: &str, _input: &str) -> (r: PermissionDecision)
        ensures
            r == spec_check(self.spec_mode(), self.spec_rules(), tool_name@),
    {
        let mut i: usize = 0;
        while i < self.rules.len()
            invariant
                i <= self.rules@.len(),
                forall|k: int| 0 <= k < i ==> !pattern_matches(#[trigger] self.rules@[k].tool_pattern@, tool_name@),
            decreases self.rules@.len() - i,
        {
            let rule = &self.rules[i];
            if matches_pattern(rule.tool_pattern.as_str(), tool_name) {
                proof {
                    lemma_rule_decision_skip(self.rules@, tool_name@, i as int);
                    assert(self.rules@.skip(i as int)[0] == self.rules@[i as int]);
                }
                return rule.decision;
            }
            i = i + 1;
        }
        proof {
            lemma_rule_decision_skip(self.rules@, tool_name@, i as int);
        }
        match self.mode {
            PermissionMode::Auto => PermissionDecision::Allow,
            PermissionMode::Ask => PermissionDecision::Ask,
            PermissionMode::Readonly => {
                if is_readonly_tool(tool_name) {
                    PermissionDecision::Allow
                } else {
                    PermissionDecision::Deny
                }
            },
        }
    }
}

// ---------------------------------------------------------------------------
// Laws
// ---------------------------------------------------------------------------

/// A matching rule decides regardless of the session mode.
pub proof fn lemma_rule_overrides_mode(m1: PermissionMode, m2: PermissionMode, rules: Seq<PermissionRule>, name: Seq<char>)
    requires
        rule_decision(rules, name) is Some,
    ensures
        spec_check(m1, rules, name) == spec_check(m2, rules, name),
{
}

/// The first matching rule wins over later rules.
pub proof fn lemma_first_match_wins(rules: Seq<PermissionRule>, name: Seq<char>, i: int)
    requires
        0 <= i < rules.len(),
        pattern_matches(rules[i].tool_pattern@, name),
        forall|k: int| 0 <= k < i ==> !pattern_matches(#[trigger] rules[k].tool_pattern@, name),
    ensures
        rule_decision(rules, name) == Some(rules[i].decision),
{
    lemma_rule_decision_skip(rules, name, i);
    assert(rules.skip(i)[0] == rules[i]);
}

/// Auto mode without rules allows every tool.
pub proof fn lemma_auto_allows_all(name: Seq<char>)
    ensures
        spec_check(PermissionMode::Auto, Seq::empty(), name) == PermissionDecision::Allow,
{
}

/// Without a matching rule, read-only mode allows exactly the plan-mode tools.
pub proof fn lemma_readonly_allows_only_plan_tools(rules: Seq<PermissionRule>, name: Seq<char>)
    requires
        rule_decision(rules, name) is None,
    ensures
        spec_check(PermissionMode::Readonly, rules, name) == PermissionDecision::Allow <==> is_plan_mode_tool(name),
        spec_check(PermissionMode::Readonly, rules, name) != PermissionDecision::Ask,
{
}

/// A `*` rule matches every tool.
pub proof fn lemma_wildcard_matches_all(name: Seq<char>)
    ensures
        pattern_matches("*"@, name),
{
}

/// A `Name(*)` rule is about the tool `Name` with any arguments: it
/// matches the tool `Name` and no other tool.
pub proof fn lemma_call_pattern_matches_its_tool(name: Seq<char>, other: Seq<char>)
    ensures
        pattern_matches(name + "(*)"@, name),
        pattern_matches(name + "(*)"@, other) <==> other == name,
{
    reveal_strlit("(*)");
    reveal_strlit("*");
    let p = name + "(*)"@;
    assert(p.len() == name.len() + 3);
    assert(p != "*"@) by {
        if p == "*"@ {
            assert(p.len() == 1);
        }
    }
    assert(p.skip(p.len() - 3) =~= "(*)"@);
    assert(p.take(p.len() - 3) =~= name);
}

/// A pattern that is neither `*` nor of the form `Name(*)` matches exactly
/// the tool of that name.
pub proof fn lemma_plain_pattern_matches_only_itself(pattern: Seq<char>, name: Seq<char>)
    requires
        pattern != "*"@,
        !ends_with(pattern, "(*)"@),
    ensures
        pattern_matches(pattern, name) <==> pattern == name,
{
}

/// A `Name(*)` rule decides for the tool `Name` in every session mode when
/// no earlier rule matches it: the decision is the rule's.
pub proof fn lemma_call_rule_decides(mode: PermissionMode, rules: Seq<PermissionRule>, name: Seq<char>, i: int)
    requires
        0 <= i < rules.len(),
        rules[i].tool_pattern@ == name + "(*)"@,
        forall|k: int| 0 <= k < i ==> !pattern_matches(#[trigger] rules[k].tool_pattern@, name),
    ensures
        spec_check(mode, rules, name) == rules[i].decision,
{
    lemma_call_pattern_matches_its_tool(name, name);
    lemma_first_match_wins(rules, name, i);
}

/// With no matching rule, the session mode decides: auto allows, ask
/// asks, read-only allows the plan-mode tools and denies the rest.
pub proof fn lemma_mode_decides_without_rule(rules: Seq<PermissionRule>, name: Seq<char>)
    requires
        rule_decision(rules, name) is None,
    ensures
        spec_check(PermissionMode::Auto, rules, name) == PermissionDecision::Allow,
        spec_check(PermissionMode::Ask, rules, name) == PermissionDecision::Ask,
        spec_check(PermissionMode::Readonly, rules, name)
            == (if is_plan_mode_tool(name) { PermissionDecision::Allow } else { PermissionDecision::Deny }),
{
}

}
