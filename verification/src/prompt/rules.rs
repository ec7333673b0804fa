//! Behavioral rules: always-on rules in the static prompt, conditional ones
//! injected when a tool or topic makes them relevant.
use vstd::prelude::*;
use crate::common::xml::{spec_wrap, system_reminder};
use crate::text::{
    cat, contains, eq_ignore_ascii_case, join, join_strings, spec_to_lowercase, str_contains,
    str_eq_ignore_ascii_case, to_lowercase, views,
};

verus! {

/// A rule with optional activation conditions.
#[derive(Clone, Debug)]
pub struct Rule {
    pub name: String,
    pub content: String,
    /// `None`: always active.
    pub condition: Option<RuleCondition>,
}

/// When a conditional rule becomes active.
#[derive(Clone, Debug)]
pub enum RuleCondition {
    /// One of these tools is active (names compared ignoring ASCII case).
    ToolMatch { tool_names: Vec<String> },
    /// The user message mentions one of these keywords (ignoring case).
    TopicMatch { keywords: Vec<String> },
}

/// Whether a rule applies to a turn with these tools and this message.
pub open spec fn activates(rule: Rule, active: Seq<Seq<char>>, message: Seq<char>) -> bool {
    match rule.condition {
        None => true,
        Some(RuleCondition::ToolMatch { tool_names }) => exists|i: int, j: int|
            0 <= i < tool_names@.len() && 0 <= j < active.len()
                && #[trigger] eq_ignore_ascii_case(active[j], #[trigger] tool_names@[i]@),
        Some(RuleCondition::TopicMatch { keywords }) => exists|i: int|
            0 <= i < keywords@.len()
                && contains(spec_to_lowercase(message), spec_to_lowercase(#[trigger] keywords@[i]@)),
    }
}

/// The contents of the rules that apply, in order.
pub open spec fn active_contents(rules: Seq<Rule>, active: Seq<Seq<char>>, message: Seq<char>) -> Seq<Seq<char>>
    decreases rules.len(),
{
    if rules.len() == 0 {
        Seq::empty()
    } else {
        let rest = active_contents(rules.drop_last(), active, message);
        if activates(rules.last(), active, message) { rest.push(rules.last().content@) } else { rest }
    }
}

/// The views of a list of string slices.
pub open spec fn str_views(v: Seq<&str>) -> Seq<Seq<char>> {
    v.map_values(|s: &str| s@)
}

/// Whether a rule should activate given the active tools and user message.
#[verifier::loop_isolation(false)]
pub fn should_activate(rule: &Rule, active_tool_names: &[&str], user_message: &str) -> (r: bool)
    ensures
        r == activates(*rule, str_views(active_tool_names@), user_message@),
{
    match &rule.condition {
        None => true,
        Some(RuleCondition::ToolMatch { tool_names }) => {
            let ghost active = str_views(active_tool_names@);
            let mut i: usize = 0;
            while i < tool_names.len()
                invariant
                    i <= tool_names@.len(),
                    active == str_views(active_tool_names@),
                    forall|a: int, b: int| 0 <= a < i && 0 <= b < active.len()
                        ==> !(#[trigger] eq_ignore_ascii_case(active[b], #[trigger] tool_names@[a]@)),
                decreases tool_names@.len() - i,
            {
                let mut j: usize = 0;
                while j < active_tool_names.len()
                    invariant
                        i < tool_names@.len(),
                        j <= active_tool_names@.len(),
                        active == str_views(active_tool_names@),
                        forall|a: int, b: int| 0 <= a < i && 0 <= b < active.len()
                            ==> !(#[trigger] eq_ignore_ascii_case(active[b], #[trigger] tool_names@[a]@)),
                        forall|b: int| 0 <= b < j ==> !(#[trigger] eq_ignore_ascii_case(active[b], tool_names@[i as int]@)),
                    decreases active_tool_names@.len() - j,
                {
                    if str_eq_ignore_ascii_case(active_tool_names[j], tool_names[i].as_str()) {
                        assert(eq_ignore_ascii_case(active[j as int], tool_names@[i as int]@));
                        return true;
                    }
                    j = j + 1;
                }
                i = i + 1;
            }
            false
        },
        Some(RuleCondition::TopicMatch { keywords }) => {
            let message_lower = to_lowercase(user_message);
            let mut i: usize = 0;
            while i < keywords.len()
                invariant
                    i <= keywords@.len(),
                    message_lower@ == spec_to_lowercase(user_message@),
                    forall|a: int| 0 <= a < i
                        ==> !contains(spec_to_lowercase(user_message@), spec_to_lowercase(#[trigger] keywords@[a]@)),
                decreases keywords@.len() - i,
            {
                let kw = to_lowercase(keywords[i].as_str());
                if str_contains(message_lower.as_str(), kw.as_str()) {
                    return true;
                }
                i = i + 1;
            }
            false
        },
    }
}

/// The contents of the rules that apply to this turn, in order.
pub fn evaluate_rules(rules: &[Rule], active_tool_names: &[&str], user_message: &str) -> (r: Vec<String>)
    ensures
        views(r@) == active_contents(rules@, str_views(active_tool_names@), user_message@),
{
    let mut r: Vec<String> = Vec::new();
    let mut i: usize = 0;
    while i < rules.len()
        invariant
            i <= rules@.len(),
            views(r@) == active_contents(rules@.take(i as int), str_views(active_tool_names@), user_message@),
        decreases rules@.len() - i,
    {
        assert(rules@.take(i + 1).drop_last() =~= rules@.take(i as int));
        let ghost before = r@;
        if should_activate(&rules[i], active_tool_names, user_message) {
            r.push(rules[i].content.clone());
            assert(views(r@) =~= views(before).push(rules@[i as int].content@));
        }
        i = i + 1;
    }
    assert(rules@.take(rules@.len() as int) =~= rules@);
    r
}

/// The reminder listing the conditional rules active this turn.
pub fn format_conditional_rules(rules: &[String]) -> (r: Option<String>)
    ensures
        rules@.len() == 0 ==> r is None,
        rules@.len() > 0 ==> (r matches Some(s)
            && s@ == spec_wrap("system-reminder"@, "Active rules for this turn:\n\n"@ + join(views(rules@), "\n\n"@))),
{
    if rules.len() == 0 {
        return None;
    }
    let joined = join_strings(rules, "\n\n");
    let content = cat("Active rules for this turn:\n\n", joined.as_str());
    Some(system_reminder(content.as_str()))
}

/// The rules behind a list of references.
pub open spec fn derefs(s: Seq<&Rule>) -> Seq<Rule> {
    s.map_values(|x: &Rule| *x)
}

/// Split rules into the always-on ones and the conditional ones, each in order.
pub fn partition_rules(rules: &[Rule]) -> (r: (Vec<&Rule>, Vec<&Rule>))
    ensures
        derefs(r.0@) == rules@.filter(|x: Rule| x.condition is None),
        derefs(r.1@) == rules@.filter(|x: Rule| x.condition is Some),
{
    let ghost fu = |x: Rule| x.condition is None;
    let ghost fc = |x: Rule| x.condition is Some;
    let mut unconditional: Vec<&Rule> = Vec::new();
    let mut conditional: Vec<&Rule> = Vec::new();
    let mut i: usize = 0;
    while i < rules.len()
        invariant
            i <= rules@.len(),
            fu == (|x: Rule| x.condition is None),
            fc == (|x: Rule| x.condition is Some),
            derefs(unconditional@) == rules@.take(i as int).filter(fu),
            derefs(conditional@) == rules@.take(i as int).filter(fc),
        decreases rules@.len() - i,
    {
        proof {
            assert(rules@.take(i + 1).drop_last() =~= rules@.take(i as int));
            reveal_with_fuel(Seq::filter, 1);
        }
        let rule = &rules[i];
        let ghost u0 = unconditional@;
        let ghost c0 = conditional@;
        if rule.condition.is_none() {
            unconditional.push(rule);
            assert(derefs(unconditional@) =~= derefs(u0).push(*rule));
        } else {
            conditional.push(rule);
            assert(derefs(conditional@) =~= derefs(c0).push(*rule));
        }
        i = i + 1;
    }
    assert(rules@.take(rules@.len() as int) =~= rules@);
    (unconditional, conditional)
}

/// The contents of a list of rules.
pub open spec fn rule_contents(rules: Seq<&Rule>) -> Seq<Seq<char>> {
    rules.map_values(|x: &Rule| x.content@)
}

/// The always-on rules section of the prompt.
pub fn format_unconditional_rules(rules: &[&Rule]) -> (r: Option<String>)
    ensures
        rules@.len() == 0 ==> r is None,
        rules@.len() > 0 ==> (r matches Some(s) && s@ == "# Rules\n\n"@ + join(rule_contents(rules@), "\n\n"@)),
{
    if rules.len() == 0 {
        return None;
    }
    let mut contents: Vec<String> = Vec::new();
    let mut i: usize = 0;
    while i < rules.len()
        invariant
            i <= rules@.len(),
            views(contents@) == rule_contents(rules@.take(i as int)),
        decreases rules@.len() - i,
    {
        let ghost before = contents@;
        contents.push(rules[i].content.clone());
        assert(views(contents@) =~= views(before).push(rules@[i as int].content@));
        assert(rules@.take(i + 1) =~= rules@.take(i as int).push(rules@[i as int]));
        i = i + 1;
        assert(views(contents@) =~= rule_contents(rules@.take(i as int)));
    }
    assert(rules@.take(rules@.len() as int) =~= rules@);
    let joined = join_strings(contents.as_slice(), "\n\n");
    Some(cat("# Rules\n\n", joined.as_str()))
}

}
