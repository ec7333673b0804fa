//! Plan mode: exploration before execution, with read-only tools only.
use vstd::prelude::*;
use crate::common::xml::{plan_feedback, spec_wrap};
use crate::text::{eq_ignore_ascii_case, str_eq_ignore_ascii_case};
use crate::kernel::turn::RunMode;
use crate::tools::registry::{ToolDefinition, ToolRegistry, ToolSpec, defines};

verus! {

/// The read-only tools allowed in plan mode (compared ignoring ASCII case).
pub open spec fn is_plan_mode_tool(name: Seq<char>) -> bool {
    ||| eq_ignore_ascii_case("WebSearch"@, name)
    ||| eq_ignore_ascii_case("WebFetch"@, name)
    ||| eq_ignore_ascii_case("DbQuery"@, name)
    ||| eq_ignore_ascii_case("ToolSearch"@, name)
    ||| eq_ignore_ascii_case("EnterPlanMode"@, name)
    ||| eq_ignore_ascii_case("ExitPlanMode"@, name)
}

/// Whether `name` is one of the plan-mode (read-only) tools.
pub fn plan_mode_allows(name: &str) -> (r: bool)
    ensures
        r == is_plan_mode_tool(name@),
{
    str_eq_ignore_ascii_case("WebSearch", name) || str_eq_ignore_ascii_case("WebFetch", name)
        || str_eq_ignore_ascii_case("DbQuery", name) || str_eq_ignore_ascii_case("ToolSearch", name)
        || str_eq_ignore_ascii_case("EnterPlanMode", name) || str_eq_ignore_ascii_case(
        "ExitPlanMode",
        name,
    )
}

/// The user's response to a plan review.
#[derive(Clone, Debug, PartialEq, Eq)]
pub enum PlanReviewResponse {
    /// Approve the plan: exit plan mode and execute.
    Approve,
    /// Request modifications: stay in plan mode and revise.
    Modify { feedback: String },
    /// Reject the plan: end the run.
    Reject,
}

/// User feedback on a plan, wrapped in `<plan-feedback>` tags.
pub fn format_plan_feedback(feedback: &str) -> (r: String)
    ensures
        r@ == spec_wrap("plan-feedback"@, feedback@),
{
    plan_feedback(feedback)
}

/// System message injected when entering plan mode.
pub fn plan_mode_entered_message() -> (r: &'static str)
    ensures
        r@ == "You are now in PLAN MODE. Your tools are restricted to read-only operations. Explore the problem, gather information, and design your approach. When your plan is ready, call ExitPlanMode to submit it for review."@,
{
    "You are now in PLAN MODE. Your tools are restricted to read-only operations. Explore the problem, gather information, and design your approach. When your plan is ready, call ExitPlanMode to submit it for review."
}


/// The resident tools a run mode may use.
pub open spec fn mode_tools(resident: Seq<ToolSpec>, mode: RunMode) -> Seq<ToolSpec> {
    if mode == RunMode::Planning {
        resident.filter(|t: ToolSpec| is_plan_mode_tool(t.name@))
    } else {
        resident
    }
}

/// The tool definitions offered to the model in a run mode: every resident
/// tool, or in planning only the read-only ones.
pub fn tools_for_mode(registry: &ToolRegistry, mode: RunMode) -> (r: Vec<ToolDefinition>)
    ensures
        r@.len() == mode_tools(registry.spec_resident(), mode).len(),
        forall|i: int| 0 <= i < r@.len() ==> defines(#[trigger] r@[i], mode_tools(registry.spec_resident(), mode)[i]),
{
    let all = registry.api_tool_definitions();
    if mode != RunMode::Planning {
        return all;
    }
    let ghost res = registry.spec_resident();
    let ghost f = |t: ToolSpec| is_plan_mode_tool(t.name@);
    let mut r: Vec<ToolDefinition> = Vec::new();
    let mut i: usize = 0;
    while i < all.len()
        invariant
            i <= all@.len(),
            all@.len() == res.len(),
            forall|k: int| 0 <= k < all@.len() ==> defines(#[trigger] all@[k], res[k]),
            f == (|t: ToolSpec| is_plan_mode_tool(t.name@)),
            r@.len() == res.take(i as int).filter(f).len(),
            forall|k: int| 0 <= k < r@.len() ==> defines(#[trigger] r@[k], res.take(i as int).filter(f)[k]),
        decreases all@.len() - i,
    {
        proof {
            assert(res.take(i + 1).drop_last() =~= res.take(i as int));
            reveal_with_fuel(Seq::filter, 1);
            assert(defines(all@[i as int], res[i as int]));
        }
        if plan_mode_allows(all[i].name.as_str()) {
            r.push(ToolDefinition {
                name: all[i].name.clone(),
                description: all[i].description.clone(),
                input_schema: all[i].input_schema.clone(),
            });
        }
        i = i + 1;
    }
    assert(res.take(res.len() as int) =~= res);
    r
}

/// In planning, the model is offered exactly the resident read-only tools:
/// every tool offered is read-only, and every resident read-only tool is
/// offered.
pub proof fn lemma_planning_offers_exactly_readonly(resident: Seq<ToolSpec>)
    ensures
        forall|i: int| 0 <= i < mode_tools(resident, RunMode::Planning).len()
            ==> is_plan_mode_tool((#[trigger] mode_tools(resident, RunMode::Planning)[i]).name@),
        forall|i: int| 0 <= i < resident.len() && is_plan_mode_tool(resident[i].name@)
            ==> mode_tools(resident, RunMode::Planning).contains(#[trigger] resident[i]),
        mode_tools(resident, RunMode::Execute) == resident,
{
    broadcast use vstd::seq_lib::group_filter_ensures;
}

}
