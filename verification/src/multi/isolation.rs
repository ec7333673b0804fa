//! Sub-agent isolation: a depth limit, the model, and the tools a sub-agent
//! may use.
use vstd::prelude::*;
use crate::kernel::turn::{QueryChain, RunMode};
use crate::multi::AgentDef;
use crate::text::{eq_ignore_ascii_case, owned, str_eq, str_eq_ignore_ascii_case, views};
use crate::tools::registry::{ToolRegistry, ToolSpec};

verus! {

/// What a sub-agent's loop configuration changes from its parent's; the rest
/// (provider, prompt, limits, permissions, metrics) is inherited.
pub struct SubAgentConfig {
    /// The sub-agent's tools; `None`: the parent's registry as is.
    pub tool_registry: Option<ToolRegistry>,
    pub model: String,
    pub max_iterations: u32,
    pub run_mode: RunMode,
    pub chain: QueryChain,
}

/// Whether `def` allows every tool.
pub open spec fn allows_all(def: AgentDef) -> bool {
    exists|i: int| 0 <= i < def.tools@.len() && (#[trigger] def.tools@[i])@ == "*"@
}

/// `name` is one of `names`, ignoring ASCII case.
pub open spec fn named(names: Seq<Seq<char>>, name: Seq<char>) -> bool {
    exists|i: int| 0 <= i < names.len() && eq_ignore_ascii_case(#[trigger] names[i], name)
}

/// Whether a sub-agent of kind `def` keeps the tool.
pub open spec fn keeps(def: AgentDef, t: ToolSpec) -> bool {
    !named(views(def.disallowed_tools@), t.name@) && (allows_all(def) || named(views(def.tools@), t.name@))
}

/// The tools a sub-agent keeps, in the parent's order (resident first).
pub open spec fn kept_tools(parent: Seq<ToolSpec>, def: AgentDef) -> Seq<ToolSpec> {
    parent.filter(|t: ToolSpec| keeps(def, t))
}

fn is_named(names: &[String], name: &str) -> (r: bool)
    ensures
        r == named(views(names@), name@),
{
    let mut i: usize = 0;
    while i < names.len()
        invariant
            i <= names@.len(),
            forall|k: int| 0 <= k < i ==> !eq_ignore_ascii_case(#[trigger] views(names@)[k], name@),
        decreases names@.len() - i,
    {
        if str_eq_ignore_ascii_case(names[i].as_str(), name) {
            assert(eq_ignore_ascii_case(views(names@)[i as int], name@));
            return true;
        }
        i = i + 1;
    }
    false
}

fn allows_all_tools(def: &AgentDef) -> (r: bool)
    ensures
        r == allows_all(*def),
{
    let mut i: usize = 0;
    while i < def.tools.len()
        invariant
            i <= def.tools@.len(),
            forall|k: int| 0 <= k < i ==> (#[trigger] def.tools@[k])@ != "*"@,
        decreases def.tools@.len() - i,
    {
        if str_eq(def.tools[i].as_str(), "*") {
            return true;
        }
        i = i + 1;
    }
    false
}

/// The registry a sub-agent uses: the parent's when every tool is allowed
/// and none is disallowed (`None`), else a registry of the kept tools.
pub fn resolve_tool_registry(parent: &ToolRegistry, def: &AgentDef) -> (r: Option<ToolRegistry>)
    ensures
        allows_all(*def) && def.disallowed_tools@.len() == 0 ==> r is None,
        !(allows_all(*def) && def.disallowed_tools@.len() == 0) ==> (r matches Some(reg)
            && reg.spec_tools() == kept_tools(parent.spec_resident() + parent.spec_deferred(), *def)),
{
    let allow_all = allows_all_tools(def);
    if allow_all && def.disallowed_tools.len() == 0 {
        return None;
    }
    let all = parent.all_tools();
    let ghost f = |t: ToolSpec| keeps(*def, t);
    let mut kept: Vec<ToolSpec> = Vec::new();
    let mut i: usize = 0;
    while i < all.len()
        invariant
            i <= all@.len(),
            allow_all == allows_all(*def),
            f == (|t: ToolSpec| keeps(*def, t)),
            kept@ == all@.take(i as int).filter(f),
        decreases all@.len() - i,
    {
        proof {
            assert(all@.take(i + 1).drop_last() =~= all@.take(i as int));
            reveal_with_fuel(Seq::filter, 1);
        }
        let t = &all[i];
        let keep = !is_named(def.disallowed_tools.as_slice(), t.name.as_str())
            && (allow_all || is_named(def.tools.as_slice(), t.name.as_str()));
        if keep {
            kept.push(t.duplicate());
        }
        i = i + 1;
    }
    assert(all@.take(all@.len() as int) =~= all@);
    Some(ToolRegistry::new(kept))
}

/// The model a sub-agent uses.
pub open spec fn sub_model(parent_model: Seq<char>, def: AgentDef) -> Seq<char> {
    if def.model@ == "inherit"@ || def.model@.len() == 0 { parent_model } else { def.model@ }
}

/// Build the configuration of a sub-agent of kind `def`; `None` when the
/// parent is already at the maximum nesting depth.
pub fn build_sub_agent_config(
    parent_chain: &QueryChain,
    parent_model: &str,
    parent_tools: &ToolRegistry,
    def: &AgentDef,
) -> (r: Option<SubAgentConfig>)
    ensures
        parent_chain.depth >= parent_chain.max_depth ==> r is None,
        parent_chain.depth < parent_chain.max_depth ==> (r matches Some(c)
            && c.chain.chain_id@ == parent_chain.chain_id@
            && c.chain.depth == parent_chain.depth + 1
            && c.chain.max_depth == parent_chain.max_depth
            && c.model@ == sub_model(parent_model@, *def)
            && c.max_iterations == def.max_turns
            && c.run_mode == RunMode::Execute
            && (allows_all(*def) && def.disallowed_tools@.len() == 0 ==> c.tool_registry is None)
            && (!(allows_all(*def) && def.disallowed_tools@.len() == 0) ==> (c.tool_registry matches Some(reg)
                && reg.spec_tools() == kept_tools(parent_tools.spec_resident() + parent_tools.spec_deferred(), *def)))),
{
    if parent_chain.depth >= parent_chain.max_depth {
        return None;
    }
    let tool_registry = resolve_tool_registry(parent_tools, def);
    let model = if str_eq(def.model.as_str(), "inherit") || def.model.as_str().is_empty() {
        owned(parent_model)
    } else {
        def.model.clone()
    };
    Some(SubAgentConfig {
        tool_registry,
        model,
        max_iterations: def.max_turns,
        run_mode: RunMode::Execute,
        chain: parent_chain.child(),
    })
}

}
