//! Sub-agents: forking a conversation, isolating a sub-agent's tools and
//! depth, and reporting what it did.
pub mod fork;
pub mod isolation;
pub mod spawn;

use vstd::prelude::*;
use crate::text::owned;

verus! {

/// What a kind of sub-agent may do.
#[derive(Clone, Debug)]
pub struct AgentDef {
    pub name: String,
    pub description: String,
    /// `"inherit"` or empty: the parent's model.
    pub model: String,
    /// Iteration limit of the sub-agent's loop.
    pub max_turns: u32,
    /// Allowed tool names; `"*"` allows every tool.
    pub tools: Vec<String>,
    /// Tool names never allowed, whatever `tools` says.
    pub disallowed_tools: Vec<String>,
}

impl AgentDef {
    /// The general-purpose sub-agent: every tool, the parent's model.
    pub fn general() -> (r: Self)
        ensures
            r.name@ == "general"@,
            r.model@ == "inherit"@,
            r.tools@.len() == 1 && r.tools@[0]@ == "*"@,
            r.disallowed_tools@.len() == 0,
            r.max_turns == 50,
    {
        let mut tools: Vec<String> = Vec::new();
        tools.push(owned("*"));
        AgentDef {
            name: owned("general"),
            description: owned("General-purpose agent for multi-step tasks"),
            model: owned("inherit"),
            max_turns: 50,
            tools,
            disallowed_tools: Vec::new(),
        }
    }
}

}
