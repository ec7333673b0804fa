//! MCP servers: their configuration, and the registry entries of their tools.
use vstd::prelude::*;
use crate::text::{cat, cat3, join, join_strings, owned, views};
use crate::tools::registry::ToolSpec;

verus! {

/// How to reach an MCP server.
#[derive(Clone, Debug)]
pub enum McpTransport {
    /// A child process speaking over stdio.
    Stdio { command: String, args: Vec<String> },
    /// An HTTP endpoint, with extra headers as (name, value) pairs.
    Http { url: String, headers: Vec<(String, String)> },
}

/// Configuration of one MCP server.
#[derive(Clone, Debug)]
pub struct McpServerConfig {
    pub name: String,
    pub transport: McpTransport,
    /// Its tools are resident (full schema in the prompt) rather than deferred.
    pub always_load: bool,
}

/// A tool an MCP server offers. The input schema is JSON text.
#[derive(Clone, Debug)]
pub struct McpToolDef {
    pub name: String,
    pub description: String,
    pub input_schema: String,
}

/// The registry name of an MCP tool: `mcp__{server}__{tool}`.
pub open spec fn mcp_tool_name(server: Seq<char>, tool: Seq<char>) -> Seq<char> {
    "mcp__"@ + server + "__"@ + tool
}

/// The registry entry of an MCP tool: namespaced by its server, deferred
/// unless the server is always loaded, and found by the server's name.
pub fn mcp_tool_spec(server_name: &str, tool: &McpToolDef, always_load: bool) -> (r: ToolSpec)
    ensures
        r.name@ == mcp_tool_name(server_name@, tool.name@),
        r.description@ == tool.description@,
        r.input_schema@ == tool.input_schema@,
        r.should_defer == !always_load,
        r.search_hint matches Some(h) && h@ == server_name@,
{
    let name = cat3("mcp__", server_name, cat("__", tool.name.as_str()).as_str());
    assert(name@ =~= mcp_tool_name(server_name@, tool.name@));
    ToolSpec {
        name,
        description: tool.description.clone(),
        input_schema: tool.input_schema.clone(),
        should_defer: !always_load,
        search_hint: Some(owned(server_name)),
    }
}

/// The prompt text of an MCP tool.
pub fn mcp_tool_prompt(server_name: &str, description: &str) -> (r: String)
    ensures
        r@ == "MCP tool from '"@ + server_name@ + "' server. Call this to "@ + description@,
{
    let a = cat3("MCP tool from '", server_name, "' server. Call this to ");
    cat(a.as_str(), description)
}

/// The error result of a failed MCP tool call.
pub fn mcp_failure_message(tool_name: &str, error: &str) -> (r: String)
    ensures
        r@ == "MCP tool '"@ + tool_name@ + "' failed: "@ + error@,
{
    let a = cat3("MCP tool '", tool_name, "' failed: ");
    cat(a.as_str(), error)
}


/// One content block of an MCP tool result, as far as the agent reads it.
#[derive(Clone, Debug)]
pub enum McpContent {
    Text(String),
    /// An image, a resource or another non-text block; it is not returned.
    Other,
}

/// The texts of the text blocks, in order.
pub open spec fn text_parts(blocks: Seq<McpContent>) -> Seq<Seq<char>>
    decreases blocks.len(),
{
    if blocks.len() == 0 {
        Seq::empty()
    } else {
        let rest = text_parts(blocks.drop_last());
        match blocks.last() {
            McpContent::Text(t) => rest.push(t@),
            McpContent::Other => rest,
        }
    }
}

/// What an MCP tool call returns to the agent: the text blocks joined by
/// newlines, or, where the server flagged the result as an error, an error
/// that carries them.
pub fn tool_call_output(tool_name: &str, blocks: &[McpContent], is_error: Option<bool>) -> (r: Result<String, String>)
    ensures
        is_error == Some(true) ==> (r matches Err(e) && e@ == "MCP tool '"@ + tool_name@ + "' signalled an error: "@
            + join(text_parts(blocks@), "\n"@)),
        is_error != Some(true) ==> (r matches Ok(t) && t@ == join(text_parts(blocks@), "\n"@)),
{
    let mut parts: Vec<String> = Vec::new();
    let mut i: usize = 0;
    while i < blocks.len()
        invariant
            i <= blocks@.len(),
            views(parts@) == text_parts(blocks@.take(i as int)),
        decreases blocks@.len() - i,
    {
        assert(blocks@.take(i + 1).drop_last() =~= blocks@.take(i as int));
        match &blocks[i] {
            McpContent::Text(t) => {
                parts.push(owned(t.as_str()));
                assert(views(parts@) =~= text_parts(blocks@.take(i as int)).push(t@));
            },
            McpContent::Other => {},
        }
        i = i + 1;
    }
    assert(blocks@.take(blocks@.len() as int) =~= blocks@);
    let joined = join_strings(parts.as_slice(), "\n");
    if is_error == Some(true) {
        let head = cat3("MCP tool '", tool_name, "' signalled an error: ");
        Err(cat(head.as_str(), joined.as_str()))
    } else {
        Ok(joined)
    }
}

}
