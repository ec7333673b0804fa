//! What the adapters to the outside world decide: stream framing, provider
//! selection, MCP server configuration and MCP tool entries.
pub mod mcp;
pub mod providers;
pub mod sse;
