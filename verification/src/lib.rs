//! The decision logic of an AI agent runtime: error recovery, permissions,
//! context compression, prompt assembly, memory policy, tool discovery and
//! sub-agent isolation, each stated and proved.
pub mod common;
pub mod text;
pub mod ranking;
pub mod kernel;
pub mod infra;
pub mod tools;
pub mod run;
pub mod prompt;
pub mod skill;
pub mod memory;
pub mod multi;
pub mod adapters;
pub mod config;
