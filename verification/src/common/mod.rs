//! Domain vocabulary shared by every part of the agent.
pub mod checkpoint;
pub mod ids;
pub mod json;
pub mod message;
pub mod xml;
