//! Tool catalogue: which tools the model sees and how it discovers the rest.
pub mod registry;
pub mod builtin;
