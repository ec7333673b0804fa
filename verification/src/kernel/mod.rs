//! The execution kernel: turn control flow, recovery, permissions,
//! context pressure and compression, hooks and plan mode.
pub mod collapse;
pub mod context;
pub mod error_recovery;
pub mod event_bus;
pub mod hooks;
pub mod permission;
pub mod plan_mode;
pub mod turn;
