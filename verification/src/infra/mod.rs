//! Observability and storage conventions.
pub mod metrics;
pub mod store;
