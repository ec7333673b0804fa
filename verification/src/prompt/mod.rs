//! System prompt assembly: sections, the cache boundary between the static
//! and dynamic zones, memoization of static sections, instructions and rules.
pub mod cache;
pub mod cache_boundary;
pub mod instructions;
pub mod rules;
pub mod builder;
