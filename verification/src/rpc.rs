//! Upstream nodes and their health.

pub mod types;
