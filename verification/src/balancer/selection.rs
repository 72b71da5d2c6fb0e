//! The node-selection policy.

pub mod select;
