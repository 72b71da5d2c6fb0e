//! Upstream multiplexing: message types, errors and the subscription registry.

pub mod assoc;
pub mod client;
pub mod error;
pub mod json;
pub mod registry_laws;
pub mod types;
