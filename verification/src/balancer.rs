//! Choosing the upstream node for the next request.

pub mod selection;
