//! A JSON-RPC load balancer core: the registry of upstream nodes and the
//! policy that picks one, the correlator that rewrites request ids, and the
//! registry that fans subscription notifications out to downstream users.

pub mod balancer;
pub mod rpc;
pub mod websocket;
