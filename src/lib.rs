//! Session engine of a reverse-tunnel relay: hostname routing, per-endpoint
//! connection pools, the endpoint registry, and the decisions taken while
//! forwarding requests and bridging CONNECT traffic.

pub mod error;
pub mod router;
pub mod pool;
pub mod registry;
pub mod forward;
pub mod bridge;
pub mod info;
