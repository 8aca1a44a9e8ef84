//! The data plane: per-peer sessions and paths, and the routing of packets to the workers that own
//! the peers.

pub mod index;
pub mod disco;
pub mod peer;
pub mod status;
pub mod order;
pub mod tick;
pub mod session;
pub mod route;
pub mod gso;
pub mod worker;
pub mod events;
pub mod reconcile;
pub mod stream;
pub mod recv;
