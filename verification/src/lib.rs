//! The mesh node's logic: framing, link bonding, path selection, routing tables and the plans
//! that the daemon carries out. Sockets, tunnels, cryptographic sessions and processes stay
//! outside; this crate decides what they should do.

pub mod anytls;
pub mod assoc;
pub mod bond;
pub mod clock;
pub mod codec;
pub mod digest;
pub mod error;
pub mod health;
pub mod ipv4;
pub mod json;
pub mod mesh;
pub mod net;
pub mod node;
pub mod parse;
pub mod random;
pub mod tcp_bond;
pub mod text;
pub mod transport;
pub mod wire;
pub mod words;

