//! What the transports have in common, and what a stream and a datagram transport decide.

pub mod base;
pub mod tcp;
pub mod udp;
