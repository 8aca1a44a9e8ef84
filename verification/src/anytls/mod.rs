//! The bonded TLS transport.

pub mod config;
pub mod bond;
pub mod pool;
