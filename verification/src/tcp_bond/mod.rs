//! The bonded TCP transport.

pub mod config;
pub mod bond;
