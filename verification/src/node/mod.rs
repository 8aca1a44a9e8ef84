//! What a node does around its data plane: settings, the control server, joining networks, the
//! host's routes, names and filters, and its status.

pub mod control;
pub mod relay;
pub mod host;
pub mod route;
pub mod sorted;
pub mod dns;
pub mod firewall;
pub mod gateway;
pub mod plan;
pub mod statusd;
pub mod show;
pub mod join;
pub mod daemon;
