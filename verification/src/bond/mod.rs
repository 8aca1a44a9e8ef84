//! What the bonded transports have in common: framing, the bond header, links and the rules for
//! joining and replacing connections.

pub mod frame;
pub mod header;
pub mod link;
pub mod join;
pub mod keeper;
pub mod conn;
