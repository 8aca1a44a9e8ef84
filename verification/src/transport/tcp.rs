//! A stream transport: framed packets over one connection.

use crate::error::Error;
use crate::transport::base::version_of;
use vstd::prelude::*;

verus! {

/// Seconds of silence after which a connection is probed.
pub const KEEPALIVE_SECS: u64 = 20;

/// Seconds between probes.
pub const KEEPALIVE_INTERVAL_SECS: u64 = 5;

/// The versions of the stream transport.
pub fn version() -> (v: Vec<(String, String)>)
    ensures
        crate::transport::base::named(v@) == crate::transport::base::versions_of(
            "fp-transport-tcp"@,
        ),
{
    version_of("fp-transport-tcp")
}

/// What comes of waiting for the next packet of a stream, where the stream may have ended.
pub fn received(next: Option<Result<Vec<u8>, Error>>) -> (r: Result<Vec<u8>, Error>)
    ensures
        next matches Some(p) ==> r == p,
        next is None ==> (r matches Err(e) && e.is_unexpected("stream closed"@)),
{
    match next {
        Some(p) => p,
        None => Err(Error::unexpected("stream closed")),
    }
}

/// A silent connection is probed after twenty seconds, every five.
pub proof fn silent_connections_are_probed()
    ensures
        KEEPALIVE_SECS == 20,
        KEEPALIVE_INTERVAL_SECS == 5,
{
}

} // verus!
