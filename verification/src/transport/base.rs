//! What the transports have in common.

use crate::error::Error;
use crate::net::IpAddr;
use std::time::Duration;
use vstd::prelude::*;
use vstd::string::StringExecFns;

verus! {

/// The version of the transports.
pub const VERSION: &'static str = "0.1.0";

/// What a transport is told.
#[derive(Debug)]
pub enum Event {
    Send(Vec<u8>),
    Close,
}

/// Where a transport listens or connects.
#[derive(Debug)]
pub struct Config {
    pub endpoint: IpAddr,
    pub port: u16,
    pub timeout: Duration,
    pub tls: Option<String>,
}

/// The sending end of a transport.
pub trait TransportSender {
    /// Sends a packet.
    fn send(&mut self, pkt: Vec<u8>) -> Result<(), Error>;

    /// Closes the end.
    fn close(&mut self);
}

/// The receiving end of a transport.
pub trait TransportReceiver {
    /// Receives a packet.
    fn recv(&mut self) -> Result<Vec<u8>, Error>;

    /// Closes the end.
    fn close(&mut self);
}

/// Some names with their versions, as values.
pub open spec fn named(v: Seq<(String, String)>) -> Seq<(Seq<char>, Seq<char>)> {
    v.map_values(|e: (String, String)| (e.0@, e.1@))
}

/// The version of what the transports have in common.
pub fn version() -> (v: Vec<(String, String)>)
    ensures
        named(v@) == seq![("fp-transport"@, VERSION@)],
{
    let mut v: Vec<(String, String)> = Vec::new();
    v.push((String::from_str("fp-transport"), String::from_str(VERSION)));
    assert(named(v@) =~= seq![("fp-transport"@, VERSION@)]);
    v
}

/// The versions of a transport: those of what it has in common with others behind its own name and
/// a colon, then its own.
pub open spec fn versions_of(name: Seq<char>) -> Seq<(Seq<char>, Seq<char>)> {
    seq![(name + ":"@ + "fp-transport"@, VERSION@), (name, VERSION@)]
}

/// The versions of a transport.
pub fn version_of(name: &str) -> (v: Vec<(String, String)>)
    ensures
        named(v@) == versions_of(name@),
{
    let common = version();
    let mut v: Vec<(String, String)> = Vec::new();
    let mut i: usize = 0;
    while i < common.len()
        invariant
            i <= common@.len(),
            named(common@) == seq![("fp-transport"@, VERSION@)],
            v@.len() == i,
            i == 1 ==> named(v@) == seq![(name@ + ":"@ + "fp-transport"@, VERSION@)],
        decreases common@.len() - i,
    {
        let mut k = String::from_str(name);
        k.append(":");
        k.append(common[i].0.as_str());
        assert(named(common@)[i as int] == (common@[i as int].0@, common@[i as int].1@));
        assert(named(common@).len() == 1);
        v.push((k, common[i].1.clone()));
        assert(named(v@) =~= seq![(name@ + ":"@ + "fp-transport"@, VERSION@)]);
        i += 1;
    }
    assert(named(common@).len() == 1);
    let ghost before = v@;
    v.push((String::from_str(name), String::from_str(VERSION)));
    assert(named(v@) =~= named(before).push((name@, VERSION@)));
    assert(named(v@) =~= versions_of(name@));
    v
}

/// What ends the wait for a first packet.
#[derive(Debug)]
pub enum Waited<P> {
    /// The packet.
    Packet(P),
    /// The connection failed.
    Failed(Error),
    /// Nothing can come any more, or the listener is closed.
    Closed,
    /// It took too long.
    TimedOut,
}

/// What comes of the wait for a first packet; `addr` is the address to name where it took too long.
pub fn first_packet<P>(w: Waited<P>, addr: &str) -> (r: Result<P, Error>)
    ensures
        match w {
            Waited::Packet(p) => r == Ok::<P, Error>(p),
            Waited::Failed(e) => r == Err::<P, Error>(e),
            Waited::Closed => r matches Err(e) && e is ListenerHasBeenClosed,
            Waited::TimedOut => r matches Err(Error::TimeOut(a)) && a@ == addr@,
        },
{
    match w {
        Waited::Packet(p) => Ok(p),
        Waited::Failed(e) => Err(e),
        Waited::Closed => Err(Error::ListenerHasBeenClosed),
        Waited::TimedOut => Err(Error::TimeOut(String::from_str(addr))),
    }
}

} // verus!
