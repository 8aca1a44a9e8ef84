//! A datagram transport: one socket, whose datagrams are told apart by where they come from.

use crate::assoc::Assoc;
use crate::error::Error;
use crate::net::SocketAddr;
use crate::transport::base::version_of;
use vstd::prelude::*;

verus! {

/// The versions of the datagram transport.
pub fn version() -> (v: Vec<(String, String)>)
    ensures
        crate::transport::base::named(v@) == crate::transport::base::versions_of(
            "fp-transport-udp"@,
        ),
{
    version_of("fp-transport-udp")
}

/// Who receives a datagram.
#[derive(Clone, Copy, Debug, PartialEq, Eq, Structural)]
pub enum Destination {
    /// The peer with this channel.
    Peer(u64),
    /// Whoever accepts the next peer.
    Newcomer,
}

/// The peers of a listener, each with its channel.
#[derive(Debug)]
pub struct Peers {
    pub channels: Assoc<SocketAddr, u64>,
}

impl Peers {
    /// The peers with their channels.
    pub open spec fn view(&self) -> Map<SocketAddr, u64> {
        self.channels@
    }

    /// Whether no peer is listed twice.
    pub open spec fn wf(&self) -> bool {
        self.channels.wf()
    }

    /// No peers.
    pub fn new() -> (p: Peers)
        ensures
            p.wf(),
            p@ == Map::<SocketAddr, u64>::empty(),
    {
        Peers { channels: Assoc::new() }
    }

    /// Who receives a datagram from this address: the peer that has it, else it is a newcomer's
    /// first.
    pub fn dispatch(&self, from: &SocketAddr) -> (d: Destination)
        requires
            self.wf(),
        ensures
            d == if self@.contains_key(*from) {
                Destination::Peer(self@[*from])
            } else {
                Destination::Newcomer
            },
    {
        match self.channels.get(from) {
            Some(ch) => Destination::Peer(*ch),
            None => Destination::Newcomer,
        }
    }

    /// Accepts a newcomer: its datagrams go to this channel from now on.
    pub fn accept(&mut self, from: SocketAddr, channel: u64)
        requires
            old(self).wf(),
        ensures
            final(self).wf(),
            final(self)@ == old(self)@.insert(from, channel),
    {
        self.channels.insert(from, channel);
    }

    /// Forgets a peer whose channel nobody reads any more.
    pub fn gone(&mut self, from: &SocketAddr)
        requires
            old(self).wf(),
        ensures
            final(self).wf(),
            final(self)@ == old(self)@.remove(*from),
    {
        let _ = self.channels.remove(from);
    }
}

/// The end of a transport, open until it is closed.
#[derive(Clone, Copy, Debug, PartialEq, Eq, Structural)]
pub struct End {
    pub open: bool,
}

impl End {
    /// Whether a packet can be sent.
    pub fn may_send(&self) -> (r: Result<(), Error>)
        ensures
            self.open ==> r is Ok,
            !self.open ==> (r matches Err(e) && e.is_unexpected("sender closed"@)),
    {
        if self.open {
            Ok(())
        } else {
            Err(Error::unexpected("sender closed"))
        }
    }

    /// Whether a packet can be received.
    pub fn may_receive(&self) -> (r: Result<(), Error>)
        ensures
            self.open ==> r is Ok,
            !self.open ==> (r matches Err(e) && e.is_unexpected("receiver closed"@)),
    {
        if self.open {
            Ok(())
        } else {
            Err(Error::unexpected("receiver closed"))
        }
    }

    /// Closes the end; the socket stays open for others.
    pub fn close(&mut self)
        ensures
            !final(self).open,
    {
        self.open = false;
    }
}

/// What comes of waiting for the next packet of a peer's channel, which may be closed.
pub fn channel_received(next: Option<Vec<u8>>) -> (r: Result<Vec<u8>, Error>)
    ensures
        next matches Some(p) ==> r == Ok::<Vec<u8>, Error>(p),
        next is None ==> (r matches Err(e) && e.is_unexpected("receiver channel closed"@)),
{
    match next {
        Some(p) => Ok(p),
        None => Err(Error::unexpected("receiver channel closed")),
    }
}

/// A peer that was accepted receives the datagrams of its address, and no other peer does: those of
/// other addresses go where they went before.
pub proof fn accepting_affects_one(before: Map<SocketAddr, u64>, from: SocketAddr, channel: u64)
    ensures
        before.insert(from, channel)[from] == channel,
        forall|other: SocketAddr|
            other != from ==> {
                &&& #[trigger] before.insert(from, channel).contains_key(other)
                    == before.contains_key(other)
                &&& before.contains_key(other) ==> before.insert(from, channel)[other]
                    == before[other]
            },
{
}

/// A peer that is gone is a newcomer when it comes back.
pub proof fn gone_is_new_again(before: Map<SocketAddr, u64>, from: SocketAddr)
    ensures
        !before.remove(from).contains_key(from),
{
}

} // verus!
