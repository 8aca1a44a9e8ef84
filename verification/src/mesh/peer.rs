//! One peer: its path down the ladder of transports and the state of its session.
//!
//! Times are nanoseconds of a monotonic clock; the sessions themselves are kept elsewhere.

use crate::mesh::status::PeerStat;
use crate::net::SocketAddr;
use crate::wire::copy_bytes;
use vstd::prelude::*;

verus! {

/// A second.
pub const SECOND: u64 = 1_000_000_000;

/// The first byte of a handshake's first packet.
pub const T_HANDSHAKE_INIT: u8 = 1;

/// The first byte of a handshake's answer.
pub const T_HANDSHAKE_RESP: u8 = 2;

/// The first byte of a data packet.
pub const T_DATA: u8 = 4;

/// A direct path that is silent for this many seconds is presumed dead.
pub const LIVENESS_DEAD_SECS: u64 = 5;

/// A session older than this many seconds gets a new key.
pub const REKEY_AFTER_SECS: u64 = 120;

/// What does not depend on the peer: whether only the relay may be used, and whether there is one.
#[derive(Clone, Copy, Debug, PartialEq, Eq, Structural)]
pub struct Ladder {
    pub force_relay: bool,
    pub relay_up: bool,
}

/// The transport that a packet arrived on.
#[derive(Clone, Copy, Debug, PartialEq, Eq, Structural)]
pub enum Via {
    UdpDirect,
    TcpDirect,
    Relay,
}

/// The rung of the ladder that a packet takes.
#[derive(Clone, Copy, Debug, PartialEq, Eq, Structural)]
pub enum Rung {
    UdpDirect(SocketAddr),
    TcpDirect,
    Relay,
    Nowhere,
}

/// A peer.
#[derive(Debug)]
pub struct Peer {
    pub pubkey: [u8; 32],
    /// Addresses at which the peer may be reached.
    pub candidates: Vec<SocketAddr>,
    /// The address for direct datagrams.
    pub direct_addr: Option<SocketAddr>,
    /// Whether replies go by way of the relay.
    pub prefer_relay: bool,
    /// Whether replies go over the direct stream rather than as datagrams.
    pub prefer_tcp: bool,
    /// Whether discovery has found a direct path.
    pub disco_validated: bool,
    pub handshaked: bool,
    /// The handshake's first packet, to be sent again until it is answered.
    pub init_packet: Option<Vec<u8>>,
    /// The first packet that was last accepted from the peer, and the answer to it.
    pub last_init: Option<Vec<u8>>,
    pub last_resp: Option<Vec<u8>>,
    pub retries: u32,
    /// When an authenticated packet last came in.
    pub last_recv: Option<u64>,
    /// Whether the direct path was declared dead, so that only fresh evidence leads back to it.
    pub relay_pinned: bool,
    /// When an authenticated packet last came in as a direct datagram.
    pub last_recv_direct: Option<u64>,
    pub pinned_at: Option<u64>,
    pub last_upgrade: Option<u64>,
    /// How often in a row the direct path died right after it had recovered.
    pub flaps: u32,
    /// Whether there is a direct stream, and its generation.
    pub tcp_up: bool,
    pub tcp_gen: u64,
    pub handshake_at: Option<u64>,
    /// The smoothed round trip.
    pub rtt: Option<u64>,
    pub init_sent_at: Option<u64>,
    pub stat: PeerStat,
}

/// A packet to be sent.
#[derive(Debug)]
pub enum Effect {
    /// As a datagram to this address.
    Udp { to: SocketAddr, bytes: Vec<u8> },
    /// Over the direct stream to this peer.
    Tcp { peer: [u8; 32], bytes: Vec<u8> },
    /// Over the relay to this peer.
    Relay { peer: [u8; 32], bytes: Vec<u8> },
}

/// A packet to be sent, as a value.
pub enum Sent {
    Udp(SocketAddr, Seq<u8>),
    Tcp(Seq<u8>, Seq<u8>),
    Relay(Seq<u8>, Seq<u8>),
}

impl Effect {
    /// The packet as a value.
    pub open spec fn view(&self) -> Sent {
        match *self {
            Effect::Udp { to, bytes } => Sent::Udp(to, bytes@),
            Effect::Tcp { peer, bytes } => Sent::Tcp(peer@, bytes@),
            Effect::Relay { peer, bytes } => Sent::Relay(peer@, bytes@),
        }
    }
}

/// The packets to be sent, as values.
pub open spec fn sent(out: Seq<Effect>) -> Seq<Sent> {
    out.map_values(|e: Effect| e@)
}

/// Adding a packet.
pub proof fn sent_push(out: Seq<Effect>, e: Effect)
    ensures
        sent(out.push(e)) == sent(out).push(e@),
{
    assert(sent(out.push(e)) =~= sent(out).push(e@));
}

/// The time from `t` to `now`, zero where `t` lies ahead.
pub open spec fn elapsed(now: u64, t: u64) -> int {
    crate::health::minus(now as int, t as int)
}

/// The smoothed round trip after a sample.
pub open spec fn smoothed_rtt(rtt: Option<u64>, sample: int) -> int {
    match rtt {
        Some(r) => (r * 4 + sample) / 5,
        None => sample,
    }
}

impl Peer {
    /// A flap count is never above five.
    pub open spec fn wf(self) -> bool {
        self.flaps <= 5
    }

    /// The rung that a packet to this peer takes: a direct datagram, else the direct stream, else
    /// the relay, and as a last resort a datagram all the same.
    pub open spec fn rung(self, ladder: Ladder) -> Rung {
        if !ladder.force_relay && !self.prefer_relay && !self.prefer_tcp && self.direct_addr is Some {
            Rung::UdpDirect(self.direct_addr->0)
        } else if !ladder.force_relay && !self.prefer_relay && self.tcp_up {
            Rung::TcpDirect
        } else if ladder.relay_up {
            Rung::Relay
        } else if self.direct_addr is Some {
            Rung::UdpDirect(self.direct_addr->0)
        } else {
            Rung::Nowhere
        }
    }

    /// The packet as it is sent on the peer's rung.
    pub open spec fn carried(self, ladder: Ladder, bytes: Seq<u8>) -> Seq<Sent> {
        match self.rung(ladder) {
            Rung::UdpDirect(to) => seq![Sent::Udp(to, bytes)],
            Rung::TcpDirect => seq![Sent::Tcp(self.pubkey@, bytes)],
            Rung::Relay => seq![Sent::Relay(self.pubkey@, bytes)],
            Rung::Nowhere => seq![],
        }
    }

    /// The peer after a packet of it was authenticated: replies follow the transport that works.
    pub open spec fn after_packet(self, from: Option<SocketAddr>, via: Via, now: u64) -> Peer {
        let relay = if self.relay_pinned {
            self.prefer_relay
        } else {
            false
        };
        match via {
            Via::UdpDirect => Peer {
                direct_addr: match from {
                    Some(f) => Some(f),
                    None => self.direct_addr,
                },
                last_recv_direct: Some(now),
                prefer_tcp: false,
                prefer_relay: relay,
                ..self
            },
            Via::TcpDirect => Peer { prefer_tcp: true, prefer_relay: relay, ..self },
            Via::Relay => Peer { prefer_relay: true, ..self },
        }
    }

    /// The peer once a handshake was completed, apart from the packets that are kept for it.
    pub open spec fn after_session(
        self,
        from: Option<SocketAddr>,
        via: Via,
        now: u64,
        now_unix: u64,
    ) -> Peer {
        let p = self.after_packet(from, via, now);
        Peer {
            last_recv: Some(now),
            handshake_at: Some(now),
            stat: PeerStat { last_handshake_unix: now_unix, ..self.stat },
            ..p
        }
    }

    /// The peer once a round trip was sampled.
    pub open spec fn after_sample(self, now: u64) -> Peer {
        match self.init_sent_at {
            Some(t) => Peer {
                init_sent_at: None,
                rtt: Some(smoothed_rtt(self.rtt, elapsed(now, t)) as u64),
                ..self
            },
            None => self,
        }
    }

    /// The peer with this key and these addresses, with no session and no history.
    pub open spec fn unmet(
        pubkey: [u8; 32],
        candidates: Vec<SocketAddr>,
        force_relay: bool,
        stat: PeerStat,
    ) -> Peer {
        Peer {
            pubkey,
            candidates,
            direct_addr: if force_relay || candidates@.len() == 0 {
                None
            } else {
                Some(candidates@[0])
            },
            prefer_relay: force_relay,
            prefer_tcp: false,
            disco_validated: false,
            handshaked: false,
            init_packet: None,
            last_init: None,
            last_resp: None,
            retries: 0,
            last_recv: None,
            relay_pinned: false,
            last_recv_direct: None,
            pinned_at: None,
            last_upgrade: None,
            flaps: 0,
            tcp_up: false,
            tcp_gen: 0,
            handshake_at: None,
            rtt: None,
            init_sent_at: None,
            stat,
        }
    }

    /// A peer without a session.
    pub fn fresh(
        pubkey: [u8; 32],
        candidates: Vec<SocketAddr>,
        force_relay: bool,
        stat: PeerStat,
    ) -> (p: Peer)
        ensures
            p.wf(),
            p == Peer::unmet(pubkey, candidates, force_relay, stat),
    {
        let direct_addr: Option<SocketAddr> = if force_relay || candidates.len() == 0 {
            None
        } else {
            Some(candidates[0])
        };
        Peer {
            pubkey,
            candidates,
            direct_addr,
            prefer_relay: force_relay,
            prefer_tcp: false,
            disco_validated: false,
            handshaked: false,
            init_packet: None,
            last_init: None,
            last_resp: None,
            retries: 0,
            last_recv: None,
            relay_pinned: false,
            last_recv_direct: None,
            pinned_at: None,
            last_upgrade: None,
            flaps: 0,
            tcp_up: false,
            tcp_gen: 0,
            handshake_at: None,
            rtt: None,
            init_sent_at: None,
            stat,
        }
    }

    /// Takes in a sample of the round trip, from the first packet of a handshake to its answer.
    pub fn note_rtt(&mut self, now: u64)
        ensures
            *final(self) == old(self).after_sample(now),
    {
        if let Some(t) = self.init_sent_at {
            self.init_sent_at = None;
            let sample: u64 = now.saturating_sub(t);
            self.rtt = match self.rtt {
                Some(r) => Some(((r as u128 * 4 + sample as u128) / 5) as u64),
                None => Some(sample),
            };
        }
    }

    /// The rung that a packet takes.
    pub fn choose_rung(&self, ladder: Ladder) -> (r: Rung)
        ensures
            r == self.rung(ladder),
    {
        if !ladder.force_relay && !self.prefer_relay && !self.prefer_tcp {
            if let Some(addr) = self.direct_addr {
                return Rung::UdpDirect(addr);
            }
        }
        if !ladder.force_relay && !self.prefer_relay && self.tcp_up {
            return Rung::TcpDirect;
        }
        if ladder.relay_up {
            return Rung::Relay;
        }
        match self.direct_addr {
            Some(addr) => Rung::UdpDirect(addr),
            None => Rung::Nowhere,
        }
    }

    /// Adopts the transport that an authenticated packet arrived on for replies.
    pub fn set_path(&mut self, from: Option<SocketAddr>, via: Via, now: u64)
        ensures
            *final(self) == old(self).after_packet(from, via, now),
    {
        match via {
            Via::UdpDirect => {
                if let Some(f) = from {
                    self.direct_addr = Some(f);
                }
                self.last_recv_direct = Some(now);
                self.prefer_tcp = false;
                if !self.relay_pinned {
                    self.prefer_relay = false;
                }
            },
            Via::TcpDirect => {
                self.prefer_tcp = true;
                if !self.relay_pinned {
                    self.prefer_relay = false;
                }
            },
            Via::Relay => {
                self.prefer_relay = true;
            },
        }
    }

    /// Notes that a handshake was completed.
    pub fn session_up(&mut self, from: Option<SocketAddr>, via: Via, now: u64, now_unix: u64)
        ensures
            *final(self) == old(self).after_session(from, via, now, now_unix),
    {
        self.set_path(from, via, now);
        self.last_recv = Some(now);
        self.handshake_at = Some(now);
        self.stat.mark_handshake(now_unix);
    }
}

/// Sends a packet down the ladder.
pub fn send_to_peer(peer: &Peer, ladder: Ladder, bytes: &[u8], out: &mut Vec<Effect>)
    ensures
        sent(final(out)@) == sent(old(out)@) + peer.carried(ladder, bytes@),
{
    match peer.choose_rung(ladder) {
        Rung::UdpDirect(to) => {
            push_udp(out, to, bytes);
        },
        Rung::TcpDirect => {
            let e = Effect::Tcp { peer: peer.pubkey, bytes: copy_bytes(bytes) };
            proof {
                sent_push(out@, e);
            }
            out.push(e);
        },
        Rung::Relay => {
            let e = Effect::Relay { peer: peer.pubkey, bytes: copy_bytes(bytes) };
            proof {
                sent_push(out@, e);
            }
            out.push(e);
        },
        Rung::Nowhere => {},
    }
    assert(sent(out@) =~= sent(old(out)@) + peer.carried(ladder, bytes@));
}

/// Sends a datagram.
pub fn push_udp(out: &mut Vec<Effect>, to: SocketAddr, bytes: &[u8])
    ensures
        sent(final(out)@) == sent(old(out)@).push(Sent::Udp(to, bytes@)),
{
    let e = Effect::Udp { to, bytes: copy_bytes(bytes) };
    proof {
        sent_push(out@, e);
    }
    out.push(e);
}

/// The same datagram to each of some addresses.
pub open spec fn datagrams(to: Seq<SocketAddr>, bytes: Seq<u8>) -> Seq<Sent> {
    to.map_values(|a: SocketAddr| Sent::Udp(a, bytes))
}

/// Sends the same datagram to each of some addresses.
pub fn push_all(out: &mut Vec<Effect>, to: &Vec<SocketAddr>, bytes: &[u8])
    ensures
        sent(final(out)@) == sent(old(out)@) + datagrams(to@, bytes@),
{
    let mut i: usize = 0;
    assert(sent(out@) =~= sent(old(out)@) + datagrams(to@.take(0), bytes@));
    while i < to.len()
        invariant
            i <= to@.len(),
            sent(out@) == sent(old(out)@) + datagrams(to@.take(i as int), bytes@),
        decreases to@.len() - i,
    {
        push_udp(out, to[i], bytes);
        i += 1;
        assert(sent(out@) =~= sent(old(out)@) + datagrams(to@.take(i as int), bytes@));
    }
    assert(to@.take(to@.len() as int) =~= to@);
}

/// Receiving never takes a peer off the relay once its direct path was declared dead, and never
/// declares it dead either: only the periodic check does both.
pub proof fn pinned_stays_pinned(p: Peer, from: Option<SocketAddr>, via: Via, now: u64)
    ensures
        p.after_packet(from, via, now).relay_pinned == p.relay_pinned,
        p.relay_pinned && p.prefer_relay ==> p.after_packet(from, via, now).prefer_relay,
{
}

/// Replies follow the transport that the last packet arrived on, unless the peer is pinned to the
/// relay or only the relay may be used.
pub proof fn replies_follow(p: Peer, from: SocketAddr, now: u64, ladder: Ladder)
    requires
        !p.relay_pinned,
        !ladder.force_relay,
    ensures
        p.after_packet(Some(from), Via::UdpDirect, now).rung(ladder) == Rung::UdpDirect(from),
        p.tcp_up ==> p.after_packet(None, Via::TcpDirect, now).rung(ladder) == Rung::TcpDirect,
        ladder.relay_up ==> p.after_packet(None, Via::Relay, now).rung(ladder) == Rung::Relay,
{
}

/// Where only the relay may be used and there is one, nothing is sent any other way.
pub proof fn forced_relay_is_kept(p: Peer, ladder: Ladder)
    requires
        ladder.force_relay,
        ladder.relay_up,
    ensures
        p.rung(ladder) == Rung::Relay,
{
}

/// A peer that replies over the relay is not sent datagrams or stream frames while there is a
/// relay.
pub proof fn relay_is_preferred(p: Peer, ladder: Ladder)
    requires
        p.prefer_relay,
        ladder.relay_up,
    ensures
        p.rung(ladder) == Rung::Relay,
{
}

/// The ladder from the top: a direct datagram unless something speaks against it, then the direct
/// stream, then the relay; without a relay a direct datagram is tried after all. A packet is dropped
/// only where there is no way at all.
pub proof fn ladder_from_the_top(p: Peer, ladder: Ladder, bytes: Seq<u8>, a: SocketAddr)
    ensures
        ({
            let direct = !ladder.force_relay && !p.prefer_relay;
            &&& direct && !p.prefer_tcp && p.direct_addr == Some(a) ==> p.carried(ladder, bytes)
                == seq![Sent::Udp(a, bytes)]
            &&& direct && p.tcp_up && (p.prefer_tcp || p.direct_addr is None) ==> p.carried(
                ladder,
                bytes,
            ) == seq![Sent::Tcp(p.pubkey@, bytes)]
            &&& direct && !p.tcp_up && (p.prefer_tcp || p.direct_addr is None) && ladder.relay_up
                ==> p.carried(ladder, bytes) == seq![Sent::Relay(p.pubkey@, bytes)]
            &&& !direct && ladder.relay_up ==> p.carried(ladder, bytes) == seq![
                Sent::Relay(p.pubkey@, bytes),
            ]
            &&& !direct && !ladder.relay_up && p.direct_addr == Some(a) ==> p.carried(ladder, bytes)
                == seq![Sent::Udp(a, bytes)]
            &&& p.carried(ladder, bytes).len() == 0 <==> !ladder.relay_up && p.direct_addr is None
                && !(direct && p.tcp_up)
            &&& p.carried(ladder, bytes).len() <= 1
        }),
{
}

/// What a packet shows depends on how it came: only a direct datagram shows that direct datagrams
/// arrive and from where; a packet over the stream or the relay leaves that evidence as it was.
pub proof fn evidence_of_a_packet(p: Peer, from: Option<SocketAddr>, via: Via, now: u64)
    ensures
        ({
            let q = p.after_packet(from, via, now);
            &&& via == Via::UdpDirect ==> {
                &&& q.last_recv_direct == Some(now)
                &&& from is Some ==> q.direct_addr == from
                &&& from is None ==> q.direct_addr == p.direct_addr
                &&& !q.prefer_tcp
                &&& !p.relay_pinned ==> !q.prefer_relay
            }
            &&& via == Via::TcpDirect ==> {
                &&& q.last_recv_direct == p.last_recv_direct
                &&& q.direct_addr == p.direct_addr
                &&& q.prefer_tcp
                &&& !p.relay_pinned ==> !q.prefer_relay
            }
            &&& via == Via::Relay ==> {
                &&& q.last_recv_direct == p.last_recv_direct
                &&& q.direct_addr == p.direct_addr
                &&& q.prefer_tcp == p.prefer_tcp
                &&& q.prefer_relay
            }
            &&& q.handshaked == p.handshaked
            &&& q.pubkey == p.pubkey
            &&& q.candidates == p.candidates
            &&& q.last_recv == p.last_recv
            &&& q.handshake_at == p.handshake_at
            &&& q.stat == p.stat
        }),
{
}

/// A completed handshake dates the session and the last packet by the clock, and is published with
/// its wall clock time; no bytes are counted for it.
pub proof fn session_is_dated(
    p: Peer,
    from: Option<SocketAddr>,
    via: Via,
    now: u64,
    now_unix: u64,
)
    ensures
        ({
            let q = p.after_session(from, via, now, now_unix);
            &&& q.handshake_at == Some(now)
            &&& q.last_recv == Some(now)
            &&& q.stat.last_handshake_unix == now_unix
            &&& q.stat.rx_bytes == p.stat.rx_bytes
            &&& q.stat.tx_bytes == p.stat.tx_bytes
            &&& q.rung_inputs_like(p.after_packet(from, via, now))
        }),
{
}

impl Peer {
    /// Whether packets to two peers take the same way, as far as it depends on the peer.
    pub open spec fn rung_inputs_like(self, other: Peer) -> bool {
        &&& self.direct_addr == other.direct_addr
        &&& self.prefer_relay == other.prefer_relay
        &&& self.prefer_tcp == other.prefer_tcp
        &&& self.tcp_up == other.tcp_up
    }
}

/// The first round trip is taken as measured. Later ones move the estimate a fifth of the way: it
/// never leaves the range between what it was and what was measured.
pub proof fn round_trip_is_smoothed(p: Peer, sent_at: u64, now: u64)
    requires
        p.init_sent_at == Some(sent_at),
        sent_at <= now,
    ensures
        ({
            let q = p.after_sample(now);
            let x = now - sent_at;
            &&& q.init_sent_at is None
            &&& p.rtt is None ==> q.rtt == Some(x as u64)
            &&& p.rtt matches Some(r) ==> {
                &&& q.rtt is Some
                &&& 5 * q.rtt->0 <= 4 * r + x < 5 * q.rtt->0 + 5
                &&& r <= x ==> r <= q.rtt->0 <= x
                &&& x <= r ==> x <= q.rtt->0 <= r
            }
        }),
{
}

/// Without an open measurement nothing is sampled.
pub proof fn nothing_to_sample(p: Peer, now: u64)
    requires
        p.init_sent_at is None,
    ensures
        p.after_sample(now) == p,
{
}

/// A new peer is tried directly at its first address, unless everything goes by the relay; it has
/// no session, no history and nothing published.
pub proof fn new_peer_is_tried_directly(
    pubkey: [u8; 32],
    candidates: Vec<SocketAddr>,
    stat: PeerStat,
    ladder: Ladder,
    bytes: Seq<u8>,
)
    ensures
        ({
            let p = Peer::unmet(pubkey, candidates, ladder.force_relay, stat);
            &&& p.pubkey == pubkey
            &&& p.candidates == candidates
            &&& p.stat == stat
            &&& !p.handshaked
            &&& !p.relay_pinned
            &&& !p.disco_validated
            &&& !p.tcp_up
            &&& p.init_packet is None
            &&& p.last_init is None
            &&& p.last_resp is None
            &&& p.retries == 0
            &&& p.flaps == 0
            &&& p.last_recv is None
            &&& p.last_recv_direct is None
            &&& p.last_upgrade is None
            &&& p.pinned_at is None
            &&& p.tcp_gen == 0
            &&& !p.prefer_tcp
            &&& p.handshake_at is None
            &&& p.init_sent_at is None
            &&& p.rtt is None
            &&& !ladder.force_relay && candidates@.len() > 0 ==> p.carried(ladder, bytes) == seq![
                Sent::Udp(candidates@[0], bytes),
            ]
            &&& ladder.force_relay && ladder.relay_up ==> p.carried(ladder, bytes) == seq![
                Sent::Relay(pubkey@, bytes),
            ]
            &&& ladder.force_relay ==> p.direct_addr is None
        }),
{
}

/// A datagram goes to each of some addresses, in order.
pub proof fn each_gets_a_datagram(to: Seq<SocketAddr>, bytes: Seq<u8>)
    ensures
        datagrams(to, bytes).len() == to.len(),
        forall|i: int|
            0 <= i < to.len() ==> #[trigger] datagrams(to, bytes)[i] == Sent::Udp(to[i], bytes),
{
}

/// The time that has passed, none where the clock went back.
pub proof fn elapsed_is_the_difference(now: u64, t: u64)
    ensures
        t <= now ==> elapsed(now, t) == now - t,
        now <= t ==> elapsed(now, t) == 0,
{
}

/// The kinds of packets are those of WireGuard; a direct path is dead after five silent seconds and
/// a session is renewed after two minutes.
pub proof fn kinds_and_times()
    ensures
        T_HANDSHAKE_INIT == 1,
        T_HANDSHAKE_RESP == 2,
        T_DATA == 4,
        SECOND == 1_000_000_000,
        LIVENESS_DEAD_SECS * SECOND == 5_000_000_000,
        REKEY_AFTER_SECS * SECOND == 120_000_000_000,
{
}

} // verus!
