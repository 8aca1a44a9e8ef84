//! The periodic check of a peer, once a second: status, keepalives, the fall back to the relay,
//! the way back from it and new keys.
//!
//! The check stops where the session has to seal or begin something and goes on with the result.

use crate::mesh::order::begins;
use crate::mesh::peer::{
    push_all, push_udp, send_to_peer, Effect, Ladder, Peer, Rung, LIVENESS_DEAD_SECS,
    REKEY_AFTER_SECS, SECOND, T_DATA, T_HANDSHAKE_INIT,
};
use crate::mesh::status::{PeerStat, T_NONE, T_RELAY, T_TCP_DIRECT, T_UDP_DIRECT};
use crate::wire::le_u32;
use vstd::prelude::*;

verus! {

/// What a node knows about itself: its public key, the ladder and its discovery ping.
#[derive(Debug)]
pub struct Node {
    pub own_pub: [u8; 32],
    pub ladder: Ladder,
    pub ping: Vec<u8>,
}

/// The status of a rung.
pub open spec fn rung_status(r: Rung) -> u8 {
    match r {
        Rung::UdpDirect(_) => T_UDP_DIRECT,
        Rung::TcpDirect => T_TCP_DIRECT,
        Rung::Relay => T_RELAY,
        Rung::Nowhere => T_NONE,
    }
}

impl Peer {
    /// The status that is published: the rung that packets take, none before the handshake.
    pub open spec fn published(self, ladder: Ladder) -> PeerStat {
        PeerStat {
            transport: if self.handshaked {
                rung_status(self.rung(ladder))
            } else {
                T_NONE
            },
            rtt_us: match self.rtt {
                Some(r) => r / 1000,
                None => 0,
            },
            endpoint: self.direct_addr,
            ..self.stat
        }
    }

    /// Whether this check gives up on a direct path before the first handshake: discovery has not
    /// found one in six tries and there is a relay.
    pub open spec fn gives_up_direct(self, ladder: Ladder) -> bool {
        &&& !ladder.force_relay
        &&& !self.disco_validated
        &&& !self.prefer_relay
        &&& ladder.relay_up
        &&& self.retries + 1 >= 6
    }

    /// The peer after the first part of the check.
    pub open spec fn after_open(self, ladder: Ladder, now: u64) -> Peer {
        let p = Peer { stat: self.published(ladder), ..self };
        if self.handshaked {
            p
        } else {
            Peer {
                retries: (self.retries + 1) as u32,
                prefer_relay: self.prefer_relay || self.gives_up_direct(ladder),
                init_sent_at: if self.init_packet is Some {
                    Some(now)
                } else {
                    self.init_sent_at
                },
                ..p
            }
        }
    }

    /// What the first part of the check sends: pings until discovery has found a direct path, and
    /// the handshake's first packet until it is answered.
    pub open spec fn open_sends(self, node: Node, now: u64) -> Seq<crate::mesh::peer::Sent> {
        let pings = if !node.ladder.force_relay && !self.disco_validated {
            crate::mesh::peer::datagrams(self.candidates@, node.ping@)
        } else {
            seq![]
        };
        let again = match self.init_packet {
            Some(init) => if self.handshaked {
                seq![]
            } else {
                self.after_open(node.ladder, now).carried(node.ladder, init@)
            },
            None => seq![],
        };
        pings + again
    }

    /// How long a direct path may be silent: eight round trips, and at least five seconds.
    pub open spec fn patience(self) -> int {
        let floor = LIVENESS_DEAD_SECS * SECOND;
        match self.rtt {
            Some(r) => if r * 8 > floor {
                r * 8
            } else {
                floor
            },
            None => floor,
        }
    }

    /// Whether the direct path is silent.
    pub open spec fn silent(self, now: u64) -> bool {
        match self.last_recv_direct {
            Some(t) => crate::mesh::peer::elapsed(now, t) >= self.patience(),
            None => true,
        }
    }

    /// Whether the check moves the peer to the relay.
    pub open spec fn falls_back(self, ladder: Ladder, now: u64) -> bool {
        self.silent(now) && !self.prefer_relay && !ladder.force_relay && ladder.relay_up
    }

    /// The flap count of a peer that is moved to the relay: one more if it came back from there
    /// less than twenty seconds ago, none otherwise.
    pub open spec fn next_flaps(self, now: u64) -> int {
        match self.last_upgrade {
            Some(up) => if crate::mesh::peer::elapsed(now, up) < 20 * SECOND {
                if self.flaps + 1 > 5 {
                    5
                } else {
                    self.flaps + 1
                }
            } else {
                0
            },
            None => 0,
        }
    }

    /// The peer after it was moved to the relay. The way back needs new evidence.
    pub open spec fn after_fall_back(self, now: u64) -> Peer {
        Peer {
            prefer_relay: true,
            relay_pinned: true,
            flaps: self.next_flaps(now) as u32,
            pinned_at: Some(now),
            last_recv: Some(now),
            last_recv_direct: None,
            ..self
        }
    }

    /// How long a peer stays on the relay at least: a second, twice as long for each flap.
    pub open spec fn min_pin(self) -> int {
        vstd::arithmetic::power2::pow2(
            if self.flaps > 5 {
                5
            } else {
                self.flaps as nat
            },
        ) * SECOND
    }

    /// Whether the check takes the peer off the relay: authenticated datagrams come in directly
    /// again and it has stayed long enough.
    pub open spec fn upgrades(self, now: u64) -> bool {
        &&& self.relay_pinned
        &&& (self.last_recv_direct matches Some(t) && crate::mesh::peer::elapsed(now, t)
            < LIVENESS_DEAD_SECS * SECOND)
        &&& (self.pinned_at matches Some(t) ==> crate::mesh::peer::elapsed(now, t)
            >= self.min_pin())
    }

    /// The peer after the way back was decided.
    pub open spec fn after_upgrade(self, now: u64) -> Peer {
        if self.upgrades(now) {
            Peer { relay_pinned: false, prefer_relay: false, last_upgrade: Some(now), ..self }
        } else {
            self
        }
    }

    /// Whether the session is old enough for a new key.
    pub open spec fn aged(self, now: u64) -> bool {
        self.handshake_at matches Some(t) && crate::mesh::peer::elapsed(now, t) >= REKEY_AFTER_SECS
            * SECOND
    }
}

/// Publishes the peer's status, pings its addresses and repeats an unanswered handshake. Says
/// whether the peer has a session, so that the check goes on.
pub fn tick_open(peer: &mut Peer, node: &Node, now: u64, out: &mut Vec<Effect>) -> (goes_on: bool)
    requires
        old(peer).handshaked || old(peer).retries < u32::MAX,
    ensures
        *final(peer) == old(peer).after_open(node.ladder, now),
        goes_on == old(peer).handshaked,
        crate::mesh::peer::sent(final(out)@) == crate::mesh::peer::sent(old(out)@) + old(
            peer,
        ).open_sends(*node, now),
{
    let ghost start = *peer;
    let transport: u8 = if peer.handshaked {
        match peer.choose_rung(node.ladder) {
            Rung::UdpDirect(_) => T_UDP_DIRECT,
            Rung::TcpDirect => T_TCP_DIRECT,
            Rung::Relay => T_RELAY,
            Rung::Nowhere => T_NONE,
        }
    } else {
        T_NONE
    };
    peer.stat.transport = transport;
    peer.stat.rtt_us = match peer.rtt {
        Some(r) => r / 1000,
        None => 0,
    };
    peer.stat.endpoint = peer.direct_addr;
    if !node.ladder.force_relay && !peer.disco_validated {
        push_all(out, &peer.candidates, node.ping.as_slice());
    }
    if peer.handshaked {
        assert(start.open_sends(*node, now) =~= if !node.ladder.force_relay
            && !start.disco_validated {
            crate::mesh::peer::datagrams(start.candidates@, node.ping@)
        } else {
            seq![]
        });
        assert(crate::mesh::peer::sent(out@) =~= crate::mesh::peer::sent(old(out)@)
            + start.open_sends(*node, now));
        return true;
    }
    peer.retries = peer.retries + 1;
    if !node.ladder.force_relay && !peer.disco_validated && !peer.prefer_relay
        && node.ladder.relay_up && peer.retries >= 6 {
        peer.prefer_relay = true;
    }
    match &peer.init_packet {
        Some(init) => {
            send_to_peer(peer, node.ladder, init.as_slice(), out);
            peer.init_sent_at = Some(now);
        },
        None => {},
    }
    proof {
        let done = start.after_open(node.ladder, now);
        assert(done.rung(node.ladder) == Peer { init_sent_at: start.init_sent_at, ..done }.rung(
            node.ladder,
        ));
        assert(crate::mesh::peer::sent(out@) =~= crate::mesh::peer::sent(old(out)@)
            + start.open_sends(*node, now));
    }
    false
}

/// What sealing an empty packet gave: a keepalive, or the first packet of a handshake for a new
/// key, which only the end that begins handshakes may send.
pub open spec fn is_keepalive(sealed: Seq<u8>) -> bool {
    sealed.len() > 0 && sealed[0] == T_DATA
}

/// Whether a sealed packet is the first packet of a handshake that this end may send, and the
/// session index that it carries.
pub open spec fn own_init(own: Seq<u8>, peer: Seq<u8>, sealed: Seq<u8>) -> Option<u32> {
    if sealed.len() > 0 && sealed[0] == T_HANDSHAKE_INIT && crate::mesh::order::before(own, peer) {
        crate::wire::le32_at(sealed, 4)
    } else {
        None
    }
}

impl Peer {
    /// What a keepalive sends: the packet down the ladder; and, where the peer is pinned to the
    /// relay, also directly with pings, to find out whether the direct path has recovered.
    pub open spec fn keepalive_sends(self, node: Node, packet: Seq<u8>) -> Seq<
        crate::mesh::peer::Sent,
    > {
        let direct = match self.direct_addr {
            Some(a) => seq![
                crate::mesh::peer::Sent::Udp(a, packet),
                crate::mesh::peer::Sent::Udp(a, node.ping@),
            ],
            None => seq![],
        };
        if self.relay_pinned && !node.ladder.force_relay {
            self.carried(node.ladder, packet) + (direct + crate::mesh::peer::datagrams(
                self.candidates@,
                node.ping@,
            ))
        } else {
            self.carried(node.ladder, packet)
        }
    }
}

/// Sends a keepalive.
pub fn keepalive_send(peer: &Peer, node: &Node, packet: &[u8], out: &mut Vec<Effect>)
    ensures
        crate::mesh::peer::sent(final(out)@) == crate::mesh::peer::sent(old(out)@)
            + peer.keepalive_sends(*node, packet@),
{
    send_to_peer(peer, node.ladder, packet, out);
    if peer.relay_pinned && !node.ladder.force_relay {
        if let Some(a) = peer.direct_addr {
            push_udp(out, a, packet);
            push_udp(out, a, node.ping.as_slice());
        }
        push_all(out, &peer.candidates, node.ping.as_slice());
    }
    assert(crate::mesh::peer::sent(out@) =~= crate::mesh::peer::sent(old(out)@)
        + peer.keepalive_sends(*node, packet@));
}

/// Takes in what sealing an empty packet gave. A keepalive is counted and sent. The first packet
/// of a handshake is sent only by the end that begins handshakes, and its session index is handed
/// back to be registered; otherwise it is dropped.
pub fn tick_keepalive(
    peer: &mut Peer,
    node: &Node,
    sealed: &Vec<u8>,
    out: &mut Vec<Effect>,
) -> (index: Option<u32>)
    ensures
        is_keepalive(sealed@) ==> {
            &&& index is None
            &&& *final(peer) == (Peer { stat: old(peer).stat.sent(sealed@.len()), ..*old(peer) })
            &&& crate::mesh::peer::sent(final(out)@) == crate::mesh::peer::sent(old(out)@) + old(
                peer,
            ).keepalive_sends(*node, sealed@)
        },
        !is_keepalive(sealed@) ==> {
            &&& index == own_init(node.own_pub@, old(peer).pubkey@, sealed@)
            &&& *final(peer) == *old(peer)
            &&& crate::mesh::peer::sent(final(out)@) == crate::mesh::peer::sent(old(out)@) + (
            if index is Some {
                old(peer).carried(node.ladder, sealed@)
            } else {
                seq![]
            })
        },
{
    if sealed.len() == 0 {
        assert(crate::mesh::peer::sent(out@) =~= crate::mesh::peer::sent(old(out)@) + Seq::<
            crate::mesh::peer::Sent,
        >::empty());
        return None;
    }
    if sealed[0] == T_DATA {
        peer.stat.add_tx(sealed.len());
        keepalive_send(peer, node, sealed.as_slice(), out);
        assert(peer.keepalive_sends(*node, sealed@) =~= old(peer).keepalive_sends(*node, sealed@));
        return None;
    }
    if sealed[0] == T_HANDSHAKE_INIT && begins(&node.own_pub, &peer.pubkey) {
        if let Some(idx) = le_u32(sealed.as_slice(), 4) {
            send_to_peer(peer, node.ladder, sealed.as_slice(), out);
            return Some(idx);
        }
    }
    assert(crate::mesh::peer::sent(out@) =~= crate::mesh::peer::sent(old(out)@) + Seq::<
        crate::mesh::peer::Sent,
    >::empty());
    None
}

/// Moves the peer to the relay where its direct path is silent. Says whether this end begins a
/// handshake for a new key over the relay.
pub fn tick_silence(peer: &mut Peer, node: &Node, now: u64) -> (rekey: bool)
    requires
        old(peer).wf(),
    ensures
        final(peer).wf(),
        old(peer).falls_back(node.ladder, now) ==> *final(peer) == old(peer).after_fall_back(now),
        !old(peer).falls_back(node.ladder, now) ==> *final(peer) == *old(peer),
        rekey == (old(peer).falls_back(node.ladder, now) && crate::mesh::order::before(
            node.own_pub@,
            old(peer).pubkey@,
        )),
{
    let floor: u128 = LIVENESS_DEAD_SECS as u128 * SECOND as u128;
    let dead: u128 = match peer.rtt {
        Some(r) => if r as u128 * 8 > floor {
            r as u128 * 8
        } else {
            floor
        },
        None => floor,
    };
    let silent: bool = match peer.last_recv_direct {
        Some(t) => now.saturating_sub(t) as u128 >= dead,
        None => true,
    };
    if silent && !peer.prefer_relay && !node.ladder.force_relay && node.ladder.relay_up {
        peer.prefer_relay = true;
        peer.relay_pinned = true;
        peer.flaps = match peer.last_upgrade {
            Some(up) => if now.saturating_sub(up) < 20 * SECOND {
                if peer.flaps + 1 > 5 {
                    5
                } else {
                    peer.flaps + 1
                }
            } else {
                0
            },
            None => 0,
        };
        peer.pinned_at = Some(now);
        peer.last_recv = Some(now);
        peer.last_recv_direct = None;
        return begins(&node.own_pub, &peer.pubkey);
    }
    false
}

/// Takes a peer whose direct path has recovered off the relay.
pub fn tick_upgrade(peer: &mut Peer, now: u64)
    requires
        old(peer).wf(),
    ensures
        final(peer).wf(),
        *final(peer) == old(peer).after_upgrade(now),
{
    proof {
        vstd::arithmetic::power2::lemma2_to64();
    }
    let min_pin: u64 = if peer.flaps == 0 {
        1 * SECOND
    } else if peer.flaps == 1 {
        2 * SECOND
    } else if peer.flaps == 2 {
        4 * SECOND
    } else if peer.flaps == 3 {
        8 * SECOND
    } else if peer.flaps == 4 {
        16 * SECOND
    } else {
        32 * SECOND
    };
    assert(min_pin == peer.min_pin());
    let recovered: bool = match peer.last_recv_direct {
        Some(t) => now.saturating_sub(t) < LIVENESS_DEAD_SECS * SECOND,
        None => false,
    };
    let long_enough: bool = match peer.pinned_at {
        Some(t) => now.saturating_sub(t) >= min_pin,
        None => true,
    };
    if peer.relay_pinned && recovered && long_enough {
        peer.relay_pinned = false;
        peer.prefer_relay = false;
        peer.last_upgrade = Some(now);
    }
}

/// Says whether this end begins a handshake for a new key because the session has aged; its age is
/// counted from now on.
pub fn tick_age(peer: &mut Peer, node: &Node, now: u64) -> (rekey: bool)
    ensures
        rekey == (crate::mesh::order::before(node.own_pub@, old(peer).pubkey@) && old(peer).aged(
            now,
        )),
        rekey ==> *final(peer) == (Peer { handshake_at: Some(now), ..*old(peer) }),
        !rekey ==> *final(peer) == *old(peer),
{
    let aged: bool = match peer.handshake_at {
        Some(t) => now.saturating_sub(t) >= REKEY_AFTER_SECS * SECOND,
        None => false,
    };
    if begins(&node.own_pub, &peer.pubkey) && aged {
        peer.handshake_at = Some(now);
        return true;
    }
    false
}

/// Sends the first packet of a handshake for a new key, if the session gave one, and hands back
/// its session index to be registered.
pub fn emit_rekey(peer: &Peer, ladder: Ladder, init: &Option<Vec<u8>>, out: &mut Vec<Effect>) -> (
    index: Option<u32>)
    ensures
        match *init {
            Some(packet) => {
                &&& index == crate::wire::le32_at(packet@, 4)
                &&& crate::mesh::peer::sent(final(out)@) == crate::mesh::peer::sent(old(out)@)
                    + peer.carried(ladder, packet@)
            },
            None => index is None && final(out)@ == old(out)@,
        },
{
    match init {
        Some(packet) => {
            send_to_peer(peer, ladder, packet.as_slice(), out);
            le_u32(packet.as_slice(), 4)
        },
        None => None,
    }
}

/// The published path is the one that packets take.
pub proof fn status_tells_the_path(p: Peer, ladder: Ladder, bytes: Seq<u8>)
    requires
        p.handshaked,
    ensures
        p.published(ladder).transport == T_UDP_DIRECT <==> exists|a: crate::net::SocketAddr|
            p.carried(ladder, bytes) == seq![crate::mesh::peer::Sent::Udp(a, bytes)],
        p.published(ladder).transport == T_TCP_DIRECT <==> p.carried(ladder, bytes)
            == seq![crate::mesh::peer::Sent::Tcp(p.pubkey@, bytes)],
        p.published(ladder).transport == T_RELAY <==> p.carried(ladder, bytes)
            == seq![crate::mesh::peer::Sent::Relay(p.pubkey@, bytes)],
        p.published(ladder).transport == T_NONE <==> p.carried(ladder, bytes).len() == 0,
{
    let c = p.carried(ladder, bytes);
    match p.rung(ladder) {
        Rung::UdpDirect(a) => {
            assert(c == seq![crate::mesh::peer::Sent::Udp(a, bytes)]);
            assert(c[0] is Udp);
        },
        Rung::TcpDirect => {
            assert(c[0] is Tcp);
            assert forall|a: crate::net::SocketAddr| c
                != seq![crate::mesh::peer::Sent::Udp(a, bytes)] by {
                assert(seq![crate::mesh::peer::Sent::Udp(a, bytes)][0] is Udp);
            }
            assert(seq![crate::mesh::peer::Sent::Relay(p.pubkey@, bytes)][0] is Relay);
        },
        Rung::Relay => {
            assert(c[0] is Relay);
            assert forall|a: crate::net::SocketAddr| c
                != seq![crate::mesh::peer::Sent::Udp(a, bytes)] by {
                assert(seq![crate::mesh::peer::Sent::Udp(a, bytes)][0] is Udp);
            }
            assert(seq![crate::mesh::peer::Sent::Tcp(p.pubkey@, bytes)][0] is Tcp);
        },
        Rung::Nowhere => {
            assert(c.len() == 0);
        },
    }
    assert(seq![crate::mesh::peer::Sent::Tcp(p.pubkey@, bytes)][0] is Tcp);
    assert(seq![crate::mesh::peer::Sent::Relay(p.pubkey@, bytes)][0] is Relay);
}

/// A peer that was moved to the relay is not taken off it in the same check, nor before an
/// authenticated datagram has come in directly.
pub proof fn way_back_needs_evidence(p: Peer, now: u64, later: u64)
    ensures
        !p.after_fall_back(now).upgrades(later),
{
}

/// Each flap doubles how long a peer stays on the relay, up to 32 seconds, so that a path that
/// keeps dying settles there.
pub proof fn flaps_lengthen_the_stay(p: Peer, up: u64, now: u64)
    requires
        p.wf(),
        p.last_upgrade == Some(up),
        crate::mesh::peer::elapsed(now, up) < 20 * SECOND,
    ensures
        p.flaps < 5 ==> p.after_fall_back(now).min_pin() == 2 * p.min_pin(),
        p.flaps == 5 ==> p.after_fall_back(now).min_pin() == p.min_pin(),
        p.min_pin() <= 32 * SECOND,
{
    vstd::arithmetic::power2::lemma2_to64();
}

/// A path with a long round trip is given longer before it is presumed dead, and none is given
/// less than five seconds.
pub proof fn patience_grows_with_distance(p: Peer, q: Peer)
    ensures
        p.patience() >= LIVENESS_DEAD_SECS * SECOND,
        (p.rtt matches Some(r) ==> p.patience() >= 8 * r),
        (p.rtt matches Some(r) && q.rtt matches Some(s) && r <= s) ==> p.patience()
            <= q.patience(),
{
}

/// A peer that cannot be reached directly connects by the relay: from the sixth check on, where
/// discovery has found no path, its handshake goes over the relay.
pub proof fn relay_takes_over(p: Peer, node: Node, now: u64)
    requires
        !p.handshaked,
        !p.disco_validated,
        !node.ladder.force_relay,
        node.ladder.relay_up,
        6 <= p.retries + 1 <= u32::MAX,
    ensures
        p.after_open(node.ladder, now).prefer_relay,
        p.after_open(node.ladder, now).rung(node.ladder) == Rung::Relay,
        p.init_packet matches Some(init) ==> p.open_sends(node, now).last()
            == crate::mesh::peer::Sent::Relay(p.pubkey@, init@),
{
    if let Some(init) = p.init_packet {
        let q = p.after_open(node.ladder, now);
        assert(q.carried(node.ladder, init@) =~= seq![
            crate::mesh::peer::Sent::Relay(p.pubkey@, init@),
        ]);
    }
}

/// A direct path gets a fair chance: the check does not move a peer to the relay before the sixth
/// time, nor where discovery has found a path, nor where there is no relay, nor once there is a
/// session.
pub proof fn direct_gets_a_chance(p: Peer, ladder: Ladder, now: u64)
    requires
        p.retries + 1 < 6 || p.disco_validated || !ladder.relay_up || ladder.force_relay
            || p.handshaked,
    ensures
        p.after_open(ladder, now).prefer_relay == p.prefer_relay,
{
}

/// Until its handshake is answered each check counts one try and repeats the first packet over the
/// peer's path, from which the round trip is then measured. A peer with a session is left alone.
pub proof fn unanswered_is_repeated(p: Peer, node: Node, now: u64)
    requires
        p.retries < u32::MAX,
    ensures
        ({
            let q = p.after_open(node.ladder, now);
            let pings = if !node.ladder.force_relay && !p.disco_validated {
                p.candidates@.len() as int
            } else {
                0
            };
            &&& !p.handshaked ==> q.retries == p.retries + 1
            &&& !p.handshaked && p.init_packet is Some ==> {
                &&& q.init_sent_at == Some(now)
                &&& p.open_sends(node, now).skip(pings) == q.carried(
                    node.ladder,
                    p.init_packet->0@,
                )
            }
            &&& p.init_packet is None || p.handshaked ==> {
                &&& q.init_sent_at == p.init_sent_at
                &&& p.open_sends(node, now).len() == pings
            }
            &&& p.handshaked ==> q.retries == p.retries
            &&& q.init_packet == p.init_packet
            &&& q.relay_pinned == p.relay_pinned
            &&& q.disco_validated == p.disco_validated
        }),
{
    let q = p.after_open(node.ladder, now);
    let pings = if !node.ladder.force_relay && !p.disco_validated {
        p.candidates@.len() as int
    } else {
        0
    };
    if !p.handshaked && p.init_packet is Some {
        assert(p.open_sends(node, now).skip(pings) =~= q.carried(
            node.ladder,
            p.init_packet->0@,
        ));
    }
}

/// As long as discovery has found no direct path, every check pings each of the peer's addresses;
/// afterwards, and where everything goes by the relay, it pings none.
pub proof fn unfound_peer_is_pinged(p: Peer, node: Node, now: u64, i: int)
    requires
        !p.disco_validated,
        !node.ladder.force_relay,
        0 <= i < p.candidates@.len(),
    ensures
        p.open_sends(node, now)[i] == crate::mesh::peer::Sent::Udp(p.candidates@[i], node.ping@),
{
}

/// A direct path that delivers again takes the peer off the relay: where the last authenticated
/// direct datagram is less than five seconds old and the peer has stayed long enough, one second
/// and twice as long for each flap.
pub proof fn recovered_path_is_taken(p: Peer, now: u64, heard: u64, pinned: u64)
    requires
        p.wf(),
        p.relay_pinned,
        p.last_recv_direct == Some(heard),
        p.pinned_at == Some(pinned),
        heard <= now,
        pinned <= now,
    ensures
        ({
            let stay: int = if p.flaps == 0 {
                1_000_000_000
            } else if p.flaps == 1 {
                2_000_000_000
            } else if p.flaps == 2 {
                4_000_000_000
            } else if p.flaps == 3 {
                8_000_000_000
            } else if p.flaps == 4 {
                16_000_000_000
            } else {
                32_000_000_000
            };
            let q = p.after_upgrade(now);
            &&& now - heard < 5_000_000_000 && now - pinned >= stay ==> {
                &&& !q.relay_pinned
                &&& !q.prefer_relay
                &&& q.last_upgrade == Some(now)
            }
            &&& now - heard >= 5_000_000_000 || now - pinned < stay ==> q == p
        }),
{
    vstd::arithmetic::power2::lemma2_to64();
}

/// Without a direct datagram since it was pinned, a peer stays on the relay; one that is not pinned
/// is left as it is.
pub proof fn only_pinned_and_heard_come_back(p: Peer, now: u64)
    requires
        !p.relay_pinned || p.last_recv_direct is None,
    ensures
        p.after_upgrade(now) == p,
{
}

/// The way back changes where packets go and nothing else.
pub proof fn way_back_keeps_the_rest(p: Peer, now: u64)
    ensures
        ({
            let q = p.after_upgrade(now);
            &&& q.handshaked == p.handshaked
            &&& q.handshake_at == p.handshake_at
            &&& q.direct_addr == p.direct_addr
            &&& q.last_recv_direct == p.last_recv_direct
            &&& q.flaps == p.flaps
            &&& q.tcp_up == p.tcp_up
            &&& q.stat == p.stat
        }),
{
}

/// A direct path is given up after five seconds of silence and after eight round trips, whichever
/// is longer, and never before both have passed.
pub proof fn silence_ends_a_direct_path(p: Peer, ladder: Ladder, now: u64, heard: u64)
    requires
        p.last_recv_direct == Some(heard),
        heard <= now,
        ladder.relay_up,
        !ladder.force_relay,
        !p.prefer_relay,
    ensures
        ({
            let long = match p.rtt {
                Some(r) => now - heard >= 8 * r,
                None => true,
            };
            p.falls_back(ladder, now) <==> now - heard >= 5_000_000_000 && long
        }),
{
}

/// A peer from which no direct datagram ever came is moved to the relay; none is moved without a
/// relay, nor where everything goes by the relay anyway, nor one that is there already.
pub proof fn who_falls_back(p: Peer, ladder: Ladder, now: u64)
    ensures
        p.last_recv_direct is None && ladder.relay_up && !ladder.force_relay && !p.prefer_relay
            ==> p.falls_back(ladder, now),
        !ladder.relay_up || ladder.force_relay || p.prefer_relay ==> !p.falls_back(ladder, now),
{
}

/// Packets over the relay or the stream do not keep a dead direct path alive: only what came in as
/// a direct datagram counts.
pub proof fn relayed_packets_do_not_count(
    p: Peer,
    ladder: Ladder,
    now: u64,
    via: crate::mesh::peer::Via,
    last_recv: Option<u64>,
)
    requires
        !(via is UdpDirect),
    ensures
        p.after_packet(None, via, now).silent(now) == p.silent(now),
        (Peer { last_recv, ..p }).falls_back(ladder, now) == p.falls_back(ladder, now),
{
}

/// A peer that is moved to the relay is pinned there and sends there, from now on, and keeps its
/// session; the flap count goes up, to five at most, exactly if the peer came back less than twenty
/// seconds ago, and starts over otherwise.
pub proof fn fallen_back_is_pinned(p: Peer, ladder: Ladder, now: u64, bytes: Seq<u8>)
    requires
        p.wf(),
        ladder.relay_up,
    ensures
        ({
            let q = p.after_fall_back(now);
            &&& q.relay_pinned
            &&& q.prefer_relay
            &&& q.pinned_at == Some(now)
            &&& q.last_recv_direct is None
            &&& q.last_recv == Some(now)
            &&& q.carried(ladder, bytes) == seq![
                crate::mesh::peer::Sent::Relay(p.pubkey@, bytes),
            ]
            &&& q.handshaked == p.handshaked
            &&& q.handshake_at == p.handshake_at
            &&& q.direct_addr == p.direct_addr
            &&& q.last_upgrade == p.last_upgrade
            &&& p.last_upgrade matches Some(up) ==> {
                &&& up <= now && now - up < 20_000_000_000 && p.flaps < 5 ==> q.flaps == p.flaps + 1
                &&& up <= now && now - up < 20_000_000_000 && p.flaps == 5 ==> q.flaps == 5
                &&& up <= now && now - up >= 20_000_000_000 ==> q.flaps == 0
            }
            &&& p.last_upgrade is None ==> q.flaps == 0
        }),
{
}

/// A session is given a new key once it is two minutes old, not before, and not without a
/// handshake.
pub proof fn sessions_age_in_two_minutes(p: Peer, now: u64, since: u64)
    requires
        since <= now,
    ensures
        p.handshake_at == Some(since) ==> (p.aged(now) <==> now - since >= 120_000_000_000),
        p.handshake_at is None ==> !p.aged(now),
{
}

/// The status shows the way that data takes: direct datagrams, the direct stream, the relay or none,
/// with the round trip in microseconds and the direct address.
pub proof fn status_shows_the_fields(p: Peer, ladder: Ladder)
    ensures
        ({
            let s = p.published(ladder);
            let direct = !ladder.force_relay && !p.prefer_relay;
            &&& !p.handshaked ==> s.transport == 0
            &&& p.handshaked && direct && !p.prefer_tcp && p.direct_addr is Some ==> s.transport
                == 1
            &&& p.handshaked && direct && p.prefer_tcp && p.tcp_up ==> s.transport == 2
            &&& p.handshaked && !direct && ladder.relay_up ==> s.transport == 3
            &&& p.rtt matches Some(r) ==> 1000 * s.rtt_us <= r < 1000 * s.rtt_us + 1000
            &&& p.rtt is None ==> s.rtt_us == 0
            &&& s.endpoint == p.direct_addr
            &&& s.rx_bytes == p.stat.rx_bytes
            &&& s.tx_bytes == p.stat.tx_bytes
            &&& s.last_handshake_unix == p.stat.last_handshake_unix
            &&& s.allowed_ips == p.stat.allowed_ips
        }),
{
}

/// A keepalive goes down the peer's path. For a peer that is pinned to the relay it also goes
/// directly, with pings to its direct address and to every other one, so that a recovered path is
/// noticed; for any other peer it goes nowhere else.
pub proof fn keepalive_probes_the_direct_path(p: Peer, node: Node, packet: Seq<u8>, i: int)
    ensures
        ({
            let s = p.keepalive_sends(node, packet);
            let first = p.carried(node.ladder, packet);
            let probes = p.relay_pinned && !node.ladder.force_relay;
            &&& s.take(first.len() as int) == first
            &&& !probes ==> s.len() == first.len()
            &&& probes && p.direct_addr is Some ==> {
                &&& s[first.len() as int] == crate::mesh::peer::Sent::Udp(
                    p.direct_addr->0,
                    packet,
                )
                &&& s[first.len() as int + 1] == crate::mesh::peer::Sent::Udp(
                    p.direct_addr->0,
                    node.ping@,
                )
            }
            &&& probes && 0 <= i < p.candidates@.len() ==> s[s.len() - p.candidates@.len() + i]
                == crate::mesh::peer::Sent::Udp(p.candidates@[i], node.ping@)
        }),
{
    let s = p.keepalive_sends(node, packet);
    let first = p.carried(node.ladder, packet);
    assert(s.take(first.len() as int) =~= first);
}

/// What a session sealed for a keepalive is told apart by its first byte: four is data, one is the
/// first packet of a handshake. Only the end that begins handshakes sends the latter, and registers
/// the index in its second word.
pub proof fn sealed_is_told_apart(own: Seq<u8>, peer: Seq<u8>, sealed: Seq<u8>)
    ensures
        is_keepalive(sealed) <==> sealed.len() > 0 && sealed[0] == 4,
        own_init(own, peer, sealed) is Some ==> sealed.len() >= 8 && sealed[0] == 1
            && crate::mesh::order::before(own, peer),
        sealed.len() >= 8 && sealed[0] == 1 && crate::mesh::order::before(own, peer) ==> own_init(
            own,
            peer,
            sealed,
        ) == crate::wire::le32_at(sealed, 4) && own_init(own, peer, sealed) is Some,
{
}

} // verus!
