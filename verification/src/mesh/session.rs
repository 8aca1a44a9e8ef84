//! What becomes of a peer when its packets are accepted: handshakes in either role, and data.

use crate::assoc::Keyed;
use crate::mesh::peer::{send_to_peer, Effect, Ladder, Peer, Via, T_DATA, T_HANDSHAKE_RESP};
use crate::net::SocketAddr;
use crate::wire::{bytes_eq, le_u32};
use vstd::prelude::*;

verus! {

/// Where a packet came from and when.
#[derive(Clone, Copy, Debug, PartialEq, Eq, Structural)]
pub struct Arrival {
    /// The source address of a datagram.
    pub from: Option<SocketAddr>,
    pub via: Via,
    /// The monotonic clock.
    pub now: u64,
    /// The wall clock, in seconds since the epoch.
    pub now_unix: u64,
}

/// Whether the peer's last accepted first packet is `bytes`.
pub open spec fn answered(p: Peer, bytes: Seq<u8>) -> bool {
    p.last_init matches Some(init) && init@ == bytes
}

/// The first peer whose last accepted first packet is `bytes`: it is retransmitting, because the
/// answer was lost.
pub fn find_retransmit(peers: &Vec<Peer>, bytes: &[u8]) -> (r: Option<usize>)
    ensures
        match r {
            Some(i) => {
                &&& i < peers@.len()
                &&& answered(peers@[i as int], bytes@)
                &&& forall|j: int| 0 <= j < i ==> !answered(#[trigger] peers@[j], bytes@)
            },
            None => forall|j: int|
                0 <= j < peers@.len() ==> !answered(#[trigger] peers@[j], bytes@),
        },
{
    let mut i: usize = 0;
    while i < peers.len()
        invariant
            i <= peers@.len(),
            forall|j: int| 0 <= j < i ==> !answered(#[trigger] peers@[j], bytes@),
        decreases peers@.len() - i,
    {
        let hit: bool = match &peers[i].last_init {
            Some(init) => bytes_eq(init.as_slice(), bytes),
            None => false,
        };
        if hit {
            return Some(i);
        }
        i += 1;
    }
    None
}

/// Whether no two peers have the same key.
pub open spec fn distinct(peers: Seq<Peer>) -> bool {
    forall|i: int, j: int|
        #![trigger peers[i], peers[j]]
        0 <= i < j < peers.len() ==> peers[i].pubkey@ != peers[j].pubkey@
}

/// The place of the peer with this key.
pub open spec fn is_place(peers: Seq<Peer>, pk: Seq<u8>, r: Option<usize>) -> bool {
    match r {
        Some(i) => {
            &&& i < peers.len()
            &&& peers[i as int].pubkey@ == pk
            &&& forall|j: int| 0 <= j < i ==> (#[trigger] peers[j]).pubkey@ != pk
        },
        None => forall|j: int| 0 <= j < peers.len() ==> (#[trigger] peers[j]).pubkey@ != pk,
    }
}

/// Finds the peer with this key.
pub fn find_peer(peers: &Vec<Peer>, pk: &[u8; 32]) -> (r: Option<usize>)
    ensures
        is_place(peers@, pk@, r),
{
    let mut i: usize = 0;
    while i < peers.len()
        invariant
            i <= peers@.len(),
            forall|j: int| 0 <= j < i ==> (#[trigger] peers@[j]).pubkey@ != pk@,
        decreases peers@.len() - i,
    {
        if peers[i].pubkey.same(pk) {
            return Some(i);
        }
        i += 1;
    }
    None
}

/// Finds the peer with this key if it has a live session, on which a first packet from it then
/// installs a new key.
pub fn find_live(peers: &Vec<Peer>, pk: &[u8; 32]) -> (r: Option<usize>)
    requires
        distinct(peers@),
    ensures
        match r {
            Some(i) => is_place(peers@, pk@, r) && peers@[i as int].handshaked,
            None => forall|j: int|
                0 <= j < peers@.len() && (#[trigger] peers@[j]).pubkey@ == pk@
                    ==> !peers@[j].handshaked,
        },
{
    match find_peer(peers, pk) {
        Some(i) => {
            if peers[i].handshaked {
                return Some(i);
            }
            assert forall|j: int|
                0 <= j < peers@.len() && (#[trigger] peers@[j]).pubkey@ == pk@ implies
                !peers@[j].handshaked by {
                if j > i {
                    assert(peers@[i as int].pubkey@ != peers@[j].pubkey@);
                }
            }
            None
        },
        None => None,
    }
}

impl Peer {
    /// The peer, as far as packets do not matter, once its first packet was accepted. A session
    /// that is built anew makes it a peer with a session; a new key on a live session leaves that
    /// as it is.
    pub open spec fn after_accept(self, a: Arrival, rebuilt: bool) -> Peer {
        Peer {
            handshaked: self.handshaked || rebuilt,
            ..self.after_session(a.from, a.via, a.now, a.now_unix)
        }
    }
}

/// Notes that a peer's first packet `init` was accepted and answered with `resp`; both are kept,
/// so that a retransmission gets the same answer. The answer is sent, and the session index that
/// it carries is handed back to be registered.
pub fn accepted(
    peer: &mut Peer,
    ladder: Ladder,
    init: Vec<u8>,
    resp: Option<Vec<u8>>,
    a: Arrival,
    rebuilt: bool,
    out: &mut Vec<Effect>,
) -> (index: Option<u32>)
    ensures
        *final(peer) == (Peer {
            last_init: Some(init),
            last_resp: match resp {
                Some(r) => Some(r),
                None => old(peer).last_resp,
            },
            ..old(peer).after_accept(a, rebuilt)
        }),
        match resp {
            Some(r) => {
                &&& index == crate::wire::le32_at(r@, 4)
                &&& crate::mesh::peer::sent(final(out)@) == crate::mesh::peer::sent(old(out)@)
                    + old(peer).after_accept(a, rebuilt).carried(ladder, r@)
            },
            None => index is None && final(out)@ == old(out)@,
        },
{
    peer.last_init = Some(init);
    peer.session_up(a.from, a.via, a.now, a.now_unix);
    if rebuilt {
        peer.handshaked = true;
    }
    match resp {
        Some(r) => {
            let index: Option<u32> = le_u32(r.as_slice(), 4);
            send_to_peer(peer, ladder, r.as_slice(), out);
            assert(peer.carried(ladder, r@) =~= old(peer).after_accept(a, rebuilt).carried(
                ladder,
                r@,
            ));
            peer.last_resp = Some(r);
            index
        },
        None => None,
    }
}

/// Answers a retransmitted first packet with the answer that was given before. The session stays
/// as it is.
pub fn resend(peer: &Peer, ladder: Ladder, out: &mut Vec<Effect>)
    ensures
        match peer.last_resp {
            Some(r) => crate::mesh::peer::sent(final(out)@) == crate::mesh::peer::sent(old(out)@)
                + peer.carried(ladder, r@),
            None => final(out)@ == old(out)@,
        },
{
    match &peer.last_resp {
        Some(r) => send_to_peer(peer, ladder, r.as_slice(), out),
        None => {},
    }
}

/// The kind of a packet for a known peer.
#[derive(Clone, Copy, Debug, PartialEq, Eq, Structural)]
pub enum PacketKind {
    /// The answer to a handshake.
    Response,
    Data,
    /// Nothing that a known peer sends.
    Unknown,
}

/// The kind of a packet by its first byte.
pub open spec fn kind_of(bytes: Seq<u8>) -> PacketKind {
    if bytes.len() > 0 && bytes[0] == T_HANDSHAKE_RESP {
        PacketKind::Response
    } else if bytes.len() > 0 && bytes[0] == T_DATA {
        PacketKind::Data
    } else {
        PacketKind::Unknown
    }
}

/// Tells the kind of a packet.
pub fn packet_kind(bytes: &[u8]) -> (k: PacketKind)
    ensures
        k == kind_of(bytes@),
{
    if bytes.len() == 0 {
        PacketKind::Unknown
    } else if bytes[0] == T_HANDSHAKE_RESP {
        PacketKind::Response
    } else if bytes[0] == T_DATA {
        PacketKind::Data
    } else {
        PacketKind::Unknown
    }
}

impl Peer {
    /// The peer once its answer to a handshake was accepted.
    pub open spec fn after_response(self, a: Arrival) -> Peer {
        Peer { handshaked: true, ..self.after_session(a.from, a.via, a.now, a.now_unix) }.after_sample(
            a.now,
        )
    }

    /// The peer once a data packet of `wire` bytes was decrypted.
    pub open spec fn after_data(self, a: Arrival, wire: nat) -> Peer {
        let p = self.after_packet(a.from, a.via, a.now);
        Peer { last_recv: Some(a.now), stat: self.stat.received(wire), ..p }
    }
}

/// Notes that the peer's answer to a handshake was accepted: the session is up and the round trip
/// is sampled. A keepalive is then due, so that the other end may send too.
pub fn response_accepted(peer: &mut Peer, a: Arrival)
    ensures
        *final(peer) == old(peer).after_response(a),
{
    peer.session_up(a.from, a.via, a.now, a.now_unix);
    peer.handshaked = true;
    peer.note_rtt(a.now);
}

/// Notes that a data packet of `wire` bytes was decrypted to `packet`, and hands on the packet. An
/// empty one is a keepalive and goes no further.
pub fn data_accepted(peer: &mut Peer, a: Arrival, wire: usize, packet: Vec<u8>) -> (r: Option<
    Vec<u8>,
>)
    ensures
        *final(peer) == old(peer).after_data(a, wire as nat),
        packet@.len() == 0 ==> r is None,
        packet@.len() > 0 ==> r == Some(packet),
{
    peer.set_path(a.from, a.via, a.now);
    peer.last_recv = Some(a.now);
    peer.stat.add_rx(wire);
    if packet.len() == 0 {
        None
    } else {
        Some(packet)
    }
}

/// A first packet that was accepted is recognised when it comes again, and gets the answer that it
/// got before; accepting it leaves the peer's other packets and its key alone.
pub proof fn retransmission_is_recognised(
    p: Peer,
    init: Vec<u8>,
    resp: Vec<u8>,
    a: Arrival,
    rebuilt: bool,
)
    ensures
        ({
            let q = Peer {
                last_init: Some(init),
                last_resp: Some(resp),
                ..p.after_accept(a, rebuilt)
            };
            &&& answered(q, init@)
            &&& q.last_resp == Some(resp)
            &&& q.pubkey == p.pubkey
            &&& q.candidates == p.candidates
        }),
{
}

/// A new key on a live session does not interrupt it: the peer keeps its session.
pub proof fn rekey_is_gapless(p: Peer, a: Arrival)
    requires
        p.handshaked,
    ensures
        p.after_accept(a, false).handshaked,
        p.after_accept(a, false).handshake_at == Some(a.now),
{
}

/// A first packet that was accepted dates the session anew and shows the peer's path; a rebuilt one
/// makes it a peer with a session.
pub proof fn accepting_dates_the_session(p: Peer, a: Arrival, rebuilt: bool)
    ensures
        ({
            let q = p.after_accept(a, rebuilt);
            &&& rebuilt ==> q.handshaked
            &&& !rebuilt ==> q.handshaked == p.handshaked
            &&& q.handshake_at == Some(a.now)
            &&& q.last_recv == Some(a.now)
            &&& q.stat.last_handshake_unix == a.now_unix
            &&& q.rung_inputs_like(p.after_packet(a.from, a.via, a.now))
            &&& q.last_init == p.last_init
            &&& q.last_resp == p.last_resp
        }),
{
}

/// The answer to a handshake gives the peer a session and closes the measurement of the round trip
/// that its first packet began.
pub proof fn response_gives_a_session(p: Peer, a: Arrival, sent_at: u64)
    requires
        p.init_sent_at == Some(sent_at),
        sent_at <= a.now,
    ensures
        ({
            let q = p.after_response(a);
            &&& q.handshaked
            &&& q.handshake_at == Some(a.now)
            &&& q.last_recv == Some(a.now)
            &&& q.stat.last_handshake_unix == a.now_unix
            &&& q.init_sent_at is None
            &&& q.rtt is Some
            &&& p.rtt is None ==> q.rtt == Some((a.now - sent_at) as u64)
            &&& q.rung_inputs_like(p.after_packet(a.from, a.via, a.now))
        }),
{
}

/// A data packet is counted as received, byte for byte on the wire, and shows the peer's path; it
/// neither makes a session nor dates one.
pub proof fn data_is_counted(p: Peer, a: Arrival, wire: nat)
    requires
        p.stat.rx_bytes + wire <= u64::MAX,
    ensures
        ({
            let q = p.after_data(a, wire);
            &&& q.stat.rx_bytes == p.stat.rx_bytes + wire
            &&& q.stat.tx_bytes == p.stat.tx_bytes
            &&& q.stat.last_handshake_unix == p.stat.last_handshake_unix
            &&& q.last_recv == Some(a.now)
            &&& q.handshaked == p.handshaked
            &&& q.handshake_at == p.handshake_at
            &&& q.rung_inputs_like(p.after_packet(a.from, a.via, a.now))
            &&& q.last_recv_direct == p.after_packet(a.from, a.via, a.now).last_recv_direct
        }),
{
}

/// The first byte tells a packet's kind: two the answer to a handshake, four data.
pub proof fn kinds_by_first_byte(bytes: Seq<u8>)
    ensures
        kind_of(bytes) == PacketKind::Response <==> bytes.len() > 0 && bytes[0] == 2,
        kind_of(bytes) == PacketKind::Data <==> bytes.len() > 0 && bytes[0] == 4,
{
}

/// Where no two peers have the same key, a key has one place at most, and a peer that has it is
/// found.
pub proof fn the_peer_is_found(peers: Seq<Peer>, i: usize, r: Option<usize>)
    requires
        distinct(peers),
        i < peers.len(),
        is_place(peers, peers[i as int].pubkey@, r),
    ensures
        r == Some(i),
{
    match r {
        Some(k) => {
            if k < i {
                assert(peers[k as int].pubkey@ != peers[i as int].pubkey@);
            }
        },
        None => {
            assert(peers[i as int].pubkey@ != peers[i as int].pubkey@);
        },
    }
}

/// A peer is found where it is first, and nobody is found only where no peer has the key.
pub proof fn the_first_is_found(peers: Seq<Peer>, pk: Seq<u8>, i: usize)
    ensures
        i < peers.len() && peers[i as int].pubkey@ == pk && (forall|j: int|
            0 <= j < i ==> (#[trigger] peers[j]).pubkey@ != pk) ==> is_place(peers, pk, Some(i)),
        is_place(peers, pk, Some(i)) ==> i < peers.len() && peers[i as int].pubkey@ == pk,
        is_place(peers, pk, None) && i < peers.len() ==> peers[i as int].pubkey@ != pk,
        peers.len() == 0 ==> is_place(peers, pk, None),
{
}

} // verus!
