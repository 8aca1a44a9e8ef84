//! Which worker a packet goes to.

use crate::assoc::Assoc;
use crate::ipv4::ip_in_cidr;
use crate::mesh::disco::{strip_magic, Disco};
use crate::mesh::index::IndexOwner;
use crate::mesh::peer::{T_HANDSHAKE_INIT, T_HANDSHAKE_RESP};
use crate::net::{IpAddr, SocketAddr};
use crate::wire::le_u32;
use vstd::prelude::*;

verus! {

/// The networks behind a peer and the worker that owns the peer.
#[derive(Debug)]
pub struct Allowed {
    pub ips: Vec<String>,
    pub wid: usize,
}

/// Whether an address lies in one of some networks.
pub open spec fn in_any(ips: Seq<String>, dst: u32) -> bool {
    exists|j: int| 0 <= j < ips.len() && crate::ipv4::in_cidr(dst, #[trigger] ips[j]@)
}

/// Whether an address lies in one of some networks.
pub fn ip_in_any(ips: &Vec<String>, dst: u32) -> (r: bool)
    ensures
        r == in_any(ips@, dst),
{
    let mut j: usize = 0;
    while j < ips.len()
        invariant
            j <= ips@.len(),
            forall|k: int| 0 <= k < j ==> !crate::ipv4::in_cidr(dst, #[trigger] ips@[k]@),
        decreases ips@.len() - j,
    {
        if ip_in_cidr(dst, ips[j].as_str()) {
            return true;
        }
        j += 1;
    }
    false
}

/// Whether entry `i` is the first whose networks hold the destination.
pub open spec fn first_route(
    allowed: Seq<([u8; 32], Allowed)>,
    ip: u32,
    i: int,
) -> bool {
    &&& 0 <= i < allowed.len()
    &&& in_any(allowed[i].1.ips@, ip)
    &&& forall|k: int| 0 <= k < i ==> !in_any((#[trigger] allowed[k]).1.ips@, ip)
}

/// Whether the destination is routed to this peer and worker, by entry `i`.
pub open spec fn routes_to(
    allowed: Seq<([u8; 32], Allowed)>,
    ip: u32,
    pk: Seq<u8>,
    wid: usize,
    i: int,
) -> bool {
    first_route(allowed, ip, i) && allowed[i].0@ == pk && allowed[i].1.wid == wid
}

/// Whether the destination is routed to this peer and worker.
pub open spec fn routed(
    allowed: Seq<([u8; 32], Allowed)>,
    ip: u32,
    to: ([u8; 32], usize),
) -> bool {
    exists|i: int| #[trigger] routes_to(allowed, ip, to.0@, to.1, i)
}

/// Whether no entry's networks hold the destination.
pub open spec fn no_route(allowed: Seq<([u8; 32], Allowed)>, ip: u32) -> bool {
    forall|i: int| 0 <= i < allowed.len() ==> !in_any((#[trigger] allowed[i]).1.ips@, ip)
}

/// The first peer that has the destination in its networks.
pub fn route_v4(ip: u32, allowed: &Assoc<[u8; 32], Allowed>) -> (r: Option<([u8; 32], usize)>)
    ensures
        r is Some ==> routed(allowed.entries@, ip, r->0),
        r is None ==> no_route(allowed.entries@, ip),
{
    let mut i: usize = 0;
    while i < allowed.entries.len()
        invariant
            i <= allowed.entries@.len(),
            forall|k: int| 0 <= k < i ==> !in_any((#[trigger] allowed.entries@[k]).1.ips@, ip),
        decreases allowed.entries@.len() - i,
    {
        if ip_in_any(&allowed.entries[i].1.ips, ip) {
            let entry = &allowed.entries[i];
            let pk = entry.0;
            let wid: usize = entry.1.wid;
            let to = (pk, wid);
            assert(routes_to(allowed.entries@, ip, to.0@, to.1, i as int));
            assert(routed(allowed.entries@, ip, to));
            return Some(to);
        }
        i += 1;
    }
    None
}

/// The peer and the worker for a packet from the tunnel, by its destination: the first peer that
/// has the destination in its networks. Only version 4 destinations are routed.
pub fn route_tun(dst: Option<IpAddr>, allowed: &Assoc<[u8; 32], Allowed>) -> (r: Option<
    ([u8; 32], usize),
>)
    ensures
        r is Some ==> (dst matches Some(IpAddr::V4(ip)) && routed(allowed.entries@, ip, r->0)),
        r is None ==> (dst matches Some(IpAddr::V4(ip)) ==> no_route(allowed.entries@, ip)),
{
    match dst {
        Some(IpAddr::V4(ip)) => route_v4(ip, allowed),
        _ => None,
    }
}

/// What a datagram is.
#[derive(Clone, Copy, Debug, PartialEq, Eq, Structural)]
pub enum Datagram {
    /// A discovery message.
    Disco,
    /// The first packet of a handshake.
    Init,
    /// A packet that carries the receiver's session index, if it is long enough.
    Indexed(Option<u32>),
}

/// What a datagram is, by its first bytes. The answer to a handshake carries the receiver's index
/// in its third word, any other packet in its second.
pub open spec fn datagram(bytes: Seq<u8>) -> Datagram {
    if crate::mesh::disco::is_disco(bytes) {
        Datagram::Disco
    } else if bytes.len() > 0 && bytes[0] == T_HANDSHAKE_INIT {
        Datagram::Init
    } else if bytes.len() > 0 && bytes[0] == T_HANDSHAKE_RESP {
        Datagram::Indexed(crate::wire::le32_at(bytes, 8))
    } else {
        Datagram::Indexed(crate::wire::le32_at(bytes, 4))
    }
}

/// Tells what a datagram is.
pub fn classify(bytes: &[u8]) -> (d: Datagram)
    ensures
        d == datagram(bytes@),
{
    if strip_magic(bytes).is_some() {
        return Datagram::Disco;
    }
    if bytes.len() > 0 && bytes[0] == T_HANDSHAKE_INIT {
        return Datagram::Init;
    }
    if bytes.len() > 0 && bytes[0] == T_HANDSHAKE_RESP {
        return Datagram::Indexed(le_u32(bytes, 8));
    }
    Datagram::Indexed(le_u32(bytes, 4))
}

/// What the map holds for a key.
pub open spec fn lookup<K>(m: Map<K, usize>, k: K) -> Option<usize> {
    if m.dom().contains(k) {
        Some(m[k])
    } else {
        None
    }
}

/// The worker for a datagram: a ping goes by its sender, a pong by the address that it came from,
/// a handshake's first packet by the sender that it reveals, anything else by its session index.
pub open spec fn udp_worker(
    bytes: Seq<u8>,
    from: SocketAddr,
    message: Option<Disco>,
    revealed: Option<[u8; 32]>,
    peers: Map<Seq<u8>, usize>,
    candidates: Map<SocketAddr, usize>,
    owner: Map<u32, usize>,
) -> Option<usize> {
    match datagram(bytes) {
        Datagram::Disco => match message {
            Some(Disco::Ping { tx_id, sender }) => lookup(peers, sender@),
            Some(Disco::Pong { tx_id, observed }) => lookup(candidates, from),
            _ => None,
        },
        Datagram::Init => match revealed {
            Some(pk) => lookup(peers, pk@),
            None => None,
        },
        Datagram::Indexed(Some(i)) => lookup(owner, i),
        Datagram::Indexed(None) => None,
    }
}

/// The worker that owns the peer with this key.
fn worker_of(peers: &Assoc<[u8; 32], usize>, pk: &[u8; 32]) -> (r: Option<usize>)
    requires
        peers.wf(),
    ensures
        r == lookup(peers@, pk@),
{
    match peers.get(pk) {
        Some(w) => Some(*w),
        None => None,
    }
}

/// Routes a datagram. `message` is what a discovery datagram decodes to, `revealed` the key that
/// the first packet of a handshake decrypts to.
pub fn route_udp(
    bytes: &[u8],
    from: SocketAddr,
    message: &Option<Disco>,
    revealed: &Option<[u8; 32]>,
    peers: &Assoc<[u8; 32], usize>,
    candidates: &Assoc<SocketAddr, usize>,
    owner: &IndexOwner,
) -> (r: Option<usize>)
    requires
        peers.wf(),
        candidates.wf(),
    ensures
        r == udp_worker(bytes@, from, *message, *revealed, peers@, candidates@, owner@),
{
    match classify(bytes) {
        Datagram::Disco => match message {
            Some(Disco::Ping { tx_id, sender }) => worker_of(peers, sender),
            Some(Disco::Pong { tx_id, observed }) => match candidates.get(&from) {
                Some(w) => Some(*w),
                None => None,
            },
            _ => None,
        },
        Datagram::Init => match revealed {
            Some(pk) => worker_of(peers, pk),
            None => None,
        },
        Datagram::Indexed(Some(i)) => owner.get(i),
        Datagram::Indexed(None) => None,
    }
}

/// The worker for a frame from the relay or a direct stream, which names its sender: the first
/// packet of a handshake goes by the sender that it reveals, anything else by the one named.
pub open spec fn framed_worker(
    bytes: Seq<u8>,
    src: Seq<u8>,
    revealed: Option<[u8; 32]>,
    peers: Map<Seq<u8>, usize>,
) -> Option<usize> {
    if bytes.len() > 0 && bytes[0] == T_HANDSHAKE_INIT {
        match revealed {
            Some(pk) => lookup(peers, pk@),
            None => None,
        }
    } else {
        lookup(peers, src)
    }
}

/// Routes a frame from the relay or a direct stream.
pub fn route_framed(
    bytes: &[u8],
    src: &[u8; 32],
    revealed: &Option<[u8; 32]>,
    peers: &Assoc<[u8; 32], usize>,
) -> (r: Option<usize>)
    requires
        peers.wf(),
    ensures
        r == framed_worker(bytes@, src@, *revealed, peers@),
{
    if bytes.len() > 0 && bytes[0] == T_HANDSHAKE_INIT {
        match revealed {
            Some(pk) => worker_of(peers, pk),
            None => None,
        }
    } else {
        worker_of(peers, src)
    }
}

/// A peer that no table knows gets nothing routed: neither its pings nor its handshakes nor frames
/// that name it.
pub proof fn unknown_sender_is_not_routed(
    bytes: Seq<u8>,
    from: SocketAddr,
    pk: [u8; 32],
    tx_id: [u8; 12],
    peers: Map<Seq<u8>, usize>,
    candidates: Map<SocketAddr, usize>,
    owner: Map<u32, usize>,
)
    requires
        !peers.dom().contains(pk@),
    ensures
        datagram(bytes) == Datagram::Disco ==> udp_worker(
            bytes,
            from,
            Some(Disco::Ping { tx_id, sender: pk }),
            None,
            peers,
            candidates,
            owner,
        ) is None,
        datagram(bytes) == Datagram::Init ==> udp_worker(
            bytes,
            from,
            None,
            Some(pk),
            peers,
            candidates,
            owner,
        ) is None,
        framed_worker(bytes, pk@, Some(pk), peers) is None,
{
}

/// Datagrams are told apart by their first bytes: `fpd1` begins discovery, one a handshake. Any
/// other packet carries the receiver's index, least significant byte first, in its third word if it
/// answers a handshake and in its second otherwise.
pub proof fn datagrams_by_first_bytes(bytes: Seq<u8>)
    ensures
        bytes.len() >= 4 && bytes[0] == 0x66 && bytes[1] == 0x70 && bytes[2] == 0x64 && bytes[3]
            == 0x31 <==> datagram(bytes) == Datagram::Disco,
        bytes.len() > 0 && bytes[0] == 1 <==> datagram(bytes) == Datagram::Init,
        bytes.len() >= 12 && bytes[0] == 2 ==> datagram(bytes) == Datagram::Indexed(
            Some(
                (bytes[8] + bytes[9] * 256 + bytes[10] * 65536 + bytes[11] * 16777216) as u32,
            ),
        ),
        bytes.len() >= 8 && bytes[0] == 4 ==> datagram(bytes) == Datagram::Indexed(
            Some((bytes[4] + bytes[5] * 256 + bytes[6] * 65536 + bytes[7] * 16777216) as u32),
        ),
        bytes.len() < 8 && !(bytes.len() > 0 && bytes[0] == 1) && datagram(bytes)
            != Datagram::Disco ==> datagram(bytes) == Datagram::Indexed(None),
{
    if bytes.len() >= 4 {
        let t = bytes.take(4);
        assert(t[0] == bytes[0] && t[1] == bytes[1] && t[2] == bytes[2] && t[3] == bytes[3]);
        let m = crate::mesh::disco::magic();
        assert(m.len() == 4 && m[0] == 0x66 && m[1] == 0x70 && m[2] == 0x64 && m[3] == 0x31);
        if bytes[0] == 0x66 && bytes[1] == 0x70 && bytes[2] == 0x64 && bytes[3] == 0x31 {
            assert(t =~= m);
        }
    }
}

/// Every datagram of a known peer reaches the worker that owns it: a ping by who sent it, a pong by
/// where it came from, a handshake by whom it reveals, anything else by the index that was given
/// out.
pub proof fn datagrams_reach_the_owner(
    bytes: Seq<u8>,
    from: SocketAddr,
    pk: [u8; 32],
    tx_id: [u8; 12],
    observed: SocketAddr,
    idx: u32,
    wid: usize,
    peers: Map<Seq<u8>, usize>,
    candidates: Map<SocketAddr, usize>,
    owner: Map<u32, usize>,
)
    ensures
        datagram(bytes) == Datagram::Disco && peers.dom().contains(pk@) && peers[pk@] == wid
            ==> udp_worker(
            bytes,
            from,
            Some(Disco::Ping { tx_id, sender: pk }),
            None,
            peers,
            candidates,
            owner,
        ) == Some(wid),
        datagram(bytes) == Datagram::Disco && candidates.dom().contains(from) && candidates[from]
            == wid ==> udp_worker(
            bytes,
            from,
            Some(Disco::Pong { tx_id, observed }),
            None,
            peers,
            candidates,
            owner,
        ) == Some(wid),
        datagram(bytes) == Datagram::Init && peers.dom().contains(pk@) && peers[pk@] == wid
            ==> udp_worker(bytes, from, None, Some(pk), peers, candidates, owner) == Some(wid),
        datagram(bytes) == Datagram::Indexed(Some(idx)) && owner.dom().contains(idx) && owner[idx]
            == wid ==> udp_worker(bytes, from, None, None, peers, candidates, owner) == Some(wid),
        datagram(bytes) == Datagram::Indexed(Some(idx)) && !owner.dom().contains(idx)
            ==> udp_worker(bytes, from, None, None, peers, candidates, owner) is None,
{
}

/// A frame reaches the worker of the peer that it names, or of the one that it reveals if it begins
/// a handshake.
pub proof fn frames_reach_the_owner(
    bytes: Seq<u8>,
    src: [u8; 32],
    pk: [u8; 32],
    peers: Map<Seq<u8>, usize>,
)
    requires
        peers.dom().contains(src@),
        peers.dom().contains(pk@),
    ensures
        bytes.len() > 0 && bytes[0] == 1 ==> framed_worker(bytes, src@, Some(pk), peers) == Some(
            peers[pk@],
        ),
        bytes.len() > 0 && bytes[0] == 1 ==> framed_worker(bytes, src@, None, peers) is None,
        bytes.len() == 0 || bytes[0] != 1 ==> framed_worker(bytes, src@, Some(pk), peers) == Some(
            peers[src@],
        ),
{
}

/// A packet from the tunnel goes to the first peer with a network that holds its destination, and
/// to the worker that owns that peer.
pub proof fn tunnel_packets_find_their_peer(
    allowed: Seq<([u8; 32], Allowed)>,
    ip: u32,
    to: ([u8; 32], usize),
    i: int,
    j: int,
)
    requires
        routed(allowed, ip, to),
        0 <= i < allowed.len(),
        0 <= j < allowed[i].1.ips@.len(),
        crate::ipv4::in_cidr(ip, allowed[i].1.ips@[j]@),
        forall|k: int, l: int|
            #![trigger allowed[k].1.ips@[l]]
            0 <= k < i && 0 <= l < allowed[k].1.ips@.len() ==> !crate::ipv4::in_cidr(
                ip,
                allowed[k].1.ips@[l]@,
            ),
    ensures
        to.0@ == allowed[i].0@,
        to.1 == allowed[i].1.wid,
{
    let m = choose|m: int| #[trigger] routes_to(allowed, ip, to.0@, to.1, m);
    assert(in_any(allowed[i].1.ips@, ip));
    if m < i {
        assert(in_any(allowed[m].1.ips@, ip));
        let l = choose|l: int|
            0 <= l < allowed[m].1.ips@.len() && crate::ipv4::in_cidr(
                ip,
                #[trigger] allowed[m].1.ips@[l]@,
            );
        assert(!crate::ipv4::in_cidr(ip, allowed[m].1.ips@[l]@));
    }
    if i < m {
        assert(!in_any(allowed[i].1.ips@, ip));
    }
}

/// A packet whose destination some peer's network holds is routed.
pub proof fn held_destinations_are_routed(
    allowed: Seq<([u8; 32], Allowed)>,
    ip: u32,
    i: int,
    j: int,
)
    requires
        0 <= i < allowed.len(),
        0 <= j < allowed[i].1.ips@.len(),
        crate::ipv4::in_cidr(ip, allowed[i].1.ips@[j]@),
    ensures
        !no_route(allowed, ip),
{
    assert(in_any(allowed[i].1.ips@, ip));
}

/// A destination goes to the first member whose networks hold it, wherever that member stands.
pub proof fn first_holder_gets_it(allowed: Seq<([u8; 32], Allowed)>, ip: u32, i: int, j: int)
    requires
        0 <= i < allowed.len(),
        0 <= j < allowed[i].1.ips@.len(),
        crate::ipv4::in_cidr(ip, allowed[i].1.ips@[j]@),
        forall|k: int| 0 <= k < i ==> !in_any((#[trigger] allowed[k]).1.ips@, ip),
    ensures
        routed(allowed, ip, (allowed[i].0, allowed[i].1.wid)),
        !no_route(allowed, ip),
{
    assert(in_any(allowed[i].1.ips@, ip));
    let to = (allowed[i].0, allowed[i].1.wid);
    assert(routes_to(allowed, ip, to.0@, to.1, i));
}

/// An address is in some networks exactly if one of them holds it.
pub proof fn in_one_of_them(ips: Seq<String>, ip: u32)
    ensures
        ips.len() == 0 ==> !in_any(ips, ip),
        ips.len() == 1 ==> in_any(ips, ip) == crate::ipv4::in_cidr(ip, ips[0]@),
{
}

} // verus!
