//! What a worker does about packets, connections and changes of the network.

use crate::mesh::disco::Disco;
use crate::mesh::gso::{Flush, GsoBatch};
use crate::mesh::index::IndexOwner;
use crate::mesh::order::begins;
use crate::mesh::peer::{push_all, send_to_peer, Effect, Ladder, Peer, Sent, T_HANDSHAKE_INIT};
use crate::mesh::route::{classify, Datagram};
use crate::mesh::session::{
    accepted, data_accepted, find_live, find_peer, find_retransmit, resend, response_accepted,
    Arrival,
};
use crate::mesh::status::PeerStat;
use crate::mesh::worker::Worker;
use crate::net::SocketAddr;
use crate::wire::le_u32;
use vstd::prelude::*;

verus! {

impl Peer {
    /// The peer once discovery has shown that it is reached at `from`. A peer that is pinned to
    /// the relay stays there.
    pub open spec fn learned(self, from: SocketAddr) -> Peer {
        Peer {
            direct_addr: Some(from),
            prefer_relay: if self.relay_pinned {
                self.prefer_relay
            } else {
                false
            },
            disco_validated: true,
            ..self
        }
    }

    /// Whether a pong from `from` may be this peer's.
    pub open spec fn reached_at(self, from: SocketAddr) -> bool {
        self.candidates@.contains(from) || self.direct_addr == Some(from)
    }

    /// The peer once its direct stream came up or went down. A newer stream wins, and the end of an
    /// older one is ignored.
    pub open spec fn after_stream(self, conn_gen: u64, up: bool) -> Peer {
        if up {
            Peer { tcp_up: true, tcp_gen: conn_gen, ..self }
        } else if self.tcp_gen == conn_gen {
            Peer { tcp_up: false, ..self }
        } else {
            self
        }
    }
}

/// Whether some addresses hold an address.
fn holds(addrs: &Vec<SocketAddr>, a: SocketAddr) -> (r: bool)
    ensures
        r == addrs@.contains(a),
{
    let mut i: usize = 0;
    while i < addrs.len()
        invariant
            i <= addrs@.len(),
            forall|j: int| 0 <= j < i ==> #[trigger] addrs@[j] != a,
        decreases addrs@.len() - i,
    {
        if addrs[i] == a {
            assert(addrs@[i as int] == a);
            return true;
        }
        i += 1;
    }
    false
}

/// The peers once the one at a place was changed.
pub open spec fn changed(peers: Seq<Peer>, at: Option<usize>, p: spec_fn(Peer) -> Peer) -> Seq<
    Peer,
> {
    match at {
        Some(i) => peers.update(i as int, p(peers[i as int])),
        None => peers,
    }
}

/// What a worker does about the first packet of a handshake.
#[derive(Clone, Copy, Debug, PartialEq, Eq, Structural)]
pub enum InitPlan {
    /// It was answered before; the answer is repeated.
    Repeat,
    /// It comes from a peer with a live session, on which it installs a new key.
    Rekey(usize),
    /// A session is built anew for whoever it comes from.
    Rebuild,
}

/// What came of handing the first packet of a handshake to a live session.
#[derive(Debug)]
pub enum RekeyReply {
    /// The session has a new key; this is its answer, if there is one to be sent.
    Answered(Option<Vec<u8>>),
    /// The session could not take it.
    Failed,
}

/// What a received packet is to a worker.
#[derive(Clone, Copy, Debug, PartialEq, Eq, Structural)]
pub enum Inbound {
    /// A discovery message.
    Disco,
    /// The first packet of a handshake.
    Init,
    /// A packet of the session with the peer at this place.
    Session(usize),
    /// Nothing that the worker has anything to do with.
    Nobody,
}

/// Whether a packet is one of the session with the peer that has this key, or of nobody where no
/// peer has it.
pub open spec fn is_for(peers: Seq<Peer>, pk: Seq<u8>, r: Inbound) -> bool {
    match r {
        Inbound::Session(pos) => crate::mesh::session::is_place(peers, pk, Some(pos)),
        Inbound::Nobody => crate::mesh::session::is_place(peers, pk, None),
        _ => false,
    }
}

/// What a worker is told.
#[derive(Clone, Copy, Debug, PartialEq, Eq, Structural)]
pub enum Told {
    /// A packet from the tunnel.
    Egress,
    /// A direct stream came up or went down.
    Stream,
    /// A peer has joined.
    Joined,
    /// A peer was removed.
    Removed,
    /// A peer is reached elsewhere.
    Moved,
    /// It is time for the periodic check.
    Tick,
    /// A datagram, or a frame from the relay or a direct stream.
    Packet,
}

/// Whether the batch of datagrams that waits is sent before a worker does what it is told: before
/// everything that may itself send, so that packets keep their order.
pub fn flushes_first(t: Told) -> (r: bool)
    ensures
        r == (t != Told::Egress && t != Told::Stream && t != Told::Removed),
{
    match t {
        Told::Egress => false,
        Told::Stream => false,
        Told::Removed => false,
        _ => true,
    }
}

impl Worker {
    /// The peer that a datagram is for, by the session index that it carries.
    pub fn udp_target(&self, bytes: &[u8]) -> (r: Option<usize>)
        ensures
            match crate::mesh::route::datagram(bytes@) {
                Datagram::Indexed(Some(idx)) if self.index@.dom().contains(idx) =>
                    crate::mesh::session::is_place(self.peers@, self.index@[idx]@, r),
                _ => r is None,
            },
    {
        match classify(bytes) {
            Datagram::Indexed(Some(idx)) => match self.index.get(idx) {
                Some(pk) => find_peer(&self.peers, &pk),
                None => None,
            },
            _ => None,
        }
    }

    /// What a datagram is to this worker: a discovery message, the first packet of a handshake, or
    /// a packet of the session that its index belongs to.
    pub fn inbound_udp(&self, bytes: &[u8]) -> (r: Inbound)
        ensures
            match crate::mesh::route::datagram(bytes@) {
                Datagram::Disco => r is Disco,
                Datagram::Init => r is Init,
                Datagram::Indexed(Some(idx)) if self.index@.dom().contains(idx) => is_for(
                    self.peers@,
                    self.index@[idx]@,
                    r,
                ),
                Datagram::Indexed(_) => r is Nobody,
            },
    {
        match classify(bytes) {
            Datagram::Disco => Inbound::Disco,
            Datagram::Init => Inbound::Init,
            Datagram::Indexed(_) => match self.udp_target(bytes) {
                Some(pos) => Inbound::Session(pos),
                None => Inbound::Nobody,
            },
        }
    }

    /// What a frame from the relay or a direct stream is to this worker: the first packet of a
    /// handshake, or a packet of the session with the sender that the frame names.
    pub fn inbound_framed(&self, src: &[u8; 32], bytes: &[u8]) -> (r: Inbound)
        ensures
            if bytes@.len() > 0 && bytes@[0] == T_HANDSHAKE_INIT {
                r is Init
            } else {
                is_for(self.peers@, src@, r)
            },
    {
        if bytes.len() > 0 && bytes[0] == T_HANDSHAKE_INIT {
            return Inbound::Init;
        }
        match find_peer(&self.peers, src) {
            Some(pos) => Inbound::Session(pos),
            None => Inbound::Nobody,
        }
    }

    /// Decides about the first packet of a handshake. `revealed` is the key of the sender, if it
    /// could be told without touching a session. A packet that was answered before is answered in
    /// the same way again.
    pub fn plan_init(
        &self,
        bytes: &[u8],
        revealed: &Option<[u8; 32]>,
        out: &mut Vec<Effect>,
    ) -> (plan: InitPlan)
        requires
            self.wf(),
        ensures
            plan == InitPlan::Repeat <==> exists|i: int|
                0 <= i < self.peers@.len() && crate::mesh::session::answered(
                    #[trigger] self.peers@[i],
                    bytes@,
                ),
            plan == InitPlan::Repeat ==> exists|i: int|
                {
                    &&& 0 <= i < self.peers@.len()
                    &&& crate::mesh::session::answered(#[trigger] self.peers@[i], bytes@)
                    &&& forall|j: int|
                        0 <= j < i ==> !crate::mesh::session::answered(
                            #[trigger] self.peers@[j],
                            bytes@,
                        )
                    &&& crate::mesh::peer::sent(final(out)@) == crate::mesh::peer::sent(old(out)@)
                        + match self.peers@[i].last_resp {
                        Some(r) => self.peers@[i].carried(self.node.ladder, r@),
                        None => seq![],
                    }
                },
            plan != InitPlan::Repeat ==> final(out)@ == old(out)@,
            plan matches InitPlan::Rekey(i) ==> {
                &&& *revealed is Some
                &&& crate::mesh::session::is_place(self.peers@, (*revealed)->0@, Some(i))
                &&& self.peers@[i as int].handshaked
            },
            plan == InitPlan::Rebuild ==> (*revealed matches Some(pk) ==> forall|j: int|
                0 <= j < self.peers@.len() && (#[trigger] self.peers@[j]).pubkey@ == pk@
                    ==> !self.peers@[j].handshaked),
    {
        match find_retransmit(&self.peers, bytes) {
            Some(i) => {
                resend(&self.peers[i], self.node.ladder, out);
                assert(crate::mesh::session::answered(self.peers@[i as int], bytes@));
                assert(crate::mesh::peer::sent(out@) =~= crate::mesh::peer::sent(old(out)@)
                    + match self.peers@[i as int].last_resp {
                    Some(r) => self.peers@[i as int].carried(self.node.ladder, r@),
                    None => seq![],
                });
                return InitPlan::Repeat;
            },
            None => {},
        }
        match revealed {
            Some(pk) => match find_live(&self.peers, pk) {
                Some(i) => InitPlan::Rekey(i),
                None => InitPlan::Rebuild,
            },
            None => InitPlan::Rebuild,
        }
    }

    /// Takes in that the first packet `init` from the peer `pk` was accepted and answered with
    /// `resp`: a peer that is not known gets nothing. Says whether the peer is known.
    pub fn init_accepted(
        &mut self,
        owner: &mut IndexOwner,
        pk: &[u8; 32],
        init: Vec<u8>,
        resp: Option<Vec<u8>>,
        a: Arrival,
        rebuilt: bool,
        out: &mut Vec<Effect>,
    ) -> (r: Option<usize>)
        requires
            old(self).wf(),
        ensures
            final(self).wf(),
            final(self).node == old(self).node,
            final(self).index.wid == old(self).index.wid,
            crate::mesh::session::is_place(old(self).peers@, pk@, r),
            match r {
                Some(i) => {
                    let p = old(self).peers@[i as int];
                    let index = match resp {
                        Some(x) => crate::wire::le32_at(x@, 4),
                        None => None,
                    };
                    &&& final(self).peers@ == old(self).peers@.update(
                        i as int,
                        Peer {
                            last_init: Some(init),
                            last_resp: match resp {
                                Some(x) => Some(x),
                                None => p.last_resp,
                            },
                            ..p.after_accept(a, rebuilt)
                        },
                    )
                    &&& final(self).index@ == crate::mesh::worker::registered(
                        old(self).index@,
                        index,
                        *pk,
                    )
                    &&& final(owner)@ == crate::mesh::worker::owned(
                        old(owner)@,
                        index,
                        old(self).index.wid,
                    )
                    &&& crate::mesh::peer::sent(final(out)@) == crate::mesh::peer::sent(old(out)@)
                        + match resp {
                        Some(x) => p.after_accept(a, rebuilt).carried(old(self).node.ladder, x@),
                        None => seq![],
                    }
                },
                None => {
                    &&& final(self).peers@ == old(self).peers@
                    &&& final(self).index@ == old(self).index@
                    &&& final(owner)@ == old(owner)@
                    &&& final(out)@ == old(out)@
                },
            },
    {
        match find_peer(&self.peers, pk) {
            Some(i) => {
                let ghost start = self.peers@;
                let ghost sent0 = crate::mesh::peer::sent(out@);
                let index: Option<u32> = accepted(
                    &mut self.peers[i],
                    self.node.ladder,
                    init,
                    resp,
                    a,
                    rebuilt,
                    out,
                );
                proof {
                    assert(self.peers@ =~= start.update(i as int, self.peers@[i as int]));
                    crate::mesh::worker::keeps_distinct(start, i as int, self.peers@[i as int]);
                    assert(crate::mesh::peer::sent(out@) =~= sent0 + match resp {
                        Some(x) => start[i as int].after_accept(a, rebuilt).carried(
                            self.node.ladder,
                            x@,
                        ),
                        None => seq![],
                    });
                }
                match index {
                    Some(idx) => self.index.insert(owner, idx, *pk),
                    None => {},
                }
                Some(i)
            },
            None => None,
        }
    }

    /// Takes in what the live session of the peer at `pos` made of the first packet `init`. Says
    /// whether a session has to be built anew after all; nothing has changed then.
    pub fn rekey_replied(
        &mut self,
        owner: &mut IndexOwner,
        pos: usize,
        init: Vec<u8>,
        reply: RekeyReply,
        a: Arrival,
        out: &mut Vec<Effect>,
    ) -> (rebuild: bool)
        requires
            old(self).wf(),
            pos < old(self).peers@.len(),
        ensures
            final(self).wf(),
            final(self).node == old(self).node,
            final(self).index.wid == old(self).index.wid,
            rebuild == (reply is Failed),
            match reply {
                RekeyReply::Failed => {
                    &&& *final(self) == *old(self)
                    &&& *final(owner) == *old(owner)
                    &&& final(out)@ == old(out)@
                },
                RekeyReply::Answered(resp) => {
                    let p = old(self).peers@[pos as int];
                    let index = match resp {
                        Some(x) => crate::wire::le32_at(x@, 4),
                        None => None,
                    };
                    &&& final(self).peers@ == old(self).peers@.update(
                        pos as int,
                        Peer {
                            last_init: Some(init),
                            last_resp: match resp {
                                Some(x) => Some(x),
                                None => p.last_resp,
                            },
                            ..p.after_accept(a, false)
                        },
                    )
                    &&& final(self).index@ == crate::mesh::worker::registered(
                        old(self).index@,
                        index,
                        p.pubkey,
                    )
                    &&& final(owner)@ == crate::mesh::worker::owned(
                        old(owner)@,
                        index,
                        old(self).index.wid,
                    )
                    &&& crate::mesh::peer::sent(final(out)@) == crate::mesh::peer::sent(old(out)@)
                        + match resp {
                        Some(x) => p.after_accept(a, false).carried(old(self).node.ladder, x@),
                        None => seq![],
                    }
                },
            },
    {
        match reply {
            RekeyReply::Failed => true,
            RekeyReply::Answered(resp) => {
                let pk = self.peers[pos].pubkey;
                let at = self.init_accepted(owner, &pk, init, resp, a, false, out);
                assert(at == Some(pos)) by {
                    let peers = old(self).peers@;
                    if let Some(i) = at {
                        if i < pos {
                            assert(peers[i as int].pubkey@ != peers[pos as int].pubkey@);
                        }
                    }
                    assert(peers[pos as int].pubkey@ == pk@);
                }
                false
            },
        }
    }

    /// Takes in that the answer to a handshake from the peer at `pos` was accepted. `keepalive` is
    /// the empty packet that its session then sealed, if it could; it lets the other end send.
    pub fn response_in(
        &mut self,
        pos: usize,
        a: Arrival,
        keepalive: &Option<Vec<u8>>,
        out: &mut Vec<Effect>,
    )
        requires
            old(self).wf(),
            pos < old(self).peers@.len(),
        ensures
            final(self).wf(),
            final(self).node == old(self).node,
            final(self).index == old(self).index,
            final(self).peers@ == old(self).peers@.update(
                pos as int,
                old(self).peers@[pos as int].after_response(a),
            ),
            crate::mesh::peer::sent(final(out)@) == crate::mesh::peer::sent(old(out)@)
                + match *keepalive {
                Some(k) => old(self).peers@[pos as int].after_response(a).carried(
                    old(self).node.ladder,
                    k@,
                ),
                None => seq![],
            },
    {
        let ghost start = self.peers@;
        response_accepted(&mut self.peers[pos], a);
        proof {
            assert(self.peers@ =~= start.update(pos as int, self.peers@[pos as int]));
            crate::mesh::worker::keeps_distinct(start, pos as int, self.peers@[pos as int]);
        }
        match keepalive {
            Some(k) => send_to_peer(&self.peers[pos], self.node.ladder, k.as_slice(), out),
            None => {
                assert(crate::mesh::peer::sent(out@) =~= crate::mesh::peer::sent(old(out)@)
                    + Seq::<Sent>::empty());
            },
        }
    }

    /// Takes in that a data packet of `wire` bytes from the peer at `pos` was decrypted; gives the
    /// packet for the tunnel, if it is one.
    pub fn data_in(&mut self, pos: usize, a: Arrival, wire: usize, packet: Vec<u8>) -> (r: Option<
        Vec<u8>,
    >)
        requires
            old(self).wf(),
            pos < old(self).peers@.len(),
        ensures
            final(self).wf(),
            final(self).node == old(self).node,
            final(self).index == old(self).index,
            final(self).peers@ == old(self).peers@.update(
                pos as int,
                old(self).peers@[pos as int].after_data(a, wire as nat),
            ),
            packet@.len() == 0 ==> r is None,
            packet@.len() > 0 ==> r == Some(packet),
    {
        let ghost start = self.peers@;
        let r = data_accepted(&mut self.peers[pos], a, wire, packet);
        proof {
            assert(self.peers@ =~= start.update(pos as int, self.peers@[pos as int]));
            crate::mesh::worker::keeps_distinct(start, pos as int, self.peers@[pos as int]);
        }
        r
    }

    /// Takes in a discovery message from `from`. A ping is answered with the address that it came
    /// from, and its sender, if known, is reached there from now on; a pong shows the same of the
    /// peer that was pinged at that address.
    pub fn on_disco(&mut self, from: SocketAddr, message: &Disco) -> (reply: Option<Disco>)
        requires
            old(self).wf(),
        ensures
            final(self).wf(),
            final(self).node == old(self).node,
            final(self).index == old(self).index,
            match *message {
                Disco::Ping { tx_id, sender } => {
                    &&& reply == Some(Disco::Pong { tx_id, observed: from })
                    &&& exists|at: Option<usize>| #[trigger]
                        crate::mesh::session::is_place(old(self).peers@, sender@, at)
                            && final(self).peers@ == changed(
                            old(self).peers@,
                            at,
                            |p: Peer| p.learned(from),
                        )
                },
                Disco::Pong { tx_id, observed } => {
                    &&& reply is None
                    &&& exists|at: Option<usize>| #[trigger]
                        first_reached(old(self).peers@, from, at) && final(self).peers@ == changed(
                            old(self).peers@,
                            at,
                            |p: Peer| p.learned(from),
                        )
                },
                Disco::Other => reply is None && final(self).peers@ == old(self).peers@,
            },
    {
        match message {
            Disco::Ping { tx_id, sender } => {
                let at = find_peer(&self.peers, sender);
                self.learn(at, from);
                assert(crate::mesh::session::is_place(old(self).peers@, sender@, at));
                Some(Disco::Pong { tx_id: *tx_id, observed: from })
            },
            Disco::Pong { tx_id, observed } => {
                let at = self.find_reached(from);
                self.learn(at, from);
                assert(first_reached(old(self).peers@, from, at));
                None
            },
            Disco::Other => None,
        }
    }

    /// The first peer that a pong from `from` may be from.
    fn find_reached(&self, from: SocketAddr) -> (r: Option<usize>)
        ensures
            first_reached(self.peers@, from, r),
    {
        let mut i: usize = 0;
        while i < self.peers.len()
            invariant
                i <= self.peers@.len(),
                forall|j: int| 0 <= j < i ==> !(#[trigger] self.peers@[j]).reached_at(from),
            decreases self.peers@.len() - i,
        {
            let direct: bool = match self.peers[i].direct_addr {
                Some(a) => a == from,
                None => false,
            };
            if direct || holds(&self.peers[i].candidates, from) {
                return Some(i);
            }
            i += 1;
        }
        None
    }

    /// Notes where a peer is reached.
    fn learn(&mut self, at: Option<usize>, from: SocketAddr)
        requires
            old(self).wf(),
            at matches Some(i) ==> i < old(self).peers@.len(),
        ensures
            final(self).wf(),
            final(self).node == old(self).node,
            final(self).index == old(self).index,
            final(self).peers@ == changed(old(self).peers@, at, |p: Peer| p.learned(from)),
    {
        let ghost start = self.peers@;
        if let Some(i) = at {
            let p: &mut Peer = &mut self.peers[i];
            p.direct_addr = Some(from);
            if !p.relay_pinned {
                p.prefer_relay = false;
            }
            p.disco_validated = true;
            proof {
                assert(self.peers@ =~= start.update(i as int, start[i as int].learned(from)));
                crate::mesh::worker::keeps_distinct(start, i as int, start[i as int].learned(from));
            }
        }
    }

    /// Takes in that the direct stream of generation `conn_gen` to a peer came up or went down.
    pub fn on_tcp_conn(&mut self, pk: &[u8; 32], conn_gen: u64, up: bool)
        requires
            old(self).wf(),
        ensures
            final(self).wf(),
            final(self).node == old(self).node,
            final(self).index == old(self).index,
            exists|at: Option<usize>| #[trigger]
                crate::mesh::session::is_place(old(self).peers@, pk@, at) && final(self).peers@
                    == changed(old(self).peers@, at, |p: Peer| p.after_stream(conn_gen, up)),
    {
        let ghost start = self.peers@;
        let at = find_peer(&self.peers, pk);
        if let Some(i) = at {
            let p: &mut Peer = &mut self.peers[i];
            if up {
                p.tcp_up = true;
                p.tcp_gen = conn_gen;
            } else if p.tcp_gen == conn_gen {
                p.tcp_up = false;
            }
            proof {
                let q = start[i as int].after_stream(conn_gen, up);
                assert(self.peers@ =~= start.update(i as int, q));
                crate::mesh::worker::keeps_distinct(start, i as int, q);
            }
        }
        assert(crate::mesh::session::is_place(start, pk@, at));
    }

    /// Takes in a peer that has joined: it is known from now on and its addresses are pinged. A
    /// peer that is already known stays as it is. Says whether the peer is new, so that a handshake
    /// may be begun.
    pub fn add_peer(
        &mut self,
        pubkey: [u8; 32],
        candidates: Vec<SocketAddr>,
        allowed_ips: Vec<String>,
        out: &mut Vec<Effect>,
    ) -> (added: bool)
        requires
            old(self).wf(),
        ensures
            final(self).wf(),
            final(self).node == old(self).node,
            final(self).index == old(self).index,
            added == crate::mesh::session::is_place(old(self).peers@, pubkey@, None),
            !added ==> final(self).peers@ == old(self).peers@ && final(out)@ == old(out)@,
            added ==> {
                &&& final(self).peers@ == old(self).peers@.push(
                    Peer::unmet(
                        pubkey,
                        candidates,
                        old(self).node.ladder.force_relay,
                        PeerStat::unused(allowed_ips),
                    ),
                )
                &&& crate::mesh::peer::sent(final(out)@) == crate::mesh::peer::sent(old(out)@) + (
                if old(self).node.ladder.force_relay {
                    seq![]
                } else {
                    crate::mesh::peer::datagrams(candidates@, old(self).node.ping@)
                })
            },
    {
        if find_peer(&self.peers, &pubkey).is_some() {
            return false;
        }
        let peer = Peer::fresh(
            pubkey,
            candidates,
            self.node.ladder.force_relay,
            PeerStat::new(allowed_ips),
        );
        if !self.node.ladder.force_relay {
            push_all(out, &peer.candidates, self.node.ping.as_slice());
        } else {
            assert(crate::mesh::peer::sent(out@) =~= crate::mesh::peer::sent(old(out)@) + Seq::<
                Sent,
            >::empty());
        }
        self.peers.push(peer);
        true
    }

    /// Takes in the first packet of a handshake that was begun with a peer: it is sent, kept to be
    /// repeated, and its session index is registered.
    pub fn handshake_begun(
        &mut self,
        owner: &mut IndexOwner,
        pos: usize,
        init: Vec<u8>,
        now: u64,
        out: &mut Vec<Effect>,
    )
        requires
            old(self).wf(),
            pos < old(self).peers@.len(),
        ensures
            final(self).wf(),
            final(self).node == old(self).node,
            final(self).index.wid == old(self).index.wid,
            ({
                let p = old(self).peers@[pos as int];
                let index = crate::wire::le32_at(init@, 4);
                &&& final(self).peers@ == old(self).peers@.update(
                    pos as int,
                    Peer { init_sent_at: Some(now), init_packet: Some(init), ..p },
                )
                &&& final(self).index@ == crate::mesh::worker::registered(
                    old(self).index@,
                    index,
                    p.pubkey,
                )
                &&& final(owner)@ == crate::mesh::worker::owned(
                    old(owner)@,
                    index,
                    old(self).index.wid,
                )
                &&& crate::mesh::peer::sent(final(out)@) == crate::mesh::peer::sent(old(out)@)
                    + p.carried(old(self).node.ladder, init@)
            }),
    {
        let ghost start = self.peers@;
        let pk = self.peers[pos].pubkey;
        match le_u32(init.as_slice(), 4) {
            Some(idx) => self.index.insert(owner, idx, pk),
            None => {},
        }
        send_to_peer(&self.peers[pos], self.node.ladder, init.as_slice(), out);
        let p: &mut Peer = &mut self.peers[pos];
        p.init_sent_at = Some(now);
        p.init_packet = Some(init);
        proof {
            let q = Peer {
                init_sent_at: Some(now),
                init_packet: Some(init),
                ..start[pos as int]
            };
            assert(self.peers@ =~= start.update(pos as int, q));
            crate::mesh::worker::keeps_distinct(start, pos as int, q);
        }
    }

    /// Takes in that a peer was removed from the network: the worker forgets it and all its
    /// session indices, so that nothing from it is decrypted or routed any more. Says whether the
    /// peer was known.
    pub fn remove_peer(&mut self, owner: &mut IndexOwner, pk: &[u8; 32]) -> (removed: bool)
        requires
            old(self).wf(),
        ensures
            final(self).wf(),
            final(self).node == old(self).node,
            final(self).index.wid == old(self).index.wid,
            removed == !crate::mesh::session::is_place(old(self).peers@, pk@, None),
            final(self).peers@ == without_key(old(self).peers@, pk@),
            crate::mesh::session::is_place(final(self).peers@, pk@, None),
            removed ==> {
                &&& final(self).index@ == crate::mesh::index::without_peer(old(self).index@, pk@)
                &&& final(owner)@ == crate::mesh::index::disowned(
                    old(owner)@,
                    old(self).index@,
                    pk@,
                )
            },
            !removed ==> final(self).index@ == old(self).index@ && final(owner)@ == old(owner)@,
    {
        let ghost start = self.peers@;
        match find_peer(&self.peers, pk) {
            Some(i) => {
                self.peers.remove(i);
                proof {
                    without_key_at(start, pk@, i as int);
                    assert(self.peers@ == start.remove(i as int));
                }
                self.index.remove_peer(owner, pk);
                true
            },
            None => {
                proof {
                    without_key_none(start, pk@);
                }
                false
            },
        }
    }

    /// Takes in that a peer is reached at other addresses: they are pinged and have to be found
    /// again, but the session and its index stay. Says whether the peer is known.
    pub fn update_candidates(
        &mut self,
        pk: &[u8; 32],
        candidates: Vec<SocketAddr>,
        out: &mut Vec<Effect>,
    ) -> (known: bool)
        requires
            old(self).wf(),
        ensures
            final(self).wf(),
            final(self).node == old(self).node,
            final(self).index == old(self).index,
            known == !crate::mesh::session::is_place(old(self).peers@, pk@, None),
            !known ==> final(self).peers@ == old(self).peers@ && final(out)@ == old(out)@,
            known ==> {
                &&& exists|i: usize| #[trigger]
                    crate::mesh::session::is_place(old(self).peers@, pk@, Some(i))
                        && final(self).peers@ == old(self).peers@.update(
                        i as int,
                        Peer {
                            candidates,
                            disco_validated: false,
                            ..old(self).peers@[i as int]
                        },
                    )
                &&& crate::mesh::peer::sent(final(out)@) == crate::mesh::peer::sent(old(out)@) + (
                if old(self).node.ladder.force_relay {
                    seq![]
                } else {
                    crate::mesh::peer::datagrams(candidates@, old(self).node.ping@)
                })
            },
    {
        let ghost start = self.peers@;
        match find_peer(&self.peers, pk) {
            Some(i) => {
                if !self.node.ladder.force_relay {
                    push_all(out, &candidates, self.node.ping.as_slice());
                } else {
                    assert(crate::mesh::peer::sent(out@) =~= crate::mesh::peer::sent(old(out)@)
                        + Seq::<Sent>::empty());
                }
                let p: &mut Peer = &mut self.peers[i];
                p.candidates = candidates;
                p.disco_validated = false;
                proof {
                    let q = Peer { candidates, disco_validated: false, ..start[i as int] };
                    assert(self.peers@ =~= start.update(i as int, q));
                    crate::mesh::worker::keeps_distinct(start, i as int, q);
                    assert(crate::mesh::session::is_place(start, pk@, Some(i)));
                }
                true
            },
            None => false,
        }
    }
}

/// The first peer that a pong from `from` may be from.
pub open spec fn first_reached(peers: Seq<Peer>, from: SocketAddr, r: Option<usize>) -> bool {
    match r {
        Some(i) => {
            &&& i < peers.len()
            &&& peers[i as int].reached_at(from)
            &&& forall|j: int| 0 <= j < i ==> !(#[trigger] peers[j]).reached_at(from)
        },
        None => forall|j: int| 0 <= j < peers.len() ==> !(#[trigger] peers[j]).reached_at(from),
    }
}

/// The peers that do not have this key.
pub open spec fn without_key(peers: Seq<Peer>, pk: Seq<u8>) -> Seq<Peer> {
    peers.filter(|p: Peer| p.pubkey@ != pk)
}

/// No peer has the key.
proof fn without_key_none(peers: Seq<Peer>, pk: Seq<u8>)
    requires
        crate::mesh::session::is_place(peers, pk, None),
    ensures
        without_key(peers, pk) == peers,
    decreases peers.len(),
{
    reveal(Seq::filter);
    if peers.len() > 0 {
        let rest = peers.drop_last();
        assert forall|j: int| 0 <= j < rest.len() implies (#[trigger] rest[j]).pubkey@ != pk by {
            assert(peers[j].pubkey@ != pk);
        }
        without_key_none(rest, pk);
        assert(peers[peers.len() - 1].pubkey@ != pk);
        assert(peers =~= rest.push(peers.last()));
    }
}

/// One peer has the key.
proof fn without_key_at(peers: Seq<Peer>, pk: Seq<u8>, i: int)
    requires
        crate::mesh::session::distinct(peers),
        0 <= i < peers.len(),
        peers[i].pubkey@ == pk,
    ensures
        without_key(peers, pk) == peers.remove(i),
        crate::mesh::session::distinct(peers.remove(i)),
        crate::mesh::session::is_place(peers.remove(i), pk, None),
    decreases peers.len(),
{
    reveal(Seq::filter);
    let after = peers.remove(i);
    assert forall|a: int, b: int| #![trigger after[a], after[b]] 0 <= a < b < after.len() implies
        after[a].pubkey@ != after[b].pubkey@ by {
        let a2 = if a < i { a } else { a + 1 };
        let b2 = if b < i { b } else { b + 1 };
        assert(peers[a2].pubkey@ != peers[b2].pubkey@);
    }
    assert forall|j: int| 0 <= j < after.len() implies (#[trigger] after[j]).pubkey@ != pk by {
        let j2 = if j < i { j } else { j + 1 };
        if j2 < i {
            assert(peers[j2].pubkey@ != peers[i].pubkey@);
        } else {
            assert(peers[i].pubkey@ != peers[j2].pubkey@);
        }
    }
    let rest = peers.drop_last();
    if i == peers.len() - 1 {
        assert forall|j: int| 0 <= j < rest.len() implies (#[trigger] rest[j]).pubkey@ != pk by {
            assert(peers[j].pubkey@ != peers[i].pubkey@);
        }
        without_key_none(rest, pk);
        assert(after =~= rest);
    } else {
        assert forall|a: int, b: int| #![trigger rest[a], rest[b]] 0 <= a < b < rest.len() implies
            rest[a].pubkey@ != rest[b].pubkey@ by {
            assert(peers[a].pubkey@ != peers[b].pubkey@);
        }
        without_key_at(rest, pk, i);
        assert(peers[i].pubkey@ != peers[peers.len() - 1].pubkey@);
        assert(after =~= rest.remove(i).push(peers.last()));
    }
}

/// What becomes of a packet from the tunnel once its peer's session has sealed it.
#[derive(Debug)]
pub struct Egress {
    /// Datagrams that have to be sent before anything else.
    pub flush: Option<Flush>,
    /// A session index that was registered.
    pub index: Option<u32>,
}

impl Peer {
    /// Whether data to this peer goes as direct datagrams, which may be batched.
    pub open spec fn batches(self, ladder: Ladder) -> bool {
        !ladder.force_relay && !self.prefer_relay && !self.prefer_tcp && self.direct_addr is Some
    }
}

impl Worker {
    /// The peer with this key, if it has a session that can seal a packet for it.
    pub fn egress_peer(&self, pk: &[u8; 32]) -> (r: Option<usize>)
        requires
            self.wf(),
        ensures
            match r {
                Some(i) => crate::mesh::session::is_place(self.peers@, pk@, r)
                    && self.peers@[i as int].handshaked,
                None => forall|j: int|
                    0 <= j < self.peers@.len() && (#[trigger] self.peers@[j]).pubkey@ == pk@
                        ==> !self.peers@[j].handshaked,
            },
    {
        find_live(&self.peers, pk)
    }

    /// Sends what the session of the peer at `pos` made of a packet from the tunnel. Data is
    /// counted; it joins the batch where it goes as a direct datagram and takes the ladder
    /// otherwise. Where the session wants a new key first it gave the first packet of a handshake,
    /// which only the end that begins handshakes sends.
    pub fn egress(
        &mut self,
        owner: &mut IndexOwner,
        pos: usize,
        sealed: &Vec<u8>,
        batch: &mut GsoBatch,
        out: &mut Vec<Effect>,
    ) -> (e: Egress)
        requires
            old(self).wf(),
            pos < old(self).peers@.len(),
            old(batch).wf(),
            old(batch).proper() || old(batch).count < usize::MAX,
        ensures
            final(self).wf(),
            final(self).node == old(self).node,
            final(self).index.wid == old(self).index.wid,
            final(batch).wf(),
            ({
                let p = old(self).peers@[pos as int];
                let ladder = old(self).node.ladder;
                let init = sealed@.len() > 0 && sealed@[0] == T_HANDSHAKE_INIT;
                let ours = crate::mesh::order::before(old(self).node.own_pub@, p.pubkey@);
                &&& init && !ours ==> {
                    &&& *final(batch) == *old(batch)
                    &&& final(out)@ == old(out)@
                    &&& e.flush is None
                }
                &&& init && ours ==> {
                    &&& old(batch).cleared(*final(batch))
                    &&& old(batch).gives(e.flush)
                    &&& crate::mesh::peer::sent(final(out)@) == crate::mesh::peer::sent(old(out)@)
                        + p.carried(ladder, sealed@)
                }
                &&& e.index == if init && ours {
                    crate::wire::le32_at(sealed@, 4)
                } else {
                    None
                }
                &&& final(self).index@ == crate::mesh::worker::registered(
                    old(self).index@,
                    e.index,
                    p.pubkey,
                )
                &&& final(owner)@ == crate::mesh::worker::owned(
                    old(owner)@,
                    e.index,
                    old(self).index.wid,
                )
                &&& init ==> final(self).peers@ == old(self).peers@
                &&& !init ==> final(self).peers@ == old(self).peers@.update(
                    pos as int,
                    Peer { stat: p.stat.sent(sealed@.len()), ..p },
                )
                &&& !init && p.batches(ladder) ==> {
                    &&& final(out)@ == old(out)@
                    &&& old(batch).queued(p.direct_addr->0, sealed@, *final(batch), e.flush)
                }
                &&& !init && !p.batches(ladder) ==> {
                    &&& old(batch).cleared(*final(batch))
                    &&& old(batch).gives(e.flush)
                    &&& crate::mesh::peer::sent(final(out)@) == crate::mesh::peer::sent(old(out)@)
                        + p.carried(ladder, sealed@)
                }
            }),
    {
        let ghost start = self.peers@;
        if sealed.len() > 0 && sealed[0] == T_HANDSHAKE_INIT {
            if begins(&self.node.own_pub, &self.peers[pos].pubkey) {
                let pk = self.peers[pos].pubkey;
                let index: Option<u32> = le_u32(sealed.as_slice(), 4);
                match index {
                    Some(idx) => self.index.insert(owner, idx, pk),
                    None => {},
                }
                let flush = batch.flush();
                send_to_peer(&self.peers[pos], self.node.ladder, sealed.as_slice(), out);
                return Egress { flush, index };
            }
            return Egress { flush: None, index: None };
        }
        self.peers[pos].stat.add_tx(sealed.len());
        proof {
            let q = Peer {
                stat: start[pos as int].stat.sent(sealed@.len()),
                ..start[pos as int]
            };
            assert(self.peers@ =~= start.update(pos as int, q));
            crate::mesh::worker::keeps_distinct(start, pos as int, q);
            assert(q.carried(self.node.ladder, sealed@) =~= start[pos as int].carried(
                self.node.ladder,
                sealed@,
            ));
        }
        let p = &self.peers[pos];
        if !self.node.ladder.force_relay && !p.prefer_relay && !p.prefer_tcp {
            if let Some(addr) = p.direct_addr {
                let flush = batch.push(addr, sealed.as_slice());
                return Egress { flush, index: None };
            }
        }
        let flush = batch.flush();
        send_to_peer(p, self.node.ladder, sealed.as_slice(), out);
        Egress { flush, index: None }
    }
}

/// New addresses leave a peer's session, its key and its path alone.
pub proof fn new_addresses_keep_the_session(p: Peer, candidates: Vec<SocketAddr>, ladder: Ladder)
    ensures
        ({
            let q = Peer { candidates, disco_validated: false, ..p };
            &&& q.handshaked == p.handshaked
            &&& q.handshake_at == p.handshake_at
            &&& q.last_init == p.last_init
            &&& q.pubkey == p.pubkey
            &&& q.rung(ladder) == p.rung(ladder)
        }),
{
}

/// The end of an older stream does not take away a newer one.
pub proof fn stale_stream_end_is_ignored(p: Peer, newer: u64, older: u64)
    requires
        newer != older,
    ensures
        p.after_stream(newer, true).after_stream(older, false) == p.after_stream(newer, true),
        !p.after_stream(newer, true).after_stream(newer, false).tcp_up,
{
}

/// Discovery never takes a peer off the relay that was pinned there, since it can find a path that
/// the session cannot use.
pub proof fn discovery_does_not_unpin(p: Peer, from: SocketAddr)
    ensures
        p.learned(from).relay_pinned == p.relay_pinned,
        p.relay_pinned ==> p.learned(from).prefer_relay == p.prefer_relay,
{
}

/// Data takes the rung of the ladder whether it is batched or not: a batch is used exactly where
/// the first rung is taken.
pub proof fn batches_are_the_first_rung(p: Peer, ladder: Ladder)
    requires
        p.batches(ladder),
    ensures
        p.rung(ladder) == crate::mesh::peer::Rung::UdpDirect(p.direct_addr->0),
{
}

/// A pong proves the path to whoever was pinged at its address: the first peer that has the address
/// among its candidates or as its direct one is reached there from now on, off the relay unless it
/// is pinned there, and no other peer changes.
pub proof fn pong_proves_a_path(
    peers: Seq<Peer>,
    from: SocketAddr,
    at: Option<usize>,
    after: Seq<Peer>,
    i: int,
)
    requires
        0 <= i < peers.len(),
        (exists|k: int| 0 <= k < peers[i].candidates@.len() && peers[i].candidates@[k] == from)
            || peers[i].direct_addr == Some(from),
        forall|j: int|
            0 <= j < i ==> (#[trigger] peers[j]).direct_addr != Some(from)
                && !peers[j].candidates@.contains(from),
        first_reached(peers, from, at),
        after == changed(peers, at, |p: Peer| p.learned(from)),
    ensures
        after.len() == peers.len(),
        after[i].direct_addr == Some(from),
        after[i].disco_validated,
        !peers[i].relay_pinned ==> !after[i].prefer_relay,
        after[i].relay_pinned == peers[i].relay_pinned,
        after[i].pubkey == peers[i].pubkey,
        after[i].handshaked == peers[i].handshaked,
        forall|j: int| 0 <= j < peers.len() && j != i ==> #[trigger] after[j] == peers[j],
{
    assert(peers[i].reached_at(from)) by {
        if peers[i].direct_addr != Some(from) {
            let k = choose|k: int|
                0 <= k < peers[i].candidates@.len() && peers[i].candidates@[k] == from;
            assert(peers[i].candidates@.contains(from));
        }
    }
    match at {
        Some(a) => {
            if a < i {
                assert(!peers[a as int].reached_at(from));
            }
            if i < a {
                assert(!peers[i].reached_at(from));
            }
        },
        None => {
            assert(!peers[i].reached_at(from));
        },
    }
}

/// A pong from an address that no peer has shows nothing.
pub proof fn stray_pong_shows_nothing(
    peers: Seq<Peer>,
    from: SocketAddr,
    at: Option<usize>,
)
    requires
        forall|j: int|
            0 <= j < peers.len() ==> (#[trigger] peers[j]).direct_addr != Some(from)
                && !peers[j].candidates@.contains(from),
        first_reached(peers, from, at),
    ensures
        changed(peers, at, |p: Peer| p.learned(from)) == peers,
{
    if let Some(a) = at {
        assert(peers[a as int].direct_addr != Some(from));
    }
}

/// A ping shows where its sender is reached, whatever addresses it was known at; no other peer
/// changes.
pub proof fn ping_shows_its_sender(
    peers: Seq<Peer>,
    from: SocketAddr,
    at: Option<usize>,
    after: Seq<Peer>,
    i: int,
)
    requires
        crate::mesh::session::distinct(peers),
        0 <= i < peers.len(),
        crate::mesh::session::is_place(peers, peers[i].pubkey@, at),
        after == changed(peers, at, |p: Peer| p.learned(from)),
    ensures
        after.len() == peers.len(),
        after[i].direct_addr == Some(from),
        after[i].disco_validated,
        !peers[i].relay_pinned ==> !after[i].prefer_relay,
        forall|j: int| 0 <= j < peers.len() && j != i ==> #[trigger] after[j] == peers[j],
{
    match at {
        Some(a) => {
            if a < i {
                assert(peers[a as int].pubkey@ != peers[i].pubkey@);
            }
        },
        None => {
            assert(peers[i].pubkey@ != peers[i].pubkey@);
        },
    }
}

/// A path that discovery found is used for the next packet, unless the peer is pinned to the relay
/// or prefers its stream.
pub proof fn found_path_is_used(p: Peer, from: SocketAddr, ladder: Ladder, bytes: Seq<u8>)
    requires
        !p.relay_pinned,
        !p.prefer_tcp,
        !ladder.force_relay,
    ensures
        p.learned(from).carried(ladder, bytes) == seq![Sent::Udp(from, bytes)],
{
}

/// What discovery shows is the path and nothing else.
pub proof fn discovery_keeps_the_session(p: Peer, from: SocketAddr)
    ensures
        ({
            let q = p.learned(from);
            &&& q.handshaked == p.handshaked
            &&& q.handshake_at == p.handshake_at
            &&& q.candidates == p.candidates
            &&& q.pubkey == p.pubkey
            &&& q.prefer_tcp == p.prefer_tcp
            &&& q.last_recv_direct == p.last_recv_direct
            &&& q.init_packet == p.init_packet
            &&& q.stat == p.stat
        }),
{
}

/// A stream that came up carries packets, where direct ones are preferred over it or not to be had;
/// once it went down nothing goes over it.
pub proof fn stream_carries_while_up(p: Peer, g: u64, ladder: Ladder, bytes: Seq<u8>)
    requires
        !ladder.force_relay,
        !p.prefer_relay,
        p.prefer_tcp || p.direct_addr is None,
    ensures
        p.after_stream(g, true).carried(ladder, bytes) == seq![Sent::Tcp(p.pubkey@, bytes)],
        !p.after_stream(g, true).after_stream(g, false).tcp_up,
        p.after_stream(g, true).tcp_gen == g,
{
}

/// Data is batched exactly where a direct datagram is the first choice.
pub proof fn batched_or_laddered(p: Peer, ladder: Ladder, bytes: Seq<u8>)
    ensures
        p.batches(ladder) ==> p.carried(ladder, bytes) == seq![
            Sent::Udp(p.direct_addr->0, bytes),
        ],
        ladder.force_relay || p.prefer_relay || p.prefer_tcp || p.direct_addr is None ==> !p.batches(
            ladder,
        ),
        !ladder.force_relay && !p.prefer_relay && !p.prefer_tcp && p.direct_addr is Some
            ==> p.batches(ladder),
{
}

/// Removing a key removes whoever has it and nobody else.
pub proof fn removal_spares_the_others(peers: Seq<Peer>, pk: Seq<u8>, p: Peer)
    ensures
        without_key(peers, pk).contains(p) <==> peers.contains(p) && p.pubkey@ != pk,
    decreases peers.len(),
{
    reveal(Seq::filter);
    if peers.len() > 0 {
        let rest = peers.drop_last();
        removal_spares_the_others(rest, pk, p);
        let all = without_key(peers, pk);
        let front = without_key(rest, pk);
        if peers.last().pubkey@ != pk {
            assert(all == front.push(peers.last()));
            if front.contains(p) {
                let k = choose|k: int| 0 <= k < front.len() && front[k] == p;
                assert(all[k] == p);
            }
            if p == peers.last() {
                assert(all[front.len() as int] == p);
            }
        }
        if rest.contains(p) {
            let k = choose|k: int| 0 <= k < rest.len() && rest[k] == p;
            assert(peers[k] == p);
        }
        if p == peers.last() {
            assert(peers[peers.len() - 1] == p);
        }
        if peers.contains(p) && p != peers.last() {
            let k = choose|k: int| 0 <= k < peers.len() && peers[k] == p;
            assert(rest[k] == p);
        }
    }
}

/// A packet of a session goes to the peer with that key, and to nobody where there is none.
pub proof fn sessions_are_the_senders(peers: Seq<Peer>, pk: Seq<u8>, r: Inbound)
    requires
        is_for(peers, pk, r),
    ensures
        r is Session || r is Nobody,
        r matches Inbound::Session(pos) ==> pos < peers.len() && peers[pos as int].pubkey@ == pk,
        r is Nobody <==> forall|j: int| 0 <= j < peers.len() ==> (#[trigger] peers[j]).pubkey@ != pk,
{
}

} // verus!
