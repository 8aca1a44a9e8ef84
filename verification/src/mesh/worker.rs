//! A worker: the peers that it owns and what it does about each event.

use crate::mesh::index::{IndexOwner, IndexTable};
use crate::mesh::peer::{Effect, Peer, Sent};
use crate::mesh::tick::{
    emit_rekey, tick_age, tick_keepalive, tick_open, tick_silence, tick_upgrade, Node,
};
use vstd::prelude::*;

verus! {

/// A worker.
#[derive(Debug)]
pub struct Worker {
    pub peers: Vec<Peer>,
    pub index: IndexTable,
    pub node: Node,
}

/// Where the periodic check of a peer stands.
#[derive(Clone, Copy, Debug, PartialEq, Eq, Structural)]
pub enum Stage {
    /// The check begins.
    Begin,
    /// An empty packet was sealed.
    Sealing,
    /// The peer was moved to the relay and a handshake for a new key begun.
    Fallback,
    /// The session has aged and a handshake for a new key was begun.
    Aging,
}

/// Where the check of all peers stands.
#[derive(Clone, Copy, Debug, PartialEq, Eq, Structural)]
pub struct TickRun {
    pub pos: usize,
    pub stage: Stage,
    pub now: u64,
}

/// What the check needs before it goes on.
#[derive(Clone, Copy, Debug, PartialEq, Eq, Structural)]
pub enum TickAsk {
    /// Nothing.
    Again,
    /// An empty packet sealed by this peer's session.
    Seal(usize),
    /// The first packet of a handshake for a new key from this peer's session.
    Rekey(usize),
    /// All peers are checked.
    Finished,
}

/// What one step of the check does to a peer.
pub struct Progress {
    pub peer: Peer,
    pub sends: Seq<Sent>,
    /// A session index to be registered for the peer.
    pub index: Option<u32>,
    /// The stage that follows, none where the peer is done.
    pub next: Option<Stage>,
}

/// The peer once the way back and its session's age were looked at, and whether a handshake for a
/// new key is due.
pub open spec fn settled(p: Peer, node: Node, now: u64) -> (Peer, Option<Stage>) {
    let q = p.after_upgrade(now);
    if crate::mesh::order::before(node.own_pub@, q.pubkey@) && q.aged(now) {
        (Peer { handshake_at: Some(now), ..q }, Some(Stage::Aging))
    } else {
        (q, None)
    }
}

/// The peer once a sealed packet was taken in, what is sent and which index is registered.
pub open spec fn kept_alive(p: Peer, node: Node, sealed: Option<Seq<u8>>) -> (
    Peer,
    Seq<Sent>,
    Option<u32>,
) {
    match sealed {
        Some(s) => if crate::mesh::tick::is_keepalive(s) {
            (Peer { stat: p.stat.sent(s.len()), ..p }, p.keepalive_sends(node, s), None)
        } else {
            match crate::mesh::tick::own_init(node.own_pub@, p.pubkey@, s) {
                Some(i) => (p, p.carried(node.ladder, s), Some(i)),
                None => (p, seq![], None),
            }
        },
        None => (p, seq![], None),
    }
}

/// One step of the check.
pub open spec fn progress(
    stage: Stage,
    p: Peer,
    node: Node,
    now: u64,
    reply: Option<Seq<u8>>,
) -> Progress {
    match stage {
        Stage::Begin => Progress {
            peer: p.after_open(node.ladder, now),
            sends: p.open_sends(node, now),
            index: None,
            next: if p.handshaked {
                Some(Stage::Sealing)
            } else {
                None
            },
        },
        Stage::Sealing => {
            let (q, sends, index) = kept_alive(p, node, reply);
            if q.falls_back(node.ladder, now) {
                let r = q.after_fall_back(now);
                if crate::mesh::order::before(node.own_pub@, p.pubkey@) {
                    Progress { peer: r, sends, index, next: Some(Stage::Fallback) }
                } else {
                    let (s, next) = settled(r, node, now);
                    Progress { peer: s, sends, index, next }
                }
            } else {
                let (s, next) = settled(q, node, now);
                Progress { peer: s, sends, index, next }
            }
        },
        Stage::Fallback => match reply {
            Some(init) => {
                let (s, next) = settled(Peer { init_sent_at: Some(now), ..p }, node, now);
                Progress {
                    peer: s,
                    sends: p.carried(node.ladder, init),
                    index: crate::wire::le32_at(init, 4),
                    next,
                }
            },
            None => {
                let (s, next) = settled(p, node, now);
                Progress { peer: s, sends: seq![], index: None, next }
            },
        },
        Stage::Aging => match reply {
            Some(init) => Progress {
                peer: p,
                sends: p.carried(node.ladder, init),
                index: crate::wire::le32_at(init, 4),
                next: None,
            },
            None => Progress { peer: p, sends: seq![], index: None, next: None },
        },
    }
}

/// A packet as a value.
pub open spec fn packet(p: Option<Vec<u8>>) -> Option<Seq<u8>> {
    match p {
        Some(v) => Some(v@),
        None => None,
    }
}

/// The table once an index may have been registered.
pub open spec fn registered(m: Map<u32, [u8; 32]>, index: Option<u32>, pk: [u8; 32]) -> Map<
    u32,
    [u8; 32],
> {
    match index {
        Some(i) => m.insert(i, pk),
        None => m,
    }
}

/// The owners once an index may have been registered.
pub open spec fn owned(m: Map<u32, usize>, index: Option<u32>, wid: usize) -> Map<u32, usize> {
    match index {
        Some(i) => m.insert(i, wid),
        None => m,
    }
}

/// What is needed for a stage.
pub open spec fn ask_for(next: Option<Stage>, pos: usize) -> TickAsk {
    match next {
        Some(Stage::Sealing) => TickAsk::Seal(pos),
        Some(_) => TickAsk::Rekey(pos),
        None => TickAsk::Again,
    }
}

/// Looks at the way back and at the session's age.
fn settle(peer: &mut Peer, node: &Node, now: u64) -> (next: Option<Stage>)
    requires
        old(peer).wf(),
    ensures
        final(peer).wf(),
        (*final(peer), next) == settled(*old(peer), *node, now),
{
    tick_upgrade(peer, now);
    if tick_age(peer, node, now) {
        Some(Stage::Aging)
    } else {
        None
    }
}

/// Takes one step of the check of one peer.
fn step(
    peer: &mut Peer,
    node: &Node,
    stage: Stage,
    now: u64,
    reply: &Option<Vec<u8>>,
    out: &mut Vec<Effect>,
) -> (r: (Option<u32>, Option<Stage>))
    requires
        old(peer).wf(),
        stage == Stage::Begin ==> old(peer).handshaked || old(peer).retries < u32::MAX,
    ensures
        final(peer).wf(),
        *final(peer) == progress(stage, *old(peer), *node, now, packet(*reply)).peer,
        crate::mesh::peer::sent(final(out)@) == crate::mesh::peer::sent(old(out)@) + progress(
            stage,
            *old(peer),
            *node,
            now,
            packet(*reply),
        ).sends,
        r.0 == progress(stage, *old(peer), *node, now, packet(*reply)).index,
        r.1 == progress(stage, *old(peer), *node, now, packet(*reply)).next,
{
    let ghost start = *peer;
    let ghost before = crate::mesh::peer::sent(out@);
    match stage {
        Stage::Begin => {
            if tick_open(peer, node, now, out) {
                (None, Some(Stage::Sealing))
            } else {
                (None, None)
            }
        },
        Stage::Sealing => {
            let index: Option<u32> = match reply {
                Some(sealed) => tick_keepalive(peer, node, sealed, out),
                None => None,
            };
            assert(crate::mesh::peer::sent(out@) =~= before + kept_alive(
                start,
                *node,
                packet(*reply),
            ).1);
            if tick_silence(peer, node, now) {
                (index, Some(Stage::Fallback))
            } else {
                let next = settle(peer, node, now);
                (index, next)
            }
        },
        Stage::Fallback => {
            let index: Option<u32> = emit_rekey(peer, node.ladder, reply, out);
            if reply.is_some() {
                peer.init_sent_at = Some(now);
            }
            let next = settle(peer, node, now);
            assert(crate::mesh::peer::sent(out@) =~= before + progress(
                stage,
                start,
                *node,
                now,
                packet(*reply),
            ).sends);
            (index, next)
        },
        Stage::Aging => {
            let index: Option<u32> = emit_rekey(peer, node.ladder, reply, out);
            assert(crate::mesh::peer::sent(out@) =~= before + progress(
                stage,
                start,
                *node,
                now,
                packet(*reply),
            ).sends);
            (index, None)
        },
    }
}

impl Worker {
    /// No two peers have the same key, and each is well-formed.
    pub open spec fn wf(self) -> bool {
        &&& crate::mesh::session::distinct(self.peers@)
        &&& forall|i: int| 0 <= i < self.peers@.len() ==> (#[trigger] self.peers@[i]).wf()
    }

    /// Begins the periodic check.
    pub fn tick_begin(now: u64) -> (run: TickRun)
        ensures
            run == (TickRun { pos: 0, stage: Stage::Begin, now }),
    {
        TickRun { pos: 0, stage: Stage::Begin, now }
    }

    /// Takes one step of the periodic check. `reply` is what the last step asked for.
    pub fn tick(
        &mut self,
        owner: &mut IndexOwner,
        run: &mut TickRun,
        reply: &Option<Vec<u8>>,
        out: &mut Vec<Effect>,
    ) -> (ask: TickAsk)
        requires
            old(self).wf(),
            old(run).pos < old(self).peers@.len() && old(run).stage == Stage::Begin ==> {
                let p = old(self).peers@[old(run).pos as int];
                p.handshaked || p.retries < u32::MAX
            },
        ensures
            final(self).wf(),
            final(self).node == old(self).node,
            final(self).index.wid == old(self).index.wid,
            final(run).now == old(run).now,
            old(run).pos >= old(self).peers@.len() ==> {
                &&& ask == TickAsk::Finished
                &&& final(self).peers@ == old(self).peers@
                &&& final(self).index@ == old(self).index@
                &&& final(owner)@ == old(owner)@
                &&& final(out)@ == old(out)@
                &&& *final(run) == *old(run)
            },
            old(run).pos < old(self).peers@.len() ==> {
                let p = old(self).peers@[old(run).pos as int];
                let g = progress(
                    old(run).stage,
                    p,
                    old(self).node,
                    old(run).now,
                    packet(*reply),
                );
                &&& final(self).peers@ == old(self).peers@.update(old(run).pos as int, g.peer)
                &&& crate::mesh::peer::sent(final(out)@) == crate::mesh::peer::sent(old(out)@)
                    + g.sends
                &&& final(self).index@ == registered(old(self).index@, g.index, p.pubkey)
                &&& final(owner)@ == owned(old(owner)@, g.index, old(self).index.wid)
                &&& ask == ask_for(g.next, old(run).pos)
                &&& match g.next {
                    Some(stage) => final(run).stage == stage && final(run).pos == old(run).pos,
                    None => final(run).stage == Stage::Begin && final(run).pos == old(run).pos + 1,
                }
            },
    {
        if run.pos >= self.peers.len() {
            return TickAsk::Finished;
        }
        let pos: usize = run.pos;
        let pk = self.peers[pos].pubkey;
        let ghost start = self.peers@;
        let (index, next) = step(
            &mut self.peers[pos],
            &self.node,
            run.stage,
            run.now,
            reply,
            out,
        );
        proof {
            let g = progress(
                old(run).stage,
                start[pos as int],
                self.node,
                old(run).now,
                packet(*reply),
            );
            assert(g.peer.pubkey == start[pos as int].pubkey);
            assert(self.peers@ =~= start.update(pos as int, g.peer));
            keeps_distinct(start, pos as int, g.peer);
        }
        match index {
            Some(i) => self.index.insert(owner, i, pk),
            None => {},
        }
        match next {
            Some(stage) => {
                run.stage = stage;
                match stage {
                    Stage::Sealing => TickAsk::Seal(pos),
                    _ => TickAsk::Rekey(pos),
                }
            },
            None => {
                run.stage = Stage::Begin;
                run.pos = pos + 1;
                TickAsk::Again
            },
        }
    }
}

/// Replacing a peer by one with the same key keeps the keys distinct.
pub proof fn keeps_distinct(peers: Seq<Peer>, i: int, p: Peer)
    requires
        crate::mesh::session::distinct(peers),
        0 <= i < peers.len(),
        p.pubkey@ == peers[i].pubkey@,
    ensures
        crate::mesh::session::distinct(peers.update(i, p)),
{
    let after = peers.update(i, p);
    assert forall|a: int, b: int| #![trigger after[a], after[b]] 0 <= a < b < after.len() implies
        after[a].pubkey@ != after[b].pubkey@ by {
        assert(peers[a].pubkey@ != peers[b].pubkey@);
    }
}

/// The first step of the check publishes the rung that packets take as the peer stands when the
/// check begins, and no rung before the handshake; no later step publishes another.
pub proof fn check_publishes_the_rung(
    p: Peer,
    node: Node,
    now: u64,
    reply: Option<Seq<u8>>,
    stage: Stage,
)
    ensures
        p.handshaked ==> progress(Stage::Begin, p, node, now, reply).peer.stat.transport
            == crate::mesh::tick::rung_status(p.rung(node.ladder)),
        !p.handshaked ==> progress(Stage::Begin, p, node, now, reply).peer.stat.transport
            == crate::mesh::status::T_NONE,
        stage != Stage::Begin ==> progress(stage, p, node, now, reply).peer.stat.transport
            == p.stat.transport,
{
}

/// No step of the check changes which peer it is, where it may be reached, or takes its session
/// away.
pub proof fn check_keeps_identity(
    stage: Stage,
    p: Peer,
    node: Node,
    now: u64,
    reply: Option<Seq<u8>>,
)
    ensures
        ({
            let q = progress(stage, p, node, now, reply).peer;
            &&& q.pubkey == p.pubkey
            &&& q.candidates == p.candidates
            &&& q.direct_addr == p.direct_addr
            &&& q.handshaked == p.handshaked
            &&& q.tcp_up == p.tcp_up
        }),
{
}

/// Only the end that begins handshakes asks its session for one, so the two ends of a session never
/// cross: of two different keys only one asks.
pub proof fn rekeys_never_cross(
    stage: Stage,
    p: Peer,
    q: Peer,
    mine: Node,
    theirs: Node,
    now: u64,
    later: u64,
    reply: Option<Seq<u8>>,
    reply2: Option<Seq<u8>>,
    stage2: Stage,
)
    requires
        p.pubkey@ == theirs.own_pub@,
        q.pubkey@ == mine.own_pub@,
        mine.own_pub@ != theirs.own_pub@,
    ensures
        !(crate::mesh::worker::asks_rekey(progress(stage, p, mine, now, reply).next)
            && crate::mesh::worker::asks_rekey(progress(stage2, q, theirs, later, reply2).next)),
{
    crate::mesh::order::exactly_one_begins(mine.own_pub@, theirs.own_pub@);
}

/// Whether a stage needs a handshake for a new key.
pub open spec fn asks_rekey(next: Option<Stage>) -> bool {
    next == Some(Stage::Fallback) || next == Some(Stage::Aging)
}

/// The check goes on beyond its first step exactly for a peer with a session.
pub proof fn only_sessions_are_kept_alive(p: Peer, node: Node, now: u64, reply: Option<Seq<u8>>)
    ensures
        progress(Stage::Begin, p, node, now, reply).next is Some <==> p.handshaked,
        progress(Stage::Begin, p, node, now, reply).next is Some ==> progress(
            Stage::Begin,
            p,
            node,
            now,
            reply,
        ).next == Some(Stage::Sealing),
        progress(Stage::Begin, p, node, now, reply).index is None,
{
}

/// A peer whose direct path has gone silent ends the check on the relay, pinned there, with its
/// session; the end that begins handshakes asks for a new key.
pub proof fn silent_peer_ends_on_the_relay(
    p: Peer,
    node: Node,
    now: u64,
    reply: Option<Seq<u8>>,
)
    requires
        p.last_recv_direct is None,
        !p.prefer_relay,
        !node.ladder.force_relay,
        node.ladder.relay_up,
    ensures
        ({
            let g = progress(Stage::Sealing, p, node, now, reply);
            &&& g.peer.prefer_relay
            &&& g.peer.relay_pinned
            &&& g.peer.rung(node.ladder) == crate::mesh::peer::Rung::Relay
            &&& g.peer.handshaked == p.handshaked
            &&& crate::mesh::order::before(node.own_pub@, p.pubkey@) ==> asks_rekey(g.next)
        }),
{
}

/// A peer that is heard directly is not moved to the relay by the check.
pub proof fn heard_peer_stays_direct(
    p: Peer,
    node: Node,
    now: u64,
    reply: Option<Seq<u8>>,
    heard: u64,
)
    requires
        p.last_recv_direct == Some(heard),
        heard <= now,
        now - heard < 5_000_000_000,
        !p.relay_pinned,
    ensures
        !progress(Stage::Sealing, p, node, now, reply).peer.relay_pinned,
        progress(Stage::Sealing, p, node, now, reply).peer.prefer_relay == p.prefer_relay,
{
}

/// A pinned peer that is heard directly again, half a minute after it was pinned at the latest,
/// leaves the relay within the check.
pub proof fn recovered_peer_leaves_the_relay(
    p: Peer,
    node: Node,
    now: u64,
    reply: Option<Seq<u8>>,
    heard: u64,
    pinned: u64,
)
    requires
        p.wf(),
        p.relay_pinned,
        p.prefer_relay,
        p.last_recv_direct == Some(heard),
        p.pinned_at == Some(pinned),
        heard <= now,
        pinned <= now,
        now - heard < 5_000_000_000,
        now - pinned >= 32_000_000_000,
    ensures
        !progress(Stage::Sealing, p, node, now, reply).peer.relay_pinned,
        !progress(Stage::Sealing, p, node, now, reply).peer.prefer_relay,
{
    vstd::arithmetic::power2::lemma2_to64();
    let q = kept_alive(p, node, reply).0;
    crate::mesh::tick::recovered_path_is_taken(q, now, heard, pinned);
}

/// A session that is two minutes old is given a new key by the end that begins handshakes, and only
/// by it; its age counts anew from then on.
pub proof fn old_session_is_rekeyed(
    p: Peer,
    node: Node,
    now: u64,
    reply: Option<Seq<u8>>,
    since: u64,
)
    requires
        p.prefer_relay,
        p.handshake_at == Some(since),
        since <= now,
    ensures
        ({
            let g = progress(Stage::Sealing, p, node, now, reply);
            let ours = crate::mesh::order::before(node.own_pub@, p.pubkey@);
            &&& ours && now - since >= 120_000_000_000 ==> {
                &&& asks_rekey(g.next)
                &&& g.peer.handshake_at == Some(now)
            }
            &&& !ours || now - since < 120_000_000_000 ==> {
                &&& g.next is None
                &&& g.peer.handshake_at == p.handshake_at
            }
        }),
{
}

/// A sealed keepalive is sent down the peer's path and counted; where the session sealed nothing,
/// nothing is sent.
pub proof fn keepalive_is_sent_and_counted(p: Peer, node: Node, now: u64, sealed: Seq<u8>)
    requires
        sealed.len() > 0,
        sealed[0] == 4,
        p.stat.tx_bytes + sealed.len() <= u64::MAX,
    ensures
        ({
            let g = progress(Stage::Sealing, p, node, now, Some(sealed));
            &&& g.sends == p.keepalive_sends(node, sealed)
            &&& g.peer.stat.tx_bytes == p.stat.tx_bytes + sealed.len()
            &&& g.peer.stat.rx_bytes == p.stat.rx_bytes
            &&& g.index is None
        }),
        progress(Stage::Sealing, p, node, now, None).sends.len() == 0,
        progress(Stage::Sealing, p, node, now, None).peer.stat == p.stat,
{
}

/// The first packet of a handshake for a new key goes down the peer's path, and the index that it
/// carries leads back to the peer.
pub proof fn new_key_is_announced(p: Peer, node: Node, now: u64, init: Seq<u8>, stage: Stage)
    requires
        stage == Stage::Fallback || stage == Stage::Aging,
        init.len() >= 8,
    ensures
        ({
            let g = progress(stage, p, node, now, Some(init));
            &&& g.sends == p.carried(node.ladder, init)
            &&& g.index == crate::wire::le32_at(init, 4)
            &&& g.index is Some
            &&& stage == Stage::Fallback ==> g.peer.init_sent_at == Some(now)
            &&& progress(stage, p, node, now, None).sends.len() == 0
            &&& progress(stage, p, node, now, None).index is None
        }),
{
}

/// A registered index leads to its peer and its worker; others lead where they led.
pub proof fn registered_index_leads_back(
    m: Map<u32, [u8; 32]>,
    o: Map<u32, usize>,
    i: u32,
    other: u32,
    pk: [u8; 32],
    wid: usize,
)
    ensures
        registered(m, Some(i), pk)[i] == pk,
        registered(m, Some(i), pk).dom().contains(i),
        owned(o, Some(i), wid)[i] == wid,
        owned(o, Some(i), wid).dom().contains(i),
        other != i ==> registered(m, Some(i), pk)[other] == m[other],
        other != i ==> owned(o, Some(i), wid)[other] == o[other],
        registered(m, None, pk) == m,
        owned(o, None, wid) == o,
{
}

/// What the check needs is asked of the peer that it is about.
pub proof fn asked_of_the_peer(pos: usize)
    ensures
        ask_for(Some(Stage::Sealing), pos) == TickAsk::Seal(pos),
        ask_for(Some(Stage::Fallback), pos) == TickAsk::Rekey(pos),
        ask_for(Some(Stage::Aging), pos) == TickAsk::Rekey(pos),
        ask_for(None, pos) == TickAsk::Again,
{
}

} // verus!
