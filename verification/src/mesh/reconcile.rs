//! Keeping the routing tables and the workers in step with the network's members.

use crate::assoc::{all_but, Assoc, Keyed};
use crate::mesh::order::begins;
use crate::mesh::route::Allowed;
use crate::net::SocketAddr;
use crate::text::{copy_texts, has_text, texts_eq};
use vstd::prelude::*;

verus! {

/// A member of the network.
#[derive(Debug)]
pub struct PeerInfo {
    pub pubkey: [u8; 32],
    /// Addresses at which the member may be reached.
    pub candidates: Vec<SocketAddr>,
    /// The networks behind the member.
    pub allowed_ips: Vec<String>,
    /// The member's own address in the network.
    pub overlay: Option<u32>,
}

/// What is known of a member.
#[derive(Debug)]
pub struct Known {
    /// The worker that owns the member.
    pub wid: usize,
    pub candidates: Vec<SocketAddr>,
    pub allowed_ips: Vec<String>,
}

/// What is known of a member, as a value.
pub struct Membership {
    pub wid: usize,
    pub candidates: Seq<SocketAddr>,
    pub allowed: Seq<Seq<char>>,
}

impl Known {
    /// What is known, as a value.
    pub open spec fn view(&self) -> Membership {
        Membership {
            wid: self.wid,
            candidates: self.candidates@,
            allowed: crate::text::texts(self.allowed_ips@),
        }
    }
}

/// The tables by which packets are routed.
#[derive(Debug)]
pub struct Tables {
    pub peer_to_wid: Assoc<[u8; 32], usize>,
    pub cand_to_wid: Assoc<SocketAddr, usize>,
    pub allowed: Assoc<[u8; 32], Allowed>,
}

/// What has to be done for a change to take effect.
#[derive(Debug)]
pub enum Action {
    /// The worker forgets the peer.
    RemovePeer { wid: usize, pubkey: [u8; 32] },
    /// The worker takes on the peer, and begins a handshake if `initiator` says so.
    AddPeer {
        wid: usize,
        pubkey: [u8; 32],
        candidates: Vec<SocketAddr>,
        allowed_ips: Vec<String>,
        initiator: bool,
    },
    /// The worker tries other addresses for the peer.
    UpdateCandidates { wid: usize, pubkey: [u8; 32], candidates: Vec<SocketAddr> },
    /// The system no longer routes the network into the tunnel.
    RouteDel(String),
    /// The system routes the network into the tunnel.
    RouteAdd(String),
}

/// An action as a value.
pub enum Act {
    RemovePeer(usize, Seq<u8>),
    AddPeer(usize, Seq<u8>, Seq<SocketAddr>, Seq<Seq<char>>, bool),
    UpdateCandidates(usize, Seq<u8>, Seq<SocketAddr>),
    RouteDel(Seq<char>),
    RouteAdd(Seq<char>),
}

impl Action {
    /// The action as a value.
    pub open spec fn view(&self) -> Act {
        match *self {
            Action::RemovePeer { wid, pubkey } => Act::RemovePeer(wid, pubkey@),
            Action::AddPeer { wid, pubkey, candidates, allowed_ips, initiator } => Act::AddPeer(
                wid,
                pubkey@,
                candidates@,
                crate::text::texts(allowed_ips@),
                initiator,
            ),
            Action::UpdateCandidates { wid, pubkey, candidates } => Act::UpdateCandidates(
                wid,
                pubkey@,
                candidates@,
            ),
            Action::RouteDel(s) => Act::RouteDel(s@),
            Action::RouteAdd(s) => Act::RouteAdd(s@),
        }
    }
}

/// Some actions as values.
pub open spec fn acts(v: Seq<Action>) -> Seq<Act> {
    v.map_values(|a: Action| a@)
}

/// Adding an action.
proof fn acts_push(v: Seq<Action>, a: Action)
    ensures
        acts(v.push(a)) == acts(v).push(a@),
{
    assert(acts(v.push(a)) =~= acts(v).push(a@));
}

/// The networks of `from` that are not in `but`, in order.
pub open spec fn not_in(from: Seq<Seq<char>>, but: Seq<Seq<char>>) -> Seq<Seq<char>> {
    from.filter(|s: Seq<char>| !but.contains(s))
}

/// The removal of some routes.
pub open spec fn dels(nets: Seq<Seq<char>>) -> Seq<Act> {
    nets.map_values(|s: Seq<char>| Act::RouteDel(s))
}

/// The installation of some routes.
pub open spec fn adds(nets: Seq<Seq<char>>) -> Seq<Act> {
    nets.map_values(|s: Seq<char>| Act::RouteAdd(s))
}

/// The candidates' table without some addresses.
pub open spec fn without_addrs(
    m: Map<SocketAddr, usize>,
    addrs: Seq<SocketAddr>,
) -> Map<SocketAddr, usize> {
    Map::new(|a: SocketAddr| m.dom().contains(a) && !addrs.contains(a), |a: SocketAddr| m[a])
}

/// The candidates' table with some addresses going to a worker.
pub open spec fn with_addrs(
    m: Map<SocketAddr, usize>,
    addrs: Seq<SocketAddr>,
    wid: usize,
) -> Map<SocketAddr, usize> {
    Map::new(
        |a: SocketAddr| m.dom().contains(a) || addrs.contains(a),
        |a: SocketAddr|
            if addrs.contains(a) {
                wid
            } else {
                m[a]
            },
    )
}

/// Copies addresses.
pub fn copy_addrs(v: &Vec<SocketAddr>) -> (out: Vec<SocketAddr>)
    ensures
        out@ == v@,
{
    let mut out: Vec<SocketAddr> = Vec::new();
    let mut i: usize = 0;
    while i < v.len()
        invariant
            i <= v@.len(),
            out@ == v@.take(i as int),
        decreases v@.len() - i,
    {
        out.push(v[i]);
        i += 1;
        assert(out@ =~= v@.take(i as int));
    }
    assert(v@.take(v@.len() as int) =~= v@);
    out
}

/// Whether every address of `b` is in `a`.
fn covers(a: &Vec<SocketAddr>, b: &Vec<SocketAddr>) -> (r: bool)
    ensures
        r == forall|j: int| 0 <= j < b@.len() ==> a@.contains(#[trigger] b@[j]),
{
    let mut j: usize = 0;
    while j < b.len()
        invariant
            j <= b@.len(),
            forall|k: int| 0 <= k < j ==> a@.contains(#[trigger] b@[k]),
        decreases b@.len() - j,
    {
        let mut i: usize = 0;
        let mut found: bool = false;
        while i < a.len() && !found
            invariant
                j < b@.len(),
                i <= a@.len(),
                !found ==> forall|k: int| 0 <= k < i ==> #[trigger] a@[k] != b@[j as int],
                found ==> a@.contains(b@[j as int]),
            decreases a@.len() - i,
        {
            if a[i] == b[j] {
                assert(a@[i as int] == b@[j as int]);
                found = true;
            }
            i += 1;
        }
        if !found {
            assert(!a@.contains(b@[j as int]));
            return false;
        }
        j += 1;
    }
    true
}

/// Whether two lists of addresses are the same set and equally long, in whatever order.
pub open spec fn same_set(a: Seq<SocketAddr>, b: Seq<SocketAddr>) -> bool {
    &&& a.len() == b.len()
    &&& a.to_set() == b.to_set()
}

/// Whether two lists of addresses are equal regardless of order.
pub fn same_endpoints(a: &Vec<SocketAddr>, b: &Vec<SocketAddr>) -> (r: bool)
    ensures
        r == same_set(a@, b@),
{
    let r = a.len() == b.len() && covers(a, b) && covers(b, a);
    proof {
        if r {
            assert forall|x: SocketAddr| a@.to_set().contains(x) == b@.to_set().contains(x) by {
                if a@.contains(x) {
                    let i = choose|i: int| 0 <= i < a@.len() && a@[i] == x;
                    assert(b@.contains(a@[i]));
                }
                if b@.contains(x) {
                    let i = choose|i: int| 0 <= i < b@.len() && b@[i] == x;
                    assert(a@.contains(b@[i]));
                }
            }
            assert(a@.to_set() =~= b@.to_set());
        } else if same_set(a@, b@) {
            assert forall|j: int| 0 <= j < b@.len() implies a@.contains(#[trigger] b@[j]) by {
                assert(b@.to_set().contains(b@[j]));
            }
            assert forall|j: int| 0 <= j < a@.len() implies b@.contains(#[trigger] a@[j]) by {
                assert(a@.to_set().contains(a@[j]));
            }
        }
    }
    r
}

/// What the node keeps to follow the network's members.
#[derive(Debug)]
pub struct Reconciler {
    /// The number of workers.
    pub n: usize,
    pub own_pub: [u8; 32],
    pub known: Assoc<[u8; 32], Known>,
    /// How many members were ever taken on; the next one goes to the worker in turn.
    pub ordinal: usize,
}

/// The addresses that lead to a worker belong to a member that the worker owns.
pub open spec fn addrs_belong(
    known: Map<Seq<u8>, Known>,
    cands: Map<SocketAddr, usize>,
) -> bool {
    forall|a: SocketAddr| #[trigger]
        cands.dom().contains(a) ==> exists|k: Seq<u8>| #[trigger]
            known.dom().contains(k) && known[k]@.candidates.contains(a) && known[k]@.wid == cands[a]
}

/// Whether tables and members agree: the same members are known everywhere, with the same worker
/// and the same networks, and every address belongs to a member.
pub open spec fn in_step(
    n: usize,
    known: Map<Seq<u8>, Known>,
    peers: Map<Seq<u8>, usize>,
    cands: Map<SocketAddr, usize>,
    allowed: Map<Seq<u8>, Allowed>,
) -> bool {
    &&& known.dom() == peers.dom()
    &&& known.dom() == allowed.dom()
    &&& forall|k: Seq<u8>| #[trigger]
        known.dom().contains(k) ==> {
            &&& known[k]@.wid < n
            &&& peers[k] == known[k]@.wid
            &&& allowed[k].wid == known[k]@.wid
            &&& crate::text::texts(allowed[k].ips@) == known[k]@.allowed
        }
    &&& addrs_belong(known, cands)
}

impl Tables {
    /// No key occurs twice in a table.
    pub open spec fn wf(self) -> bool {
        self.peer_to_wid.wf() && self.cand_to_wid.wf() && self.allowed.wf()
    }

    /// Empty tables.
    pub fn new() -> (t: Tables)
        ensures
            t.wf(),
            t.peer_to_wid@ == Map::<Seq<u8>, usize>::empty(),
            t.cand_to_wid@ == Map::<SocketAddr, usize>::empty(),
            t.allowed@ == Map::<Seq<u8>, Allowed>::empty(),
            t.allowed.order() == Seq::<Seq<u8>>::empty(),
    {
        Tables { peer_to_wid: Assoc::new(), cand_to_wid: Assoc::new(), allowed: Assoc::new() }
    }

    /// Takes addresses out of the table.
    fn drop_addrs(&mut self, addrs: &Vec<SocketAddr>)
        requires
            old(self).wf(),
        ensures
            final(self).wf(),
            final(self).peer_to_wid == old(self).peer_to_wid,
            final(self).allowed == old(self).allowed,
            final(self).cand_to_wid@ == without_addrs(old(self).cand_to_wid@, addrs@),
    {
        let ghost start = self.cand_to_wid@;
        assert(start =~= without_addrs(start, addrs@.take(0)));
        let mut i: usize = 0;
        while i < addrs.len()
            invariant
                i <= addrs@.len(),
                self.wf(),
                self.peer_to_wid == old(self).peer_to_wid,
                self.allowed == old(self).allowed,
                self.cand_to_wid@ == without_addrs(start, addrs@.take(i as int)),
            decreases addrs@.len() - i,
        {
            let _ = self.cand_to_wid.remove(&addrs[i]);
            proof {
                take_one_more(addrs@, i as int);
                assert(self.cand_to_wid@ =~= without_addrs(start, addrs@.take(i + 1)));
            }
            i += 1;
        }
        assert(addrs@.take(addrs@.len() as int) =~= addrs@);
    }

    /// Makes addresses lead to a worker.
    fn put_addrs(&mut self, addrs: &Vec<SocketAddr>, wid: usize)
        requires
            old(self).wf(),
        ensures
            final(self).wf(),
            final(self).peer_to_wid == old(self).peer_to_wid,
            final(self).allowed == old(self).allowed,
            final(self).cand_to_wid@ == with_addrs(old(self).cand_to_wid@, addrs@, wid),
    {
        let ghost start = self.cand_to_wid@;
        assert(start =~= with_addrs(start, addrs@.take(0), wid));
        let mut i: usize = 0;
        while i < addrs.len()
            invariant
                i <= addrs@.len(),
                self.wf(),
                self.peer_to_wid == old(self).peer_to_wid,
                self.allowed == old(self).allowed,
                self.cand_to_wid@ == with_addrs(start, addrs@.take(i as int), wid),
            decreases addrs@.len() - i,
        {
            self.cand_to_wid.insert(addrs[i], wid);
            proof {
                take_one_more(addrs@, i as int);
                assert(self.cand_to_wid@ =~= with_addrs(start, addrs@.take(i + 1), wid));
            }
            i += 1;
        }
        assert(addrs@.take(addrs@.len() as int) =~= addrs@);
    }
}

/// One more element of a prefix.
proof fn take_one_more<T>(s: Seq<T>, i: int)
    requires
        0 <= i < s.len(),
    ensures
        forall|x: T| #[trigger] s.take(i + 1).contains(x) <==> (s.take(i).contains(x) || x == s[i]),
{
    assert forall|x: T| #[trigger] s.take(i + 1).contains(x) <==> (s.take(i).contains(x) || x
        == s[i]) by {
        let more = s.take(i + 1);
        if more.contains(x) {
            let j = choose|j: int| 0 <= j < more.len() && more[j] == x;
            if j < i {
                assert(s.take(i)[j] == x);
            }
        }
        let fewer = s.take(i);
        if fewer.contains(x) {
            let j = choose|j: int| 0 <= j < fewer.len() && fewer[j] == x;
            assert(more[j] == x);
        }
        if x == s[i] {
            assert(more[i] == x);
        }
    }
}

/// Removes or installs the routes of `from` that are not in `but`.
fn push_routes(from: &Vec<String>, but: &Vec<String>, add: bool, out: &mut Vec<Action>)
    ensures
        acts(final(out)@) == acts(old(out)@) + if add {
            adds(not_in(crate::text::texts(from@), crate::text::texts(but@)))
        } else {
            dels(not_in(crate::text::texts(from@), crate::text::texts(but@)))
        },
{
    let ghost f = crate::text::texts(from@);
    let ghost b = crate::text::texts(but@);
    let ghost keep = |s: Seq<char>| !b.contains(s);
    let ghost kind = |s: Seq<char>|
        if add {
            Act::RouteAdd(s)
        } else {
            Act::RouteDel(s)
        };
    let mut i: usize = 0;
    proof {
        reveal(Seq::filter);
        assert(f.take(0).filter(keep) =~= seq![]);
        assert(acts(out@) =~= acts(old(out)@) + f.take(0).filter(keep).map_values(kind));
    }
    while i < from.len()
        invariant
            i <= from@.len(),
            f == crate::text::texts(from@),
            b == crate::text::texts(but@),
            keep == (|s: Seq<char>| !b.contains(s)),
            kind == (|s: Seq<char>|
                if add {
                    Act::RouteAdd(s)
                } else {
                    Act::RouteDel(s)
                }),
            acts(out@) == acts(old(out)@) + f.take(i as int).filter(keep).map_values(kind),
        decreases from@.len() - i,
    {
        let ghost before = acts(out@);
        let ghost done = f.take(i as int).filter(keep);
        proof {
            reveal(Seq::filter);
            assert(f.take(i + 1).drop_last() =~= f.take(i as int));
            assert(f.take(i + 1).last() == from@[i as int]@);
        }
        if !has_text(but, from[i].as_str()) {
            let a = if add {
                Action::RouteAdd(from[i].clone())
            } else {
                Action::RouteDel(from[i].clone())
            };
            proof {
                acts_push(out@, a);
                assert(a@ == kind(from@[i as int]@));
                assert(done.push(from@[i as int]@).map_values(kind) =~= done.map_values(kind).push(
                    a@,
                ));
            }
            out.push(a);
            assert(acts(out@) =~= acts(old(out)@) + f.take(i + 1).filter(keep).map_values(kind));
        } else {
            assert(acts(out@) =~= acts(old(out)@) + f.take(i + 1).filter(keep).map_values(kind));
        }
        i += 1;
    }
    assert(f.take(f.len() as int) =~= f);
    if add {
        assert(f.filter(keep).map_values(kind) =~= adds(not_in(f, b)));
    } else {
        assert(f.filter(keep).map_values(kind) =~= dels(not_in(f, b)));
    }
}

/// Nothing is left out where there is nothing to leave out.
proof fn not_in_empty(s: Seq<Seq<char>>)
    ensures
        not_in(s, seq![]) == s,
    decreases s.len(),
{
    reveal(Seq::filter);
    if s.len() > 0 {
        not_in_empty(s.drop_last());
        assert(s =~= s.drop_last().push(s.last()));
    }
}

impl Reconciler {
    /// Well-formed, and there is a worker.
    pub open spec fn wf(self) -> bool {
        self.known.wf() && self.n > 0
    }

    /// Whether tables and members agree.
    pub open spec fn agrees(self, t: Tables) -> bool {
        &&& self.wf()
        &&& t.wf()
        &&& in_step(self.n, self.known@, t.peer_to_wid@, t.cand_to_wid@, t.allowed@)
    }

    /// No member is known.
    pub fn new(n: usize, own_pub: [u8; 32]) -> (r: Reconciler)
        requires
            n > 0,
        ensures
            r.wf(),
            r.n == n,
            r.own_pub == own_pub,
            r.ordinal == 0,
            r.known@ == Map::<Seq<u8>, Known>::empty(),
    {
        Reconciler { n, own_pub, known: Assoc::new(), ordinal: 0 }
    }

    /// Forgets a member that was removed from the network: no table leads to it any more, its
    /// worker drops its session and its networks are no longer routed.
    pub fn remove_peer(&mut self, t: &mut Tables, pk: &[u8; 32], out: &mut Vec<Action>)
        requires
            old(self).agrees(*old(t)),
        ensures
            final(self).agrees(*final(t)),
            final(self).n == old(self).n,
            final(self).own_pub == old(self).own_pub,
            final(self).ordinal == old(self).ordinal,
            final(self).known@ == old(self).known@.remove(pk@),
            final(t).peer_to_wid@ == old(t).peer_to_wid@.remove(pk@),
            final(t).allowed@ == old(t).allowed@.remove(pk@),
            old(self).known@.dom().contains(pk@) ==> {
                let k = old(self).known@[pk@]@;
                &&& final(t).cand_to_wid@ == without_addrs(old(t).cand_to_wid@, k.candidates)
                &&& final(t).allowed.order() == all_but(old(t).allowed.order(), pk@)
                &&& acts(final(out)@) == acts(old(out)@) + (seq![Act::RemovePeer(k.wid, pk@)]
                    + dels(k.allowed))
            },
            !old(self).known@.dom().contains(pk@) ==> {
                &&& *final(t) == *old(t)
                &&& final(out)@ == old(out)@
            },
    {
        let ghost known0 = self.known@;
        let ghost cands0 = t.cand_to_wid@;
        match self.known.remove(pk) {
            Some(k) => {
                let _ = t.peer_to_wid.remove(pk);
                t.drop_addrs(&k.candidates);
                let _ = t.allowed.remove(pk);
                let a = Action::RemovePeer { wid: k.wid, pubkey: *pk };
                proof {
                    acts_push(out@, a);
                }
                out.push(a);
                let none: Vec<String> = Vec::new();
                push_routes(&k.allowed_ips, &none, false, out);
                proof {
                    assert(crate::text::texts(none@) =~= seq![]);
                    not_in_empty(k@.allowed);
                    assert(acts(out@) =~= acts(old(out)@) + (seq![Act::RemovePeer(k.wid, pk@)]
                        + dels(k@.allowed)));
                    assert(self.known@.dom() =~= t.peer_to_wid@.dom());
                    assert(self.known@.dom() =~= t.allowed@.dom());
                    assert forall|a: SocketAddr| #[trigger]
                        t.cand_to_wid@.dom().contains(a) implies exists|m: Seq<u8>| #[trigger]
                        self.known@.dom().contains(m) && self.known@[m]@.candidates.contains(a)
                            && self.known@[m]@.wid == t.cand_to_wid@[a] by {
                        assert(cands0.dom().contains(a));
                        let m = choose|m: Seq<u8>| #[trigger]
                            known0.dom().contains(m) && known0[m]@.candidates.contains(a)
                                && known0[m]@.wid == cands0[a];
                        assert(m != pk@);
                        assert(self.known@.dom().contains(m));
                    }
                }
            },
            None => {
                proof {
                    assert(known0.remove(pk@) =~= known0);
                    assert(t.peer_to_wid@.remove(pk@) =~= t.peer_to_wid@);
                    assert(t.allowed@.remove(pk@) =~= t.allowed@);
                }
            },
        }
    }

    /// Takes on a new member: the worker in turn owns it, all tables lead to it, its networks are
    /// routed and its worker begins a handshake if this end is to.
    pub fn add_peer(&mut self, t: &mut Tables, p: PeerInfo, out: &mut Vec<Action>)
        requires
            old(self).agrees(*old(t)),
            !old(self).known@.dom().contains(p.pubkey@),
            old(self).ordinal < usize::MAX,
        ensures
            final(self).agrees(*final(t)),
            final(self).n == old(self).n,
            final(self).own_pub == old(self).own_pub,
            final(self).ordinal == old(self).ordinal + 1,
            ({
                let wid = (old(self).ordinal as int % old(self).n as int) as usize;
                &&& final(self).known@.dom() == old(self).known@.dom().insert(p.pubkey@)
                &&& final(self).known@[p.pubkey@]@ == (Membership {
                    wid,
                    candidates: p.candidates@,
                    allowed: crate::text::texts(p.allowed_ips@),
                })
                &&& forall|k: Seq<u8>|
                    k != p.pubkey@ && old(self).known@.dom().contains(k)
                        ==> #[trigger] final(self).known@[k] == old(self).known@[k]
                &&& final(t).peer_to_wid@ == old(t).peer_to_wid@.insert(p.pubkey@, wid)
                &&& final(t).allowed.order() == old(t).allowed.order().push(p.pubkey@)
                &&& final(t).cand_to_wid@ == with_addrs(
                    old(t).cand_to_wid@,
                    p.candidates@,
                    wid,
                )
                &&& acts(final(out)@) == acts(old(out)@) + adds(
                    crate::text::texts(p.allowed_ips@),
                ).push(
                    Act::AddPeer(
                        wid,
                        p.pubkey@,
                        p.candidates@,
                        crate::text::texts(p.allowed_ips@),
                        crate::mesh::order::before(old(self).own_pub@, p.pubkey@),
                    ),
                )
            }),
    {
        let ghost known0 = self.known@;
        let ghost cands0 = t.cand_to_wid@;
        let wid: usize = self.ordinal % self.n;
        self.ordinal += 1;
        t.peer_to_wid.insert(p.pubkey, wid);
        t.put_addrs(&p.candidates, wid);
        t.allowed.insert(p.pubkey, Allowed { ips: copy_texts(&p.allowed_ips), wid });
        let initiator: bool = begins(&self.own_pub, &p.pubkey);
        let none: Vec<String> = Vec::new();
        push_routes(&p.allowed_ips, &none, true, out);
        let a = Action::AddPeer {
            wid,
            pubkey: p.pubkey,
            candidates: copy_addrs(&p.candidates),
            allowed_ips: copy_texts(&p.allowed_ips),
            initiator,
        };
        proof {
            assert(crate::text::texts(none@) =~= seq![]);
            not_in_empty(crate::text::texts(p.allowed_ips@));
            acts_push(out@, a);
        }
        out.push(a);
        let ghost pk = p.pubkey@;
        let k = Known { wid, candidates: p.candidates, allowed_ips: p.allowed_ips };
        self.known.insert(p.pubkey, k);
        proof {
            assert(acts(out@) =~= acts(old(out)@) + adds(k@.allowed).push(a@));
            assert(self.known@.dom() =~= t.peer_to_wid@.dom());
            assert(self.known@.dom() =~= t.allowed@.dom());
            assert(self.known@[pk] == k);
            assert forall|a: SocketAddr| #[trigger]
                t.cand_to_wid@.dom().contains(a) implies exists|m: Seq<u8>| #[trigger]
                self.known@.dom().contains(m) && self.known@[m]@.candidates.contains(a)
                    && self.known@[m]@.wid == t.cand_to_wid@[a] by {
                if k@.candidates.contains(a) {
                    assert(self.known@.dom().contains(pk));
                } else {
                    assert(cands0.dom().contains(a));
                    let m = choose|m: Seq<u8>| #[trigger]
                        known0.dom().contains(m) && known0[m]@.candidates.contains(a)
                            && known0[m]@.wid == cands0[a];
                    assert(self.known@.dom().contains(m));
                    assert(m != pk);
                }
            }
        }
    }

    /// Takes in that a member is reached at other addresses. Its worker, its session and its
    /// networks stay.
    pub fn update_candidates(
        &mut self,
        t: &mut Tables,
        pk: &[u8; 32],
        candidates: Vec<SocketAddr>,
        out: &mut Vec<Action>,
    )
        requires
            old(self).agrees(*old(t)),
            old(self).known@.dom().contains(pk@),
        ensures
            final(self).agrees(*final(t)),
            final(self).n == old(self).n,
            final(self).own_pub == old(self).own_pub,
            final(self).ordinal == old(self).ordinal,
            final(t).peer_to_wid@ == old(t).peer_to_wid@,
            final(t).allowed == old(t).allowed,
            ({
                let k = old(self).known@[pk@]@;
                &&& final(self).known@.dom() == old(self).known@.dom()
                &&& final(self).known@[pk@]@ == (Membership { candidates: candidates@, ..k })
                &&& forall|m: Seq<u8>|
                    m != pk@ && old(self).known@.dom().contains(m)
                        ==> #[trigger] final(self).known@[m] == old(self).known@[m]
                &&& final(t).cand_to_wid@ == with_addrs(
                    without_addrs(old(t).cand_to_wid@, k.candidates),
                    candidates@,
                    k.wid,
                )
                &&& acts(final(out)@) == acts(old(out)@).push(
                    Act::UpdateCandidates(k.wid, pk@, candidates@),
                )
            }),
    {
        let ghost known0 = self.known@;
        let ghost cands0 = t.cand_to_wid@;
        match self.known.remove(pk) {
            Some(k) => {
                t.drop_addrs(&k.candidates);
                t.put_addrs(&candidates, k.wid);
                let a = Action::UpdateCandidates {
                    wid: k.wid,
                    pubkey: *pk,
                    candidates: copy_addrs(&candidates),
                };
                proof {
                    acts_push(out@, a);
                }
                out.push(a);
                let ghost old_k = k@;
                let moved = Known { wid: k.wid, candidates, allowed_ips: k.allowed_ips };
                self.known.insert(*pk, moved);
                proof {
                    assert(self.known@.dom() =~= known0.dom());
                    assert(self.known@[pk@] == moved);
                    assert forall|a: SocketAddr| #[trigger]
                        t.cand_to_wid@.dom().contains(a) implies exists|m: Seq<u8>| #[trigger]
                        self.known@.dom().contains(m) && self.known@[m]@.candidates.contains(a)
                            && self.known@[m]@.wid == t.cand_to_wid@[a] by {
                        if candidates@.contains(a) {
                            assert(self.known@.dom().contains(pk@));
                        } else {
                            assert(cands0.dom().contains(a));
                            let m = choose|m: Seq<u8>| #[trigger]
                                known0.dom().contains(m) && known0[m]@.candidates.contains(a)
                                    && known0[m]@.wid == cands0[a];
                            assert(m != pk@);
                            assert(self.known@.dom().contains(m));
                        }
                    }
                }
            },
            None => {},
        }
    }

    /// Takes in that other networks are behind a member. What is gone is no longer routed, what is
    /// new is; the member's worker, session and addresses stay.
    pub fn update_routes(
        &mut self,
        t: &mut Tables,
        pk: &[u8; 32],
        allowed_ips: Vec<String>,
        out: &mut Vec<Action>,
    )
        requires
            old(self).agrees(*old(t)),
            old(self).known@.dom().contains(pk@),
        ensures
            final(self).agrees(*final(t)),
            final(self).n == old(self).n,
            final(self).own_pub == old(self).own_pub,
            final(self).ordinal == old(self).ordinal,
            final(t).peer_to_wid@ == old(t).peer_to_wid@,
            final(t).cand_to_wid == old(t).cand_to_wid,
            final(t).allowed.order() == all_but(old(t).allowed.order(), pk@).push(pk@),
            ({
                let k = old(self).known@[pk@]@;
                let new = crate::text::texts(allowed_ips@);
                &&& final(self).known@.dom() == old(self).known@.dom()
                &&& final(self).known@[pk@]@ == (Membership { allowed: new, ..k })
                &&& forall|m: Seq<u8>|
                    m != pk@ && old(self).known@.dom().contains(m)
                        ==> #[trigger] final(self).known@[m] == old(self).known@[m]
                &&& acts(final(out)@) == acts(old(out)@) + (dels(not_in(k.allowed, new)) + adds(
                    not_in(new, k.allowed),
                ))
            }),
    {
        let ghost known0 = self.known@;
        match self.known.remove(pk) {
            Some(k) => {
                let _ = t.allowed.remove(pk);
                t.allowed.insert(*pk, Allowed { ips: copy_texts(&allowed_ips), wid: k.wid });
                push_routes(&k.allowed_ips, &allowed_ips, false, out);
                push_routes(&allowed_ips, &k.allowed_ips, true, out);
                proof {
                    let new = crate::text::texts(allowed_ips@);
                    assert(acts(out@) =~= acts(old(out)@) + (dels(not_in(k@.allowed, new)) + adds(
                        not_in(new, k@.allowed),
                    )));
                }
                let ghost old_k = k@;
                let moved = Known { wid: k.wid, candidates: k.candidates, allowed_ips };
                self.known.insert(*pk, moved);
                proof {
                    assert(self.known@.dom() =~= known0.dom());
                    assert(self.known@[pk@] == moved);
                    assert(self.known@.dom() =~= t.allowed@.dom());
                    assert forall|a: SocketAddr| #[trigger]
                        t.cand_to_wid@.dom().contains(a) implies exists|m: Seq<u8>| #[trigger]
                        self.known@.dom().contains(m) && self.known@[m]@.candidates.contains(a)
                            && self.known@[m]@.wid == t.cand_to_wid@[a] by {
                        let m = choose|m: Seq<u8>| #[trigger]
                            known0.dom().contains(m) && known0[m]@.candidates.contains(a)
                                && known0[m]@.wid == t.cand_to_wid@[a];
                        assert(self.known@.dom().contains(m));
                    }
                }
            },
            None => {},
        }
    }
}

/// The keys of some members.
pub open spec fn keys_of(v: Seq<PeerInfo>) -> Set<Seq<u8>> {
    v.map_values(|p: PeerInfo| p.pubkey@).to_set()
}

/// Whether no member is listed twice.
pub open spec fn listed_once(v: Seq<PeerInfo>) -> bool {
    forall|i: int, j: int|
        #![trigger v[i], v[j]]
        0 <= i < j < v.len() ==> v[i].pubkey@ != v[j].pubkey@
}

/// What is known of a member once the list was taken in: its addresses and its networks are the
/// listed ones. Addresses that only come in another order stay as they are.
pub open spec fn merged(k: Membership, p: PeerInfo) -> Membership {
    Membership {
        candidates: if same_set(k.candidates, p.candidates@) {
            k.candidates
        } else {
            p.candidates@
        },
        allowed: crate::text::texts(p.allowed_ips@),
        ..k
    }
}

/// The keys of the known members that are not listed, in the order in which they are known.
pub open spec fn unlisted_keys(entries: Seq<([u8; 32], Known)>, listed: Set<Seq<u8>>) -> Seq<
    Seq<u8>,
> {
    entries.map_values(|e: ([u8; 32], Known)| e.0@).filter(|k: Seq<u8>| !listed.contains(k))
}

/// What is known and where addresses lead, as values.
pub struct Standing {
    pub known: Map<Seq<u8>, Membership>,
    pub cands: Map<SocketAddr, usize>,
    /// The members in the order in which their networks are looked through.
    pub order: Seq<Seq<u8>>,
    /// How many members were ever taken on.
    pub ordinal: int,
}

/// What is known of some members, as values.
pub open spec fn members(known: Map<Seq<u8>, Known>) -> Map<Seq<u8>, Membership> {
    Map::new(|k: Seq<u8>| known.dom().contains(k), |k: Seq<u8>| known[k]@)
}

impl Reconciler {
    /// What is known and where addresses lead.
    pub open spec fn standing(self, t: Tables) -> Standing {
        Standing {
            known: members(self.known@),
            cands: t.cand_to_wid@,
            order: t.allowed.order(),
            ordinal: self.ordinal as int,
        }
    }
}

/// How things stand once some members are forgotten.
pub open spec fn after_forgetting(s: Standing, pks: Seq<Seq<u8>>) -> Standing
    decreases pks.len(),
{
    if pks.len() == 0 {
        s
    } else {
        let before = after_forgetting(s, pks.drop_last());
        Standing {
            known: before.known.remove(pks.last()),
            cands: without_addrs(before.cands, s.known[pks.last()].candidates),
            order: all_but(before.order, pks.last()),
            ..before
        }
    }
}

/// What is done to forget some members: of each, its worker drops it and then its networks are no
/// longer routed.
pub open spec fn forget_acts(s: Standing, pks: Seq<Seq<u8>>) -> Seq<Act>
    decreases pks.len(),
{
    if pks.len() == 0 {
        seq![]
    } else {
        let k = s.known[pks.last()];
        forget_acts(s, pks.drop_last()) + (seq![Act::RemovePeer(k.wid, pks.last())] + dels(
            k.allowed,
        ))
    }
}

impl Standing {
    /// The worker whose turn it is.
    pub open spec fn turn(self, n: usize) -> usize {
        (self.ordinal % (n as int)) as usize
    }

    /// How things stand once a listed member was taken in: a new one goes to the worker whose turn
    /// it is, a known one keeps its worker.
    pub open spec fn after_member(self, n: usize, p: PeerInfo) -> Standing {
        let pk = p.pubkey@;
        if !self.known.dom().contains(pk) {
            Standing {
                known: self.known.insert(
                    pk,
                    Membership {
                        wid: self.turn(n),
                        candidates: p.candidates@,
                        allowed: crate::text::texts(p.allowed_ips@),
                    },
                ),
                cands: with_addrs(self.cands, p.candidates@, self.turn(n)),
                order: self.order.push(pk),
                ordinal: self.ordinal + 1,
            }
        } else {
            let k = self.known[pk];
            Standing {
                known: self.known.insert(pk, merged(k, p)),
                cands: if same_set(k.candidates, p.candidates@) {
                    self.cands
                } else {
                    with_addrs(without_addrs(self.cands, k.candidates), p.candidates@, k.wid)
                },
                order: if merged(k, p).allowed == k.allowed {
                    self.order
                } else {
                    all_but(self.order, pk).push(pk)
                },
                ..self
            }
        }
    }

    /// What is done about a listed member. The worker of a known one is told of new addresses, and
    /// then what is gone of its networks is no longer routed and what is new is.
    pub open spec fn member_acts(self, own: Seq<u8>, n: usize, p: PeerInfo) -> Seq<Act> {
        let pk = p.pubkey@;
        let allowed = crate::text::texts(p.allowed_ips@);
        if !self.known.dom().contains(pk) {
            adds(allowed).push(
                Act::AddPeer(
                    self.turn(n),
                    pk,
                    p.candidates@,
                    allowed,
                    crate::mesh::order::before(own, pk),
                ),
            )
        } else {
            let k = self.known[pk];
            let moves = if same_set(k.candidates, p.candidates@) {
                seq![]
            } else {
                seq![Act::UpdateCandidates(k.wid, pk, p.candidates@)]
            };
            let routes = if k.allowed == allowed {
                seq![]
            } else {
                dels(not_in(k.allowed, allowed)) + adds(not_in(allowed, k.allowed))
            };
            moves + routes
        }
    }

    /// How things stand once the first `i` listed members were taken in, one after the other.
    pub open spec fn after_list(self, n: usize, v: Seq<PeerInfo>, i: nat) -> Standing
        decreases i,
    {
        if i == 0 {
            self
        } else {
            self.after_list(n, v, (i - 1) as nat).after_member(n, v[i - 1])
        }
    }

    /// What is done about the first `i` listed members.
    pub open spec fn list_acts(self, own: Seq<u8>, n: usize, v: Seq<PeerInfo>, i: nat) -> Seq<Act>
        decreases i,
    {
        if i == 0 {
            seq![]
        } else {
            let before = (i - 1) as nat;
            self.list_acts(own, n, v, before) + self.after_list(n, v, before).member_acts(
                own,
                n,
                v[i - 1],
            )
        }
    }
}

/// Whether a list has a member with this key.
fn lists(v: &Vec<PeerInfo>, pk: &[u8; 32]) -> (r: bool)
    ensures
        r == keys_of(v@).contains(pk@),
{
    let ghost keys = v@.map_values(|p: PeerInfo| p.pubkey@);
    let mut i: usize = 0;
    while i < v.len()
        invariant
            i <= v@.len(),
            keys == v@.map_values(|p: PeerInfo| p.pubkey@),
            forall|j: int| 0 <= j < i ==> #[trigger] keys[j] != pk@,
        decreases v@.len() - i,
    {
        if crate::wire::bytes_eq(v[i].pubkey.as_slice(), pk.as_slice()) {
            assert(keys[i as int] == pk@);
            return true;
        }
        assert(keys[i as int] != pk@);
        i += 1;
    }
    false
}

/// Adding to the keys.
proof fn keys_of_take(v: Seq<PeerInfo>, i: int)
    requires
        0 <= i < v.len(),
    ensures
        keys_of(v.take(i + 1)) == keys_of(v.take(i)).insert(v[i].pubkey@),
{
    let f = |p: PeerInfo| p.pubkey@;
    let more = v.take(i + 1).map_values(f);
    let fewer = v.take(i).map_values(f);
    assert(more =~= fewer.push(v[i].pubkey@));
    assert forall|x: Seq<u8>| more.contains(x) <==> (fewer.contains(x) || x == v[i].pubkey@) by {
        if more.contains(x) {
            let j = choose|j: int| 0 <= j < more.len() && more[j] == x;
            if j < i {
                assert(fewer[j] == x);
            }
        }
        if fewer.contains(x) {
            let j = choose|j: int| 0 <= j < fewer.len() && fewer[j] == x;
            assert(more[j] == x);
        }
        if x == v[i].pubkey@ {
            assert(more[i] == x);
        }
    }
    assert(keys_of(v.take(i + 1)) =~= keys_of(v.take(i)).insert(v[i].pubkey@));
}

impl Reconciler {
    /// Forgets every member that is not listed.
    fn drop_unlisted(&mut self, t: &mut Tables, desired: &Vec<PeerInfo>, out: &mut Vec<Action>)
        requires
            old(self).agrees(*old(t)),
        ensures
            final(self).agrees(*final(t)),
            final(self).n == old(self).n,
            final(self).own_pub == old(self).own_pub,
            final(self).ordinal == old(self).ordinal,
            final(self).known@.dom() == old(self).known@.dom().intersect(keys_of(desired@)),
            forall|k: Seq<u8>| #[trigger]
                final(self).known@.dom().contains(k) ==> final(self).known@[k] == old(
                    self,
                ).known@[k],
            final(self).standing(*final(t)) == after_forgetting(
                old(self).standing(*old(t)),
                unlisted_keys(old(self).known.entries@, keys_of(desired@)),
            ),
            acts(final(out)@) == acts(old(out)@) + forget_acts(
                old(self).standing(*old(t)),
                unlisted_keys(old(self).known.entries@, keys_of(desired@)),
            ),
    {
        let ghost known0 = self.known@;
        let ghost s0 = self.standing(*t);
        let ghost entries0 = self.known.entries@;
        let ghost listed = keys_of(desired@);
        let ghost key = |e: ([u8; 32], Known)| e.0@;
        let ghost unl = |k: Seq<u8>| !listed.contains(k);
        let ghost all_keys = entries0.map_values(key);
        let mut gone: Vec<[u8; 32]> = Vec::new();
        let ghost mut gone_keys: Seq<Seq<u8>> = seq![];
        let mut i: usize = 0;
        proof {
            reveal(Seq::filter);
            assert(all_keys.take(0).filter(unl) =~= seq![]);
        }
        while i < self.known.entries.len()
            invariant
                i <= self.known.entries@.len(),
                self.known.wf(),
                entries0 == self.known.entries@,
                listed == keys_of(desired@),
                key == (|e: ([u8; 32], Known)| e.0@),
                unl == (|k: Seq<u8>| !listed.contains(k)),
                all_keys == entries0.map_values(key),
                gone_keys == all_keys.take(i as int).filter(unl),
                gone_keys.len() == gone@.len(),
                forall|j: int| 0 <= j < gone@.len() ==> #[trigger] gone_keys[j] == gone@[j]@,
                forall|j: int| 0 <= j < gone@.len() ==> !listed.contains(#[trigger] gone_keys[j]),
                forall|j: int|
                    0 <= j < gone@.len() ==> exists|e: int|
                        0 <= e < i && #[trigger] entries0[e].0@ == #[trigger] gone_keys[j],
                forall|j: int, k: int|
                    #![trigger gone_keys[j], gone_keys[k]]
                    0 <= j < k < gone@.len() ==> gone_keys[j] != gone_keys[k],
                forall|e: int|
                    0 <= e < i && !listed.contains((#[trigger] entries0[e]).0@)
                        ==> gone_keys.contains(entries0[e].0@),
            decreases self.known.entries@.len() - i,
        {
            let pk = self.known.entries[i].0;
            proof {
                reveal(Seq::filter);
                assert(all_keys.take(i + 1).drop_last() =~= all_keys.take(i as int));
                assert(all_keys.take(i + 1).last() == pk@);
            }
            if !lists(desired, &pk) {
                let ghost before = gone_keys;
                gone.push(pk);
                proof {
                    gone_keys = before.push(pk@);
                    assert forall|j: int| 0 <= j < before.len() implies before[j] != pk@ by {
                        let e = choose|e: int|
                            0 <= e < i && #[trigger] entries0[e].0@ == before[j];
                        assert(entries0[e].0.model() != entries0[i as int].0.model());
                    }
                    assert(gone_keys[before.len() as int] == entries0[i as int].0@);
                    assert forall|j: int| 0 <= j < gone@.len() implies exists|e: int|
                        0 <= e < i + 1 && #[trigger] entries0[e].0@ == #[trigger] gone_keys[j] by {
                        if j < before.len() {
                            let e = choose|e: int|
                                0 <= e < i && #[trigger] entries0[e].0@ == before[j];
                            assert(entries0[e].0@ == gone_keys[j]);
                        } else {
                            assert(entries0[i as int].0@ == gone_keys[j]);
                        }
                    }
                    assert forall|e: int|
                        0 <= e < i + 1 && !listed.contains((#[trigger] entries0[e]).0@) implies
                        gone_keys.contains(entries0[e].0@) by {
                        if e < i {
                            let j = choose|j: int|
                                0 <= j < before.len() && before[j] == entries0[e].0@;
                            assert(gone_keys[j] == entries0[e].0@);
                        } else {
                            assert(gone_keys[before.len() as int] == entries0[e].0@);
                        }
                    }
                }
            }
            i += 1;
        }
        proof {
            assert(all_keys.take(all_keys.len() as int) =~= all_keys);
            assert(gone_keys == unlisted_keys(entries0, listed));
            assert forall|k: Seq<u8>| known0.dom().contains(k) && !listed.contains(k) implies
                gone_keys.contains(k) by {
                let j = choose|j: int| #[trigger] crate::assoc::has_at(entries0, k, j);
                assert(crate::assoc::has_at(entries0, k, j));
                assert(entries0[j].0@ == k);
            }
            assert forall|j: int| 0 <= j < gone@.len() implies known0.dom().contains(
                #[trigger] gone_keys[j],
            ) by {
                let e = choose|e: int|
                    0 <= e < entries0.len() && #[trigger] entries0[e].0@ == gone_keys[j];
                assert(crate::assoc::has_at(entries0, gone_keys[j], e));
            }
            assert(gone_keys.take(0) =~= seq![]);
            assert(acts(out@) =~= acts(old(out)@) + forget_acts(s0, gone_keys.take(0)));
        }
        let mut g: usize = 0;
        while g < gone.len()
            invariant
                g <= gone@.len(),
                self.agrees(*t),
                self.n == old(self).n,
                self.own_pub == old(self).own_pub,
                self.ordinal == old(self).ordinal,
                known0 == old(self).known@,
                gone_keys.len() == gone@.len(),
                forall|j: int| 0 <= j < gone@.len() ==> #[trigger] gone_keys[j] == gone@[j]@,
                forall|j: int| 0 <= j < gone@.len() ==> !listed.contains(#[trigger] gone_keys[j]),
                forall|j: int, k: int|
                    #![trigger gone_keys[j], gone_keys[k]]
                    0 <= j < k < gone@.len() ==> gone_keys[j] != gone_keys[k],
                forall|j: int|
                    0 <= j < gone@.len() ==> known0.dom().contains(#[trigger] gone_keys[j]),
                forall|k: Seq<u8>| #[trigger]
                    self.known@.dom().contains(k) ==> known0.dom().contains(k) && self.known@[k]
                        == known0[k],
                forall|k: Seq<u8>|
                    known0.dom().contains(k) && listed.contains(k)
                        ==> #[trigger] self.known@.dom().contains(k),
                forall|j: int|
                    0 <= j < g ==> !self.known@.dom().contains(#[trigger] gone_keys[j]),
                forall|j: int|
                    g <= j < gone@.len() ==> self.known@.dom().contains(#[trigger] gone_keys[j]),
                s0.known == members(known0),
                self.standing(*t) == after_forgetting(s0, gone_keys.take(g as int)),
                acts(out@) == acts(old(out)@) + forget_acts(s0, gone_keys.take(g as int)),
            decreases gone@.len() - g,
        {
            let pk = gone[g];
            let ghost known1 = self.known@;
            assert(gone_keys[g as int] == pk@);
            self.remove_peer(t, &pk, out);
            proof {
                assert(gone_keys.take(g + 1).drop_last() =~= gone_keys.take(g as int));
                assert(acts(out@) =~= acts(old(out)@) + forget_acts(s0, gone_keys.take(g + 1)));
                assert(members(self.known@) =~= members(known1).remove(pk@));
            }
            g += 1;
        }
        proof {
            assert(gone_keys.take(gone_keys.len() as int) =~= gone_keys);
            assert forall|k: Seq<u8>|
                self.known@.dom().contains(k) == known0.dom().intersect(listed).contains(k) by {
                if self.known@.dom().contains(k) && !listed.contains(k) {
                    assert(gone_keys.contains(k));
                    let j = choose|j: int| 0 <= j < gone_keys.len() && gone_keys[j] == k;
                    assert(!self.known@.dom().contains(gone_keys[j]));
                }
            }
            assert(self.known@.dom() =~= known0.dom().intersect(listed));
        }
    }

    /// Takes in one listed member.
    fn take_in(&mut self, t: &mut Tables, p: &PeerInfo, out: &mut Vec<Action>)
        requires
            old(self).agrees(*old(t)),
            old(self).ordinal < usize::MAX,
        ensures
            final(self).agrees(*final(t)),
            final(self).n == old(self).n,
            final(self).own_pub == old(self).own_pub,
            final(self).standing(*final(t)) == old(self).standing(*old(t)).after_member(
                old(self).n,
                *p,
            ),
            acts(final(out)@) == acts(old(out)@) + old(self).standing(*old(t)).member_acts(
                old(self).own_pub@,
                old(self).n,
                *p,
            ),
    {
        let ghost s0 = self.standing(*t);
        let ghost before = acts(out@);
        let plan: Option<(bool, bool)> = match self.known.get(&p.pubkey) {
            None => None,
            Some(k) => Some(
                (
                    same_endpoints(&k.candidates, &p.candidates),
                    texts_eq(&k.allowed_ips, &p.allowed_ips),
                ),
            ),
        };
        match plan {
            None => {
                let copy = PeerInfo {
                    pubkey: p.pubkey,
                    candidates: copy_addrs(&p.candidates),
                    allowed_ips: copy_texts(&p.allowed_ips),
                    overlay: p.overlay,
                };
                self.add_peer(t, copy, out);
            },
            Some((same_addrs, same_nets)) => {
                if !same_addrs {
                    self.update_candidates(t, &p.pubkey, copy_addrs(&p.candidates), out);
                }
                if !same_nets {
                    self.update_routes(t, &p.pubkey, copy_texts(&p.allowed_ips), out);
                }
            },
        }
        proof {
            assert(members(self.known@) =~= s0.after_member(self.n, *p).known);
            assert(acts(out@) =~= before + s0.member_acts(self.own_pub@, self.n, *p));
        }
    }

    /// Brings tables and workers in step with the list of members: first forgets who is gone, then
    /// takes in who is new and who has changed.
    pub fn reconcile(&mut self, t: &mut Tables, desired: &Vec<PeerInfo>, out: &mut Vec<Action>)
        requires
            old(self).agrees(*old(t)),
            old(self).ordinal + desired@.len() <= usize::MAX,
        ensures
            final(self).agrees(*final(t)),
            final(self).n == old(self).n,
            final(self).own_pub == old(self).own_pub,
            final(self).known@.dom() == keys_of(desired@),
            ({
                let s = old(self).standing(*old(t));
                let gone = unlisted_keys(old(self).known.entries@, keys_of(desired@));
                let kept = after_forgetting(s, gone);
                let n = old(self).n;
                let own = old(self).own_pub@;
                &&& final(self).standing(*final(t)) == kept.after_list(n, desired@, desired@.len())
                &&& acts(final(out)@) == acts(old(out)@) + (forget_acts(s, gone) + kept.list_acts(
                    own,
                    n,
                    desired@,
                    desired@.len(),
                ))
            }),
    {
        let ghost n = self.n;
        let ghost own = self.own_pub@;
        let ghost gone = unlisted_keys(self.known.entries@, keys_of(desired@));
        let ghost s = self.standing(*t);
        self.drop_unlisted(t, desired, out);
        let ghost dom = self.known@.dom();
        let ghost kept = self.standing(*t);
        let ghost dropped = acts(out@);
        let mut i: usize = 0;
        proof {
            assert(desired@.take(0).map_values(|p: PeerInfo| p.pubkey@) =~= seq![]);
            assert(dom =~= dom.union(keys_of(desired@.take(0))));
            assert(acts(out@) =~= dropped + kept.list_acts(own, n, desired@, 0));
        }
        while i < desired.len()
            invariant
                i <= desired@.len(),
                self.agrees(*t),
                self.n == old(self).n == n,
                self.own_pub == old(self).own_pub,
                own == self.own_pub@,
                self.ordinal <= old(self).ordinal + i,
                old(self).ordinal + desired@.len() <= usize::MAX,
                self.known@.dom() == dom.union(keys_of(desired@.take(i as int))),
                self.standing(*t) == kept.after_list(n, desired@, i as nat),
                acts(out@) == dropped + kept.list_acts(own, n, desired@, i as nat),
            decreases desired@.len() - i,
        {
            let ghost dom1 = self.known@.dom();
            self.take_in(t, &desired[i], out);
            proof {
                assert(self.known@.dom() =~= members(self.known@).dom());
                assert(self.known@.dom() =~= dom1.insert(desired@[i as int].pubkey@));
                keys_of_take(desired@, i as int);
                assert(self.known@.dom() =~= dom.union(keys_of(desired@.take(i + 1))));
                assert(acts(out@) =~= dropped + kept.list_acts(own, n, desired@, (i + 1) as nat));
            }
            i += 1;
        }
        assert(desired@.take(desired@.len() as int) =~= desired@);
        assert(self.known@.dom() =~= keys_of(desired@));
        assert(acts(out@) =~= acts(old(out)@) + (forget_acts(s, gone) + kept.list_acts(
            own,
            n,
            desired@,
            desired@.len(),
        )));
    }
}

/// After the list was taken in, a member that is not on it is in no table: packets to it, from it
/// or with its key go nowhere, and every address in the tables is a listed member's.
pub proof fn unlisted_is_nowhere(
    n: usize,
    known: Map<Seq<u8>, Known>,
    peers: Map<Seq<u8>, usize>,
    cands: Map<SocketAddr, usize>,
    allowed: Map<Seq<u8>, Allowed>,
    desired: Seq<PeerInfo>,
    pk: Seq<u8>,
)
    requires
        in_step(n, known, peers, cands, allowed),
        known.dom() == keys_of(desired),
        !keys_of(desired).contains(pk),
    ensures
        !known.dom().contains(pk),
        !peers.dom().contains(pk),
        !allowed.dom().contains(pk),
        forall|a: SocketAddr| #[trigger]
            cands.dom().contains(a) ==> exists|k: Seq<u8>|
                keys_of(desired).contains(k) && #[trigger] known[k]@.candidates.contains(a),
{
    assert forall|a: SocketAddr| #[trigger] cands.dom().contains(a) implies exists|k: Seq<u8>|
        keys_of(desired).contains(k) && #[trigger] known[k]@.candidates.contains(a) by {
        let k = choose|k: Seq<u8>| #[trigger]
            known.dom().contains(k) && known[k]@.candidates.contains(a) && known[k]@.wid
                == cands[a];
        assert(known[k]@.candidates.contains(a));
    }
}

/// A member that was known is known as the list has it from then on, whatever has changed; its
/// worker never changes.
pub proof fn merged_follows_the_list(k: Membership, p: PeerInfo)
    ensures
        merged(k, p).allowed == crate::text::texts(p.allowed_ips@),
        same_set(merged(k, p).candidates, p.candidates@),
        merged(k, p).wid == k.wid,
{
}

/// Taking in the same list again changes nothing more.
pub proof fn merging_settles(s: Standing, own: Seq<u8>, n: usize, p: PeerInfo)
    ensures
        ({
            let after = s.after_member(n, p);
            &&& after.after_member(n, p) == after
            &&& after.member_acts(own, n, p) == Seq::<Act>::empty()
        }),
{
    let after = s.after_member(n, p);
    let k = after.known[p.pubkey@];
    assert(merged(k, p) == k);
    assert(after.known.insert(p.pubkey@, k) =~= after.known);
    assert(after.member_acts(own, n, p) =~= Seq::<Act>::empty());
}

/// A known member keeps its session whatever has changed: its worker is never told to forget it or
/// to take it on anew.
pub proof fn changes_keep_the_session(s: Standing, own: Seq<u8>, n: usize, p: PeerInfo)
    requires
        s.known.dom().contains(p.pubkey@),
    ensures
        forall|i: int|
            0 <= i < s.member_acts(own, n, p).len() ==> !(#[trigger] s.member_acts(own, n, p)[i]
                is RemovePeer) && !(s.member_acts(own, n, p)[i] is AddPeer),
{
}

/// What is known of the first `i` of some members that are listed once each: what was known of the
/// others stays, and of each it is as the list has it.
proof fn list_is_taken_in(s: Standing, n: usize, v: Seq<PeerInfo>, i: nat)
    requires
        listed_once(v),
        i <= v.len(),
    ensures
        forall|j: int|
            i <= j < v.len() ==> {
                let pk = (#[trigger] v[j]).pubkey@;
                let after = s.after_list(n, v, i);
                &&& after.known.dom().contains(pk) == s.known.dom().contains(pk)
                &&& after.known[pk] == s.known[pk]
            },
        forall|j: int|
            0 <= j < i ==> {
                let pk = (#[trigger] v[j]).pubkey@;
                let after = s.after_list(n, v, i);
                &&& after.known.dom().contains(pk)
                &&& as_listed(s.known, after.known[pk], v[j])
            },
    decreases i,
{
    if i > 0 {
        list_is_taken_in(s, n, v, (i - 1) as nat);
        let last = v[i - 1];
        assert forall|j: int| 0 <= j < v.len() && j != i - 1 implies (#[trigger] v[j]).pubkey@
            != last.pubkey@ by {
            if j < i - 1 {
                assert(v[j].pubkey@ != v[i - 1].pubkey@);
            } else {
                assert(v[i - 1].pubkey@ != v[j].pubkey@);
            }
        }
    }
}

/// Whether `k` is what is known of a listed member once the list was taken in.
pub open spec fn as_listed(before: Map<Seq<u8>, Membership>, k: Membership, p: PeerInfo) -> bool {
    if before.dom().contains(p.pubkey@) {
        k == merged(before[p.pubkey@], p)
    } else {
        k.candidates == p.candidates@ && k.allowed == crate::text::texts(p.allowed_ips@)
    }
}

/// Where each member is listed once, all of them are known afterwards, new ones as the list has
/// them and the others with what has changed.
pub proof fn everyone_is_taken_in(s: Standing, n: usize, v: Seq<PeerInfo>, j: int)
    requires
        listed_once(v),
        0 <= j < v.len(),
    ensures
        s.after_list(n, v, v.len()).known.dom().contains(v[j].pubkey@),
        as_listed(s.known, s.after_list(n, v, v.len()).known[v[j].pubkey@], v[j]),
{
    list_is_taken_in(s, n, v, v.len());
}

/// How many members were taken on of those listed, where none was known.
proof fn all_are_new(s: Standing, n: usize, v: Seq<PeerInfo>, i: nat)
    requires
        s.known.dom() == Set::<Seq<u8>>::empty(),
        listed_once(v),
        i <= v.len(),
    ensures
        s.after_list(n, v, i).ordinal == s.ordinal + i,
    decreases i,
{
    if i > 0 {
        all_are_new(s, n, v, (i - 1) as nat);
        list_is_taken_in(s, n, v, (i - 1) as nat);
        assert(!s.known.dom().contains(v[i - 1].pubkey@));
    }
}

/// A node that starts takes in every listed member, and its workers own them in turn: worker
/// `i mod n` the member at `i`.
pub proof fn start_enrolls_in_turn(s: Standing, own: Seq<u8>, n: usize, v: Seq<PeerInfo>, i: nat)
    requires
        n > 0,
        s.known.dom() == Set::<Seq<u8>>::empty(),
        s.ordinal == 0,
        listed_once(v),
        i < v.len(),
    ensures
        s.list_acts(own, n, v, i + 1).last() == Act::AddPeer(
            (i % (n as nat)) as usize,
            v[i as int].pubkey@,
            v[i as int].candidates@,
            crate::text::texts(v[i as int].allowed_ips@),
            crate::mesh::order::before(own, v[i as int].pubkey@),
        ),
{
    all_are_new(s, n, v, i);
    list_is_taken_in(s, n, v, i);
    let pk = v[i as int].pubkey@;
    assert(!s.known.dom().contains(pk));
    let front = s.list_acts(own, n, v, i);
    let tail = s.after_list(n, v, i).member_acts(own, n, v[i as int]);
    assert(s.list_acts(own, n, v, i + 1) == front + tail);
    assert((front + tail).last() == tail.last());
}

/// A member that is new is handed to the worker whose turn it is, with its addresses and networks;
/// the side whose key is smaller begins. Each of its networks is routed, before that.
pub proof fn newcomer_is_handed_over(
    s: Standing,
    own: Seq<u8>,
    n: usize,
    p: PeerInfo,
    net: int,
    a: SocketAddr,
)
    requires
        !s.known.dom().contains(p.pubkey@),
        0 <= net < p.allowed_ips@.len(),
    ensures
        ({
            let acts = s.member_acts(own, n, p);
            let after = s.after_member(n, p);
            &&& acts.len() == p.allowed_ips@.len() + 1
            &&& acts[net] == Act::RouteAdd(p.allowed_ips@[net]@)
            &&& acts.last() == Act::AddPeer(
                (s.ordinal % n as int) as usize,
                p.pubkey@,
                p.candidates@,
                crate::text::texts(p.allowed_ips@),
                crate::mesh::order::before(own, p.pubkey@),
            )
            &&& after.ordinal == s.ordinal + 1
            &&& after.known[p.pubkey@].wid == (s.ordinal % n as int) as usize
            &&& after.known[p.pubkey@].candidates == p.candidates@
            &&& p.candidates@.contains(a) ==> after.cands.dom().contains(a) && after.cands[a]
                == after.known[p.pubkey@].wid
            &&& !p.candidates@.contains(a) ==> after.cands.dom().contains(a)
                == s.cands.dom().contains(a)
        }),
{
}

/// A member that stays is told to its worker again only if its addresses are others than before;
/// then exactly the new ones lead to that worker.
pub proof fn moved_member_is_followed(
    s: Standing,
    own: Seq<u8>,
    n: usize,
    p: PeerInfo,
    a: SocketAddr,
)
    requires
        s.known.dom().contains(p.pubkey@),
    ensures
        ({
            let k = s.known[p.pubkey@];
            let acts = s.member_acts(own, n, p);
            let after = s.after_member(n, p);
            let told = Act::UpdateCandidates(k.wid, p.pubkey@, p.candidates@);
            &&& k.candidates.len() == p.candidates@.len() && (forall|x: SocketAddr|
                k.candidates.contains(x) == #[trigger] p.candidates@.contains(x))
                ==> !acts.contains(told) && after.cands == s.cands
            &&& k.candidates.contains(a) && !p.candidates@.contains(a) ==> acts[0] == told
                && !after.cands.dom().contains(a)
            &&& p.candidates@.contains(a) && !k.candidates.contains(a) ==> acts[0] == told
                && after.cands.dom().contains(a) && after.cands[a] == k.wid
            &&& k.candidates.len() != p.candidates@.len() ==> acts[0] == told
        }),
{
    let k = s.known[p.pubkey@];
    let acts = s.member_acts(own, n, p);
    let allowed = crate::text::texts(p.allowed_ips@);
    let told = Act::UpdateCandidates(k.wid, p.pubkey@, p.candidates@);
    if forall|x: SocketAddr|
        k.candidates.contains(x) == #[trigger] p.candidates@.contains(x) {
        assert(k.candidates.to_set() =~= p.candidates@.to_set());
        if same_set(k.candidates, p.candidates@) && acts.contains(told) {
            let i = choose|i: int| 0 <= i < acts.len() && acts[i] == told;
            let d = dels(not_in(k.allowed, allowed));
            if i < d.len() {
                assert(acts[i] == d[i]);
            } else {
                assert(acts[i] == adds(not_in(allowed, k.allowed))[i - d.len()]);
            }
        }
    }
    if k.candidates.contains(a) != p.candidates@.contains(a) {
        assert(k.candidates.to_set().contains(a) != p.candidates@.to_set().contains(a));
    }
}

/// The networks of a member that stays are routed as the list has them: one that is gone is no
/// longer routed, a new one is, and one that stays is left alone.
pub proof fn networks_follow_the_list(
    s: Standing,
    own: Seq<u8>,
    n: usize,
    p: PeerInfo,
    net: Seq<char>,
)
    requires
        s.known.dom().contains(p.pubkey@),
    ensures
        ({
            let before = s.known[p.pubkey@].allowed.contains(net);
            let now = crate::text::texts(p.allowed_ips@).contains(net);
            let acts = s.member_acts(own, n, p);
            &&& acts.contains(Act::RouteDel(net)) <==> before && !now
            &&& acts.contains(Act::RouteAdd(net)) <==> now && !before
        }),
{
    let k = s.known[p.pubkey@];
    let old = k.allowed;
    let new = crate::text::texts(p.allowed_ips@);
    let acts = s.member_acts(own, n, p);
    let gone = not_in(old, new);
    let come = not_in(new, old);
    let m = if same_set(k.candidates, p.candidates@) {
        0int
    } else {
        1int
    };
    filtered_are(old, new, net);
    filtered_are(new, old, net);
    if old != new {
        if gone.contains(net) {
            let i = choose|i: int| 0 <= i < gone.len() && gone[i] == net;
            assert(acts[m + i] == Act::RouteDel(net));
        }
        if come.contains(net) {
            let i = choose|i: int| 0 <= i < come.len() && come[i] == net;
            assert(acts[m + gone.len() + i] == Act::RouteAdd(net));
        }
        if acts.contains(Act::RouteDel(net)) {
            let i = choose|i: int| 0 <= i < acts.len() && acts[i] == Act::RouteDel(net);
            if i >= m && i < m + gone.len() {
                assert(acts[i] == Act::RouteDel(gone[i - m]));
            } else if i >= m {
                assert(acts[i] == Act::RouteAdd(come[i - m - gone.len()]));
            }
        }
        if acts.contains(Act::RouteAdd(net)) {
            let i = choose|i: int| 0 <= i < acts.len() && acts[i] == Act::RouteAdd(net);
            if i >= m && i < m + gone.len() {
                assert(acts[i] == Act::RouteDel(gone[i - m]));
            } else if i >= m {
                assert(acts[i] == Act::RouteAdd(come[i - m - gone.len()]));
            }
        }
    }
}

/// What is in one list and not in another.
proof fn filtered_are(from: Seq<Seq<char>>, but: Seq<Seq<char>>, net: Seq<char>)
    ensures
        not_in(from, but).contains(net) <==> from.contains(net) && !but.contains(net),
{
    let keep = |s: Seq<char>| !but.contains(s);
    let f = from.filter(keep);
    broadcast use vstd::seq_lib::group_filter_ensures;

    if from.contains(net) && !but.contains(net) {
        let i = choose|i: int| 0 <= i < from.len() && from[i] == net;
        assert(keep(from[i]));
        assert(f.contains(from[i]));
    }
    if f.contains(net) {
        let i = choose|i: int| 0 <= i < f.len() && f[i] == net;
        assert(keep(f[i]));
        from.lemma_filter_contains_rev(keep, net);
    }
}

/// A member that is no longer listed is forgotten by its worker and by the node, its networks are no
/// longer routed, and no address leads to it; the others stay.
pub proof fn leaver_is_forgotten(s: Standing, pk: Seq<u8>, net: int, other: Seq<u8>, a: SocketAddr)
    requires
        s.known.dom().contains(pk),
        0 <= net < s.known[pk].allowed.len(),
        other != pk,
    ensures
        ({
            let acts = forget_acts(s, seq![pk]);
            let after = after_forgetting(s, seq![pk]);
            &&& acts.len() == 1 + s.known[pk].allowed.len()
            &&& acts[0] == Act::RemovePeer(s.known[pk].wid, pk)
            &&& acts[1 + net] == Act::RouteDel(s.known[pk].allowed[net])
            &&& !after.known.dom().contains(pk)
            &&& after.known.dom().contains(other) == s.known.dom().contains(other)
            &&& s.known.dom().contains(other) ==> after.known[other] == s.known[other]
            &&& s.known[pk].candidates.contains(a) ==> !after.cands.dom().contains(a)
            &&& !s.known[pk].candidates.contains(a) ==> after.cands.dom().contains(a)
                == s.cands.dom().contains(a)
            &&& after.ordinal == s.ordinal
        }),
{
    assert(seq![pk].drop_last() =~= Seq::<Seq<u8>>::empty());
    assert(seq![pk].last() == pk);
    assert(after_forgetting(s, Seq::<Seq<u8>>::empty()) == s);
    assert(forget_acts(s, Seq::<Seq<u8>>::empty()) =~= Seq::<Act>::empty());
}

/// Who is known and no longer listed is forgotten, and nobody else.
pub proof fn unlisted_are_forgotten(
    entries: Seq<([u8; 32], Known)>,
    listed: Set<Seq<u8>>,
    i: int,
    pk: Seq<u8>,
)
    requires
        0 <= i < entries.len(),
    ensures
        unlisted_keys(entries, listed).contains(entries[i].0@) <==> !listed.contains(
            entries[i].0@,
        ),
        unlisted_keys(entries, listed).contains(pk) ==> !listed.contains(pk),
{
    broadcast use vstd::seq_lib::group_filter_ensures;

    let keys = entries.map_values(|e: ([u8; 32], Known)| e.0@);
    let out = |k: Seq<u8>| !listed.contains(k);
    let f = keys.filter(out);
    assert(keys[i] == entries[i].0@);
    if !listed.contains(entries[i].0@) {
        assert(out(keys[i]));
        assert(f.contains(keys[i]));
    }
    if f.contains(entries[i].0@) {
        let k = choose|k: int| 0 <= k < f.len() && f[k] == entries[i].0@;
        assert(out(f[k]));
    }
    if f.contains(pk) {
        let k = choose|k: int| 0 <= k < f.len() && f[k] == pk;
        assert(out(f[k]));
    }
}

/// While the tables agree, every member has one worker, the same in all of them, and an address
/// leads to the worker of a member that has it.
pub proof fn tables_lead_to_one_worker(r: Reconciler, t: Tables, pk: Seq<u8>, a: SocketAddr)
    requires
        r.agrees(t),
    ensures
        r.known@.dom().contains(pk) ==> {
            &&& t.peer_to_wid@.dom().contains(pk)
            &&& t.peer_to_wid@[pk] == r.known@[pk].wid
            &&& t.peer_to_wid@[pk] < r.n
            &&& t.allowed@[pk].wid == r.known@[pk].wid
        },
        t.peer_to_wid@.dom().contains(pk) ==> r.known@.dom().contains(pk),
        t.cand_to_wid@.dom().contains(a) ==> exists|k: Seq<u8>| #[trigger]
            r.known@.dom().contains(k) && r.known@[k].candidates@.contains(a) && r.known@[k].wid
                == t.cand_to_wid@[a],
        r.standing(t).known.dom() == r.known@.dom(),
        r.known@.dom().contains(pk) ==> r.standing(t).known[pk] == r.known@[pk]@,
        r.standing(t).cands == t.cand_to_wid@,
        r.standing(t).ordinal == r.ordinal,
{
    assert(r.standing(t).known.dom() =~= r.known@.dom());
    if r.known@.dom().contains(pk) {
        assert(r.known@[pk]@.wid == r.known@[pk].wid);
    }
}

} // verus!
