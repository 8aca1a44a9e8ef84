//! A group of bonded TLS connections that looks like one channel. A packet goes to the healthiest
//! connection, and to the next best where that one does not take it; among equally healthy ones a
//! rotating cursor decides.

use crate::bond::link::{all_refused, count_alive, distance, offer, was_offered, went_to, Link};
use crate::error::Error;
use crate::health::ConnHealth;
use tokio::sync::mpsc::Sender;
use vstd::prelude::*;

verus! {

/// A bond group.
pub struct BondGroup {
    pub bond_id: [u8; 16],
    pub links: Vec<Link>,
    /// The cursor that rotates with each packet.
    pub spray: usize,
    pub closed: bool,
}

/// Whether link `i` comes before link `j`: it scores lower, or the same and is nearer to the
/// cursor.
pub open spec fn preferred(links: Seq<Link>, start: int, i: int, j: int) -> bool {
    let a = links[i].health.score_value();
    let b = links[j].health.score_value();
    a < b || (a == b && distance(start, i, links.len() as int) < distance(
        start,
        j,
        links.len() as int,
    ))
}

/// Whether link `i` is usable and has not been tried.
pub open spec fn open_to_try(links: Seq<Link>, tried: Seq<bool>, i: int) -> bool {
    0 <= i < links.len() && links[i].alive() && !tried[i]
}

/// Whether `r` is the best usable link that has not been tried, as seen from the cursor; none only
/// where there is none.
pub open spec fn is_best(links: Seq<Link>, tried: Seq<bool>, start: int, r: Option<usize>) -> bool {
    match r {
        Some(i) => {
            &&& open_to_try(links, tried, i as int)
            &&& forall|j: int|
                #[trigger] open_to_try(links, tried, j) && j != i ==> preferred(
                    links,
                    start,
                    i as int,
                    j,
                )
        },
        None => forall|j: int| !#[trigger] open_to_try(links, tried, j),
    }
}

/// How many of some answers are yes.
spec fn true_count(v: Seq<bool>) -> int
    decreases v.len(),
{
    if v.len() == 0 {
        0
    } else {
        true_count(v.drop_last()) + if v.last() {
            1int
        } else {
            0int
        }
    }
}

/// One answer more.
proof fn true_count_set(v: Seq<bool>, i: int)
    requires
        0 <= i < v.len(),
        !v[i],
    ensures
        true_count(v.update(i, true)) == true_count(v) + 1,
    decreases v.len(),
{
    let w = v.update(i, true);
    if i == v.len() - 1 {
        assert(w.drop_last() =~= v.drop_last());
    } else {
        true_count_set(v.drop_last(), i);
        assert(w.drop_last() =~= v.drop_last().update(i, true));
    }
}

/// There are no more answers than there are places.
proof fn true_count_bounds(v: Seq<bool>)
    ensures
        0 <= true_count(v) <= v.len(),
    decreases v.len(),
{
    if v.len() > 0 {
        true_count_bounds(v.drop_last());
    }
}

/// The links that were tried, the one that refused last included.
pub open spec fn with_refused(tried: Seq<bool>, refused: Option<usize>) -> Seq<bool> {
    match refused {
        Some(i) => tried.update(i as int, true),
        None => tried,
    }
}

/// Whether a packet went to link `i`, after every better usable link had refused it.
pub open spec fn went_to_best(
    before: Seq<Link>,
    after: Seq<Link>,
    pkt: Seq<u8>,
    start: int,
    i: int,
) -> bool {
    went_to(before, after, pkt, i, |j: int| preferred(before, start, j, i))
}

/// No link was tried yet.
fn untried(n: usize) -> (v: Vec<bool>)
    ensures
        v@.len() == n,
        forall|j: int| 0 <= j < n ==> !#[trigger] v@[j],
        true_count(v@) == 0,
{
    let mut v: Vec<bool> = Vec::new();
    let mut i: usize = 0;
    while i < n
        invariant
            i <= n,
            v@.len() == i,
            forall|j: int| 0 <= j < i ==> !#[trigger] v@[j],
            true_count(v@) == 0,
        decreases n - i,
    {
        let ghost before = v@;
        v.push(false);
        assert(v@.drop_last() =~= before);
        i += 1;
    }
    v
}

impl BondGroup {
    /// An empty group.
    pub fn new(bond_id: [u8; 16]) -> (g: BondGroup)
        ensures
            g.bond_id == bond_id,
            g.links@.len() == 0,
            g.spray == 0,
            !g.closed,
    {
        BondGroup { bond_id, links: Vec::new(), spray: 0, closed: false }
    }

    /// Closes the group; says whether it was open, and its waiting tasks are to be woken.
    pub fn close(&mut self) -> (was_open: bool)
        ensures
            final(self).closed,
            was_open == !old(self).closed,
            final(self).links@ == old(self).links@,
            final(self).bond_id == old(self).bond_id,
            final(self).spray == old(self).spray,
    {
        let was_open: bool = !self.closed;
        self.closed = true;
        was_open
    }

    /// Adds a link; it comes last. A closed group takes none.
    pub fn add_link(&mut self, health: ConnHealth, tx: Sender<Vec<u8>>) -> (added: bool)
        ensures
            added == !old(self).closed,
            added ==> {
                &&& final(self).links@.drop_last() == old(self).links@
                &&& final(self).links@.len() == old(self).links@.len() + 1
                &&& final(self).links@.last().health == health
                &&& final(self).links@.last().tx == tx
                &&& final(self).links@.last().offers@ == Seq::<(Seq<u8>, bool)>::empty()
            },
            !added ==> final(self).links@ == old(self).links@,
            final(self).bond_id == old(self).bond_id,
            final(self).spray == old(self).spray,
            final(self).closed == old(self).closed,
    {
        if self.closed {
            return false;
        }
        self.links.push(Link::new(health, tx));
        assert(self.links@.drop_last() =~= old(self).links@);
        true
    }

    /// The best usable link that has not been tried, as seen from the cursor `start`.
    pub fn best_untried(&self, start: usize, tried: &Vec<bool>) -> (r: Option<usize>)
        requires
            start < self.links@.len(),
            tried@.len() == self.links@.len(),
        ensures
            is_best(self.links@, tried@, start as int, r),
    {
        let n: usize = self.links.len();
        let mut best: Option<usize> = None;
        let mut i: usize = 0;
        while i < n
            invariant
                start < n == self.links@.len() == tried@.len(),
                i <= n,
                match best {
                    Some(b) => {
                        &&& b < i
                        &&& open_to_try(self.links@, tried@, b as int)
                        &&& forall|j: int|
                            #[trigger] open_to_try(self.links@, tried@, j) && j < i && j != b
                                ==> preferred(self.links@, start as int, b as int, j)
                    },
                    None => forall|j: int| j < i ==> !#[trigger] open_to_try(self.links@, tried@, j),
                },
            decreases n - i,
        {
            if !self.links[i].health.is_dead() && !tried[i] {
                let better: bool = match best {
                    None => true,
                    Some(b) => {
                        let sb: u64 = self.links[b].health.score();
                        let si: u64 = self.links[i].health.score();
                        si < sb || (si == sb && around(start, i, n) < around(start, b, n))
                    },
                };
                if better {
                    best = Some(i);
                }
            }
            i += 1;
        }
        best
    }

    /// The link to try once `refused` did not take the packet: the best one that has not been
    /// tried. None is left where every usable link was tried.
    pub fn next_link(&self, start: usize, tried: &mut Vec<bool>, refused: Option<usize>) -> (r:
        Option<usize>)
        requires
            start < self.links@.len(),
            old(tried)@.len() == self.links@.len(),
            refused matches Some(i) ==> i < self.links@.len(),
        ensures
            final(tried)@ == with_refused(old(tried)@, refused),
            is_best(self.links@, final(tried)@, start as int, r),
    {
        if let Some(i) = refused {
            tried.set(i, true);
        }
        self.best_untried(start, tried)
    }

    /// Sends a packet through the best available connection, and through the next best where that
    /// one does not take it. Whether a link takes it depends on the task behind it.
    pub fn send(&mut self, pkt: Vec<u8>) -> (r: Result<(), Error>)
        ensures
            final(self).bond_id == old(self).bond_id,
            final(self).closed == old(self).closed,
            old(self).closed ==> {
                &&& *final(self) == *old(self)
                &&& r matches Err(e)
                &&& e.is_unexpected("bond group closed"@)
            },
            !old(self).closed && old(self).links@.len() == 0 ==> {
                &&& *final(self) == *old(self)
                &&& r matches Err(e)
                &&& e.is_unexpected("no bonded connections"@)
            },
            !old(self).closed && old(self).links@.len() > 0 ==> {
                let start = old(self).spray as int % old(self).links@.len() as int;
                &&& final(self).spray == (old(self).spray + 1) % (usize::MAX + 1)
                &&& r is Ok ==> exists|i: int| #[trigger]
                    went_to_best(old(self).links@, final(self).links@, pkt@, start, i)
                &&& r matches Err(e) ==> {
                    &&& e.is_unexpected("all bonded links busy/failed"@)
                    &&& all_refused(old(self).links@, final(self).links@, pkt@)
                }
            },
    {
        if self.closed {
            return Err(Error::unexpected("bond group closed"));
        }
        let n: usize = self.links.len();
        if n == 0 {
            return Err(Error::unexpected("no bonded connections"));
        }
        let start: usize = self.spray % n;
        self.spray = self.spray.wrapping_add(1);
        let ghost before = self.links@;
        let mut tried = untried(n);
        let mut refused: Option<usize> = None;
        let mut held = pkt;
        loop
            invariant
                start < n == self.links@.len() == tried@.len() == before.len(),
                refused matches Some(i) ==> i < n && !tried@[i as int],
                held@ == pkt@,
                forall|j: int| 0 <= j < n ==> #[trigger] self.links@[j].health == before[j].health,
                forall|j: int|
                    0 <= j < n ==> if with_refused(tried@, refused)[j] {
                        before[j].alive() && was_offered(
                            before[j],
                            #[trigger] self.links@[j],
                            pkt@,
                            false,
                        )
                    } else {
                        self.links@[j] == before[j]
                    },
                forall|j: int, k: int|
                    #![trigger before[j], before[k]]
                    0 <= j < n && 0 <= k < n && with_refused(tried@, refused)[j] && before[k].alive()
                        && !with_refused(tried@, refused)[k] ==> preferred(
                        before,
                        start as int,
                        j,
                        k,
                    ),
                self.bond_id == old(self).bond_id,
                self.closed == old(self).closed,
                !self.closed,
                before == old(self).links@,
                start == old(self).spray as int % n as int,
                self.spray == (old(self).spray + 1) % (usize::MAX + 1),
            decreases n - true_count(with_refused(tried@, refused)),
        {
            let next = self.next_link(start, &mut tried, refused);
            match next {
                None => {
                    proof {
                        assert forall|j: int| 0 <= j < n && before[j].alive() implies tried@[j] by {
                            assert(self.links@[j].health == before[j].health);
                            assert(!open_to_try(self.links@, tried@, j));
                        }
                    }
                    return Err(Error::unexpected("all bonded links busy/failed"));
                },
                Some(b) => {
                    let ghost links = self.links@;
                    proof {
                        assert(links[b as int].health == before[b as int].health);
                        assert forall|j: int|
                            0 <= j < n && j != b && before[j].alive() && !tried@[j] implies preferred(
                            before,
                            start as int,
                            b as int,
                            j,
                        ) by {
                            assert(links[j].health == before[j].health);
                            assert(open_to_try(links, tried@, j));
                        }
                    }
                    match offer(&mut self.links[b], held) {
                        Ok(_) => {
                            proof {
                                assert forall|j: int|
                                    0 <= j < n && j != b && before[j].alive() implies preferred(
                                    before,
                                    start as int,
                                    j,
                                    b as int,
                                ) == tried@[j] by {
                                    preference_is_total(before, start as int, b as int, j);
                                    assert(before[b as int].alive());
                                }
                                assert(went_to_best(
                                    before,
                                    self.links@,
                                    pkt@,
                                    start as int,
                                    b as int,
                                ));
                            }
                            return Ok(());
                        },
                        Err(p) => {
                            held = p;
                            refused = Some(b);
                            proof {
                                true_count_set(tried@, b as int);
                                true_count_bounds(tried@.update(b as int, true));
                            }
                        },
                    }
                },
            }
        }
    }

    /// Whether a receiver may wait for a packet: not once the group is closed.
    pub fn may_receive(&self) -> (r: Result<(), Error>)
        ensures
            r is Ok <==> !self.closed,
            r matches Err(e) ==> e.is_unexpected("bond group closed"@),
    {
        if self.closed {
            return Err(Error::unexpected("bond group closed"));
        }
        Ok(())
    }

    /// The number of connections that may be used.
    pub fn alive_count(&self) -> (n: usize)
        ensures
            n == crate::bond::link::alive_links(self.links@),
    {
        count_alive(&self.links)
    }
}

/// How many links lie between the cursor and link `i`.
fn around(start: usize, i: usize, n: usize) -> (d: usize)
    requires
        start < n,
        i < n,
    ensures
        d == distance(start as int, i as int, n as int),
{
    if i >= start {
        i - start
    } else {
        n - start + i
    }
}

/// Of two different links one comes first, so the order in which links are tried is settled.
pub proof fn preference_is_total(links: Seq<Link>, start: int, i: int, j: int)
    requires
        0 <= start < links.len(),
        0 <= i < links.len(),
        0 <= j < links.len(),
        i != j,
    ensures
        preferred(links, start, i, j) != preferred(links, start, j, i),
{
}

/// Among links that score the same, the one at the cursor comes first, so that packets rotate.
pub proof fn equals_rotate(links: Seq<Link>, start: int, j: int)
    requires
        0 <= start < links.len(),
        0 <= j < links.len(),
        j != start,
        links[start].health.score_value() == links[j].health.score_value(),
    ensures
        preferred(links, start, start, j),
{
}

/// The link that is tried next has weight, was not tried, and no other such link scores lower.
pub proof fn best_scores_lowest(links: Seq<Link>, tried: Seq<bool>, start: int, i: usize, j: int)
    requires
        is_best(links, tried, start, Some(i)),
        tried.len() == links.len(),
        0 <= j < links.len(),
        links[j].health.weight > 0,
        !tried[j],
    ensures
        links[i as int].health.weight > 0,
        !tried[i as int],
        links[i as int].health.score_value() <= links[j].health.score_value(),
{
    if j != i {
        assert(open_to_try(links, tried, j));
    }
}

/// A usable link is never overlooked.
pub proof fn usable_is_not_overlooked(links: Seq<Link>, tried: Seq<bool>, start: int, j: int)
    requires
        tried.len() == links.len(),
        0 <= j < links.len(),
        links[j].health.weight > 0,
        !tried[j],
    ensures
        !is_best(links, tried, start, None),
{
    assert(open_to_try(links, tried, j));
}

/// A packet goes to a link with weight, once, and every link with weight that scores lower was
/// offered it before and refused; a link without weight, or one that scores higher, was offered
/// nothing.
pub proof fn sent_to_the_healthiest(
    before: Seq<Link>,
    after: Seq<Link>,
    pkt: Seq<u8>,
    start: int,
    i: int,
    j: int,
)
    requires
        went_to_best(before, after, pkt, start, i),
        0 <= j < before.len(),
        j != i,
    ensures
        before[i].health.weight > 0,
        after[i].offers@ == before[i].offers@.push((pkt, true)),
        before[j].health.weight > 0 && before[j].health.score_value()
            < before[i].health.score_value() ==> after[j].offers@ == before[j].offers@.push(
            (pkt, false),
        ),
        before[j].health.weight == 0 || before[j].health.score_value()
            > before[i].health.score_value() ==> after[j].offers@ == before[j].offers@,
{
    assert(after[j] == after[j]);
}

/// A link that is the only usable one left is the best; of two that score the same the one nearer
/// to the cursor is.
pub proof fn the_only_one_is_best(links: Seq<Link>, tried: Seq<bool>, start: int, i: usize)
    requires
        tried.len() == links.len(),
        i < links.len(),
        links[i as int].health.weight > 0,
        !tried[i as int],
        forall|j: int|
            0 <= j < links.len() && j != i ==> (#[trigger] links[j]).health.weight == 0 || tried[j]
                || links[j].health.score_value() > links[i as int].health.score_value() || (
            links[j].health.score_value() == links[i as int].health.score_value() && distance(
                start,
                j,
                links.len() as int,
            ) > distance(start, i as int, links.len() as int)),
    ensures
        is_best(links, tried, start, Some(i)),
{
    assert forall|j: int|
        #[trigger] open_to_try(links, tried, j) && j != i implies preferred(
        links,
        start,
        i as int,
        j,
    ) by {
        assert(links[j].health.weight != 0);
    }
}

/// A link that refused a packet is not tried with it again, and the others stay as they were.
pub proof fn refusing_links_are_not_tried_again(
    links: Seq<Link>,
    tried: Seq<bool>,
    start: int,
    i: usize,
    j: int,
    r: Option<usize>,
)
    requires
        tried.len() == links.len(),
        i < links.len(),
        0 <= j < links.len(),
        is_best(links, with_refused(tried, Some(i)), start, r),
    ensures
        r != Some(i),
        j != i ==> with_refused(tried, Some(i))[j] == tried[j],
        with_refused(tried, None) == tried,
{
}

} // verus!
