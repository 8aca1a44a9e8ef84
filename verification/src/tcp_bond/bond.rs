//! A group of bonded TCP connections that looks like one channel. Packets are sprayed over the
//! links in turn, so that a single flow uses every link.

use crate::bond::link::{
    all_refused, count_alive, distance, offer, summarize, was_offered, went_to, Link,
};
use crate::error::Error;
use crate::health::{BondHealthSummary, ConnHealth};
use tokio::sync::mpsc::Sender;
use vstd::prelude::*;

verus! {

/// A bond group.
pub struct BondGroup {
    pub bond_id: [u8; 16],
    pub links: Vec<Link>,
    /// The cursor that rotates with each packet.
    pub spray: usize,
}

/// The link whose turn it is at step `k` of a round over `n` links that starts at `start`.
pub open spec fn turn(start: int, k: int, n: int) -> int {
    (start + k) % n
}

/// Whether a packet went to link `i`, after every usable link whose turn came before had refused
/// it.
pub open spec fn went_in_turn(
    before: Seq<Link>,
    after: Seq<Link>,
    pkt: Seq<u8>,
    start: int,
    i: int,
) -> bool {
    let n = before.len() as int;
    went_to(before, after, pkt, i, |j: int| distance(start, j, n) < distance(start, i, n))
}

impl BondGroup {
    /// An empty group.
    pub fn new(bond_id: [u8; 16]) -> (g: BondGroup)
        ensures
            g.bond_id == bond_id,
            g.links@.len() == 0,
            g.spray == 0,
    {
        BondGroup { bond_id, links: Vec::new(), spray: 0 }
    }

    /// Adds a link; it comes last.
    pub fn add_link(&mut self, health: ConnHealth, tx: Sender<Vec<u8>>)
        ensures
            final(self).links@.drop_last() == old(self).links@,
            final(self).links@.len() == old(self).links@.len() + 1,
            final(self).links@.last().health == health,
            final(self).links@.last().tx == tx,
            final(self).links@.last().offers@ == Seq::<(Seq<u8>, bool)>::empty(),
            final(self).bond_id == old(self).bond_id,
            final(self).spray == old(self).spray,
    {
        self.links.push(Link::new(health, tx));
        assert(self.links@.drop_last() =~= old(self).links@);
    }

    /// The first step from `from` on whose link may be used, in the round that starts at `start`.
    pub fn next_turn(&self, start: usize, from: usize) -> (r: Option<usize>)
        requires
            start < self.links@.len(),
            from <= self.links@.len(),
        ensures
            match r {
                Some(k) => {
                    &&& from <= k < self.links@.len()
                    &&& self.links@[turn(start as int, k as int, self.links@.len() as int)].alive()
                    &&& forall|j: int|
                        from <= j < k ==> !(#[trigger] self.links@[turn(
                            start as int,
                            j,
                            self.links@.len() as int,
                        )]).alive()
                },
                None => forall|j: int|
                    from <= j < self.links@.len() ==> !(#[trigger] self.links@[turn(
                        start as int,
                        j,
                        self.links@.len() as int,
                    )]).alive(),
            },
    {
        let n: usize = self.links.len();
        let mut k: usize = from;
        while k < n
            invariant
                start < n == self.links@.len(),
                from <= k <= n,
                forall|j: int|
                    from <= j < k ==> !(#[trigger] self.links@[turn(
                        start as int,
                        j,
                        n as int,
                    )]).alive(),
            decreases n - k,
        {
            let i: usize = step(start, k, n);
            if !self.links[i].health.is_dead() {
                return Some(k);
            }
            k += 1;
        }
        None
    }

    /// Sends a packet on the first usable link, in turn from the rotating cursor, that takes it.
    /// Where every usable link refuses it the packet is dropped. Whether a link takes it depends on
    /// the task behind it.
    pub fn send(&mut self, pkt: Vec<u8>) -> (r: Result<(), Error>)
        ensures
            final(self).bond_id == old(self).bond_id,
            old(self).links@.len() == 0 ==> {
                &&& *final(self) == *old(self)
                &&& r matches Err(e)
                &&& e.is_unexpected("no bonded connections"@)
            },
            old(self).links@.len() > 0 ==> {
                let start = old(self).spray as int % old(self).links@.len() as int;
                &&& final(self).spray == (old(self).spray + 1) % (usize::MAX + 1)
                &&& r is Ok ==> exists|i: int| #[trigger]
                    went_in_turn(old(self).links@, final(self).links@, pkt@, start, i)
                &&& r matches Err(e) ==> {
                    &&& e.is_unexpected("all bonded links busy/failed"@)
                    &&& all_refused(old(self).links@, final(self).links@, pkt@)
                }
            },
    {
        let n: usize = self.links.len();
        if n == 0 {
            return Err(Error::unexpected("no bonded connections"));
        }
        let start: usize = self.spray % n;
        self.spray = self.spray.wrapping_add(1);
        let ghost before = self.links@;
        let mut held = pkt;
        let mut from: usize = 0;
        while from < n
            invariant
                start < n == self.links@.len() == before.len(),
                from <= n,
                held@ == pkt@,
                forall|j: int| 0 <= j < n ==> #[trigger] self.links@[j].health == before[j].health,
                forall|j: int|
                    0 <= j < n ==> if before[j].alive() && distance(start as int, j, n as int)
                        < from {
                        was_offered(before[j], #[trigger] self.links@[j], pkt@, false)
                    } else {
                        self.links@[j] == before[j]
                    },
                before == old(self).links@,
                self.bond_id == old(self).bond_id,
                start == old(self).spray as int % n as int,
                self.spray == (old(self).spray + 1) % (usize::MAX + 1),
            decreases n - from,
        {
            match self.next_turn(start, from) {
                None => {
                    proof {
                        assert forall|j: int| 0 <= j < n && before[j].alive() implies distance(
                            start as int,
                            j,
                            n as int,
                        ) < from by {
                            turn_of_distance(start as int, j, n as int);
                            let d = distance(start as int, j, n as int);
                            assert(self.links@[turn(start as int, d, n as int)].health
                                == before[j].health);
                        }
                    }
                    return Err(Error::unexpected("all bonded links busy/failed"));
                },
                Some(k) => {
                    let i: usize = step(start, k, n);
                    proof {
                        assert forall|j: int| 0 <= j < n && before[j].alive() && distance(
                            start as int,
                            j,
                            n as int,
                        ) < k implies distance(start as int, j, n as int) < from by {
                            turn_of_distance(start as int, j, n as int);
                            let d = distance(start as int, j, n as int);
                            assert(self.links@[turn(start as int, d, n as int)].health
                                == before[j].health);
                        }
                    }
                    match offer(&mut self.links[i], held) {
                        Ok(_) => {
                            proof {
                                assert(went_in_turn(
                                    before,
                                    self.links@,
                                    pkt@,
                                    start as int,
                                    i as int,
                                ));
                            }
                            return Ok(());
                        },
                        Err(p) => {
                            held = p;
                            from = k + 1;
                        },
                    }
                },
            }
        }
        Err(Error::unexpected("all bonded links busy/failed"))
    }

    /// The number of connections that may be used.
    pub fn alive_count(&self) -> (n: usize)
        ensures
            n == crate::bond::link::alive_links(self.links@),
    {
        count_alive(&self.links)
    }

    /// The health of all bonded connections taken together.
    pub fn health_summary(&self) -> (s: BondHealthSummary)
        ensures
            s == crate::bond::link::summary_of(self.links@),
    {
        summarize(&self.links)
    }
}

/// The link whose turn it is at step `k`.
fn step(start: usize, k: usize, n: usize) -> (i: usize)
    requires
        start < n,
        k < n,
    ensures
        i == turn(start as int, k as int, n as int),
        i < n,
        distance(start as int, i as int, n as int) == k,
{
    if k < n - start {
        proof {
            vstd::arithmetic::div_mod::lemma_small_mod((start + k) as nat, n as nat);
        }
        start + k
    } else {
        proof {
            vstd::arithmetic::div_mod::lemma_small_mod((start + k - n) as nat, n as nat);
            vstd::arithmetic::div_mod::lemma_mod_add_multiples_vanish(start + k - n, n as int);
        }
        k - (n - start)
    }
}

/// The turn of a link comes after as many steps as it lies from the cursor.
proof fn turn_of_distance(start: int, i: int, n: int)
    requires
        0 <= start < n,
        0 <= i < n,
    ensures
        turn(start, distance(start, i, n), n) == i,
        0 <= distance(start, i, n) < n,
{
    if i >= start {
        vstd::arithmetic::div_mod::lemma_small_mod(i as nat, n as nat);
    } else {
        vstd::arithmetic::div_mod::lemma_small_mod(i as nat, n as nat);
        vstd::arithmetic::div_mod::lemma_mod_add_multiples_vanish(i, n);
    }
}

/// While the cursor does not wrap, `n` packets in a row start their rounds at each of the `n`
/// links: a single flow is spread over every link.
pub proof fn every_link_has_its_turn(cursor: nat, n: nat, link: int)
    requires
        0 <= link < n,
    ensures
        exists|i: int| 0 <= i < n && #[trigger] turn(cursor as int, i, n as int) == link,
{
    let i = (link - cursor) % (n as int);
    assert(0 <= i < n) by (nonlinear_arith)
        requires
            i == (link - cursor) % (n as int),
            n > 0,
    ;
    vstd::arithmetic::div_mod::lemma_add_mod_noop_right(cursor as int, link - cursor, n as int);
    vstd::arithmetic::div_mod::lemma_small_mod(link as nat, n);
    assert(turn(cursor as int, i, n as int) == link);
}

/// A round tries each link at most once.
pub proof fn no_link_twice(start: int, j: int, k: int, n: int)
    requires
        0 <= start < n,
        0 <= j < k < n,
    ensures
        turn(start, j, n) != turn(start, k, n),
{
    if turn(start, j, n) == turn(start, k, n) {
        vstd::arithmetic::div_mod::lemma_mod_equivalence(start + k, start + j, n);
        vstd::arithmetic::div_mod::lemma_small_mod((k - j) as nat, n as nat);
    }
}

/// A packet goes to a link with weight, once, and every link with weight whose turn came before was
/// offered it and refused; no other link was offered anything.
pub proof fn sent_in_turn(
    before: Seq<Link>,
    after: Seq<Link>,
    pkt: Seq<u8>,
    start: int,
    a: int,
    b: int,
)
    requires
        0 <= start < before.len(),
        0 <= a < before.len(),
        0 <= b < before.len(),
        a != b,
        went_in_turn(before, after, pkt, start, turn(start, b, before.len() as int)),
    ensures
        ({
            let n = before.len() as int;
            let took = turn(start, b, n);
            let other = turn(start, a, n);
            &&& before[took].health.weight > 0
            &&& after[took].offers@ == before[took].offers@.push((pkt, true))
            &&& a < b && before[other].health.weight > 0 ==> after[other].offers@
                == before[other].offers@.push((pkt, false))
            &&& a > b || before[other].health.weight == 0 ==> after[other].offers@
                == before[other].offers@
        }),
{
    let n = before.len() as int;
    turn_at(start, a, n);
    turn_at(start, b, n);
    let other = turn(start, a, n);
    assert(after[other] == after[other]);
}

/// The link at a step of the round lies that many steps from the cursor.
proof fn turn_at(start: int, k: int, n: int)
    requires
        0 <= start < n,
        0 <= k < n,
    ensures
        distance(start, turn(start, k, n), n) == k,
        0 <= turn(start, k, n) < n,
{
    if start + k < n {
        vstd::arithmetic::div_mod::lemma_small_mod((start + k) as nat, n as nat);
    } else {
        vstd::arithmetic::div_mod::lemma_small_mod((start + k - n) as nat, n as nat);
        vstd::arithmetic::div_mod::lemma_mod_add_multiples_vanish(start + k - n, n);
    }
}

/// The round begins at the cursor and goes up by one, round the end.
pub proof fn turns_go_up(start: int, k: int, n: int)
    requires
        0 <= start < n,
        0 <= k < n,
    ensures
        turn(start, 0, n) == start,
        start + k < n ==> turn(start, k, n) == start + k,
        start + k >= n ==> turn(start, k, n) == start + k - n,
{
    turn_at(start, k, n);
    turn_at(start, 0, n);
}

} // verus!
