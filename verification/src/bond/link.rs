//! A bonded link: its health and the queue that feeds its sending task.

use crate::error::Error;
use crate::health::{BondHealthSummary, ConnHealth};
use tokio::sync::mpsc::error::TrySendError;
use tokio::sync::mpsc::Sender;
use vstd::prelude::*;

verus! {

/// `tokio::sync::mpsc::Sender`, the sending end of a bounded queue.
#[verifier::external_type_specification]
#[verifier::external_body]
#[verifier::reject_recursive_types(T)]
pub struct ExSender<T>(Sender<T>);

/// The depth of a link's queue in frames.
pub const LINK_QUEUE: usize = 1024;

/// A bonded link.
pub struct Link {
    pub health: ConnHealth,
    pub tx: Sender<Vec<u8>>,
    /// Every packet that the queue was offered so far, and whether it took it.
    pub offers: Ghost<Seq<(Seq<u8>, bool)>>,
}

/// Whether `after` is the link once its queue was offered a packet, and took it or not.
pub open spec fn was_offered(before: Link, after: Link, pkt: Seq<u8>, took: bool) -> bool {
    &&& after.health == before.health
    &&& after.tx == before.tx
    &&& after.offers@ == before.offers@.push((pkt, took))
}

/// `Sender::try_send` on the link's queue: queues the packet, or hands it back when the queue is
/// full or its receiver is gone. Which of the two happens depends on the receiving task. The
/// packet and the answer are the last of the link's offers from then on.
#[verifier::external_body]
pub(crate) fn offer(link: &mut Link, pkt: Vec<u8>) -> (r: Result<(), Vec<u8>>)
    ensures
        final(link).health == old(link).health,
        final(link).tx == old(link).tx,
        final(link).offers@ == old(link).offers@.push((pkt@, r is Ok)),
        r matches Err(p) ==> p@ == pkt@,
{
    match link.tx.try_send(pkt) {
        Ok(()) => Ok(()),
        Err(TrySendError::Full(p)) => Err(p),
        Err(TrySendError::Closed(p)) => Err(p),
    }
}

impl Link {
    /// Whether the link may be used.
    pub open spec fn alive(self) -> bool {
        self.health.weight != 0
    }

    /// A link to which nothing was offered yet.
    pub fn new(health: ConnHealth, tx: Sender<Vec<u8>>) -> (l: Link)
        ensures
            l.health == health,
            l.tx == tx,
            l.offers@ == Seq::<(Seq<u8>, bool)>::empty(),
    {
        Link { health, tx, offers: Ghost(Seq::empty()) }
    }
}

/// How many links lie between the cursor and link `i`, going round.
pub open spec fn distance(start: int, i: int, n: int) -> int {
    if i >= start {
        i - start
    } else {
        n - start + i
    }
}

/// Whether a packet went to link `i`: it is usable, it was offered the packet once and took it.
/// Before that, every usable link that is `ahead` was offered it and did not take it; no other link
/// was offered anything.
pub open spec fn went_to(
    before: Seq<Link>,
    after: Seq<Link>,
    pkt: Seq<u8>,
    i: int,
    ahead: spec_fn(int) -> bool,
) -> bool {
    &&& after.len() == before.len()
    &&& 0 <= i < before.len()
    &&& before[i].alive()
    &&& was_offered(before[i], after[i], pkt, true)
    &&& forall|j: int|
        0 <= j < before.len() && j != i ==> if before[j].alive() && ahead(j) {
            was_offered(before[j], #[trigger] after[j], pkt, false)
        } else {
            after[j] == before[j]
        }
}

/// Whether every usable link was offered a packet once and did not take it, and no other link was
/// offered anything.
pub open spec fn all_refused(before: Seq<Link>, after: Seq<Link>, pkt: Seq<u8>) -> bool {
    &&& after.len() == before.len()
    &&& forall|j: int|
        0 <= j < before.len() ==> if before[j].alive() {
            was_offered(before[j], #[trigger] after[j], pkt, false)
        } else {
            after[j] == before[j]
        }
}

/// The number of links that may be used.
pub open spec fn alive_links(links: Seq<Link>) -> nat
    decreases links.len(),
{
    if links.len() == 0 {
        0
    } else {
        alive_links(links.drop_last()) + if links.last().alive() {
            1nat
        } else {
            0nat
        }
    }
}

/// Counts the links that may be used.
pub fn count_alive(links: &Vec<Link>) -> (n: usize)
    ensures
        n == alive_links(links@),
{
    let mut n: usize = 0;
    let mut i: usize = 0;
    while i < links.len()
        invariant
            i <= links@.len(),
            n == alive_links(links@.take(i as int)),
            n <= i,
        decreases links@.len() - i,
    {
        assert(links@.take(i + 1).drop_last() =~= links@.take(i as int));
        if !links[i].health.is_dead() {
            n += 1;
        }
        i += 1;
    }
    assert(links@.take(links@.len() as int) =~= links@);
    n
}

/// What a receiver gets for the next packet of the queue that all links fill: an error once all
/// readers are gone.
pub fn received(next: Option<Vec<u8>>) -> (r: Result<Vec<u8>, Error>)
    ensures
        next matches Some(p) ==> r == Ok::<Vec<u8>, Error>(p),
        next is None ==> (r matches Err(e) && e.is_unexpected("all bond readers closed"@)),
{
    match next {
        Some(p) => Ok(p),
        None => Err(Error::unexpected("all bond readers closed")),
    }
}

/// The round trips of the usable links in milliseconds, added up; the sum stops at the largest
/// number.
pub open spec fn rtt_total(links: Seq<Link>) -> int
    decreases links.len(),
{
    if links.len() == 0 {
        0
    } else {
        let before = rtt_total(links.drop_last());
        if links.last().alive() {
            at_most_u64(before + links.last().health.rtt_us / 1000)
        } else {
            before
        }
    }
}

/// The bytes of all links, added up; the sum stops at the largest number.
pub open spec fn bytes_total(links: Seq<Link>) -> int
    decreases links.len(),
{
    if links.len() == 0 {
        0
    } else {
        at_most_u64(bytes_total(links.drop_last()) + links.last().health.total_bytes)
    }
}

/// `n`, but at most the largest 64-bit number.
pub open spec fn at_most_u64(n: int) -> int {
    if n > u64::MAX {
        u64::MAX as int
    } else {
        n
    }
}

/// The health of the links taken together.
pub open spec fn summary_of(links: Seq<Link>) -> BondHealthSummary {
    let alive = alive_links(links);
    BondHealthSummary {
        alive_count: alive as usize,
        dead_count: (links.len() - alive) as usize,
        avg_rtt_ms: if alive > 0 {
            (rtt_total(links) / alive as int) as u64
        } else {
            0
        },
        total_bytes: bytes_total(links) as u64,
    }
}

/// Sums up the health of the links.
pub fn summarize(links: &Vec<Link>) -> (s: BondHealthSummary)
    ensures
        s == summary_of(links@),
{
    let mut alive_count: usize = 0;
    let mut dead_count: usize = 0;
    let mut rtt_sum: u64 = 0;
    let mut total_bytes: u64 = 0;
    let mut i: usize = 0;
    while i < links.len()
        invariant
            i <= links@.len(),
            alive_count == alive_links(links@.take(i as int)),
            dead_count + alive_count == i,
            rtt_sum == rtt_total(links@.take(i as int)),
            total_bytes == bytes_total(links@.take(i as int)),
        decreases links@.len() - i,
    {
        assert(links@.take(i + 1).drop_last() =~= links@.take(i as int));
        if links[i].health.is_dead() {
            dead_count += 1;
        } else {
            alive_count += 1;
            rtt_sum = rtt_sum.saturating_add(links[i].health.rtt_ms());
        }
        total_bytes = total_bytes.saturating_add(links[i].health.total_bytes());
        i += 1;
    }
    assert(links@.take(links@.len() as int) =~= links@);
    let avg_rtt_ms: u64 = if alive_count > 0 {
        rtt_sum / alive_count as u64
    } else {
        0
    };
    BondHealthSummary { alive_count, dead_count, avg_rtt_ms, total_bytes }
}

/// A link is in use exactly if it has weight, and each that is counts once.
pub proof fn links_in_use_are_counted(links: Seq<Link>, l: Link)
    ensures
        l.health.weight > 0 ==> alive_links(links.push(l)) == alive_links(links) + 1,
        l.health.weight == 0 ==> alive_links(links.push(l)) == alive_links(links),
        alive_links(seq![]) == 0,
{
    assert(links.push(l).drop_last() =~= links);
}

/// The summary splits the links into those in use and the rest, adds up all bytes, and averages the
/// round trips of those in use.
pub proof fn summary_adds_up(links: Seq<Link>)
    requires
        links.len() <= usize::MAX,
    ensures
        ({
            let s = summary_of(links);
            &&& s.alive_count + s.dead_count == links.len()
            &&& s.alive_count == alive_links(links)
            &&& s.alive_count > 0 ==> s.avg_rtt_ms * s.alive_count <= rtt_total(links) < (
            s.avg_rtt_ms + 1) * s.alive_count
            &&& s.alive_count == 0 ==> s.avg_rtt_ms == 0
            &&& s.total_bytes == bytes_total(links)
        }),
{
    alive_at_most(links);
    totals_fit(links);
    let a = alive_links(links) as int;
    if a > 0 {
        let x = rtt_total(links);
        vstd::arithmetic::div_mod::lemma_fundamental_div_mod(x, a);
        vstd::arithmetic::div_mod::lemma_div_is_ordered_by_denominator(x, 1, a);
        let d = x / a;
        assert(d * a <= x < (d + 1) * a) by (nonlinear_arith)
            requires
                x == a * d + x % a,
                0 <= x % a < a,
        ;
    }
}

/// Round trips and bytes are added up link by link; links out of use have no say in the former.
pub proof fn totals_add_up(links: Seq<Link>, l: Link)
    requires
        rtt_total(links) + l.health.rtt_us <= u64::MAX,
        bytes_total(links) + l.health.total_bytes <= u64::MAX,
    ensures
        l.health.weight > 0 ==> rtt_total(links.push(l)) == rtt_total(links) + l.health.rtt_us
            / 1000,
        l.health.weight == 0 ==> rtt_total(links.push(l)) == rtt_total(links),
        bytes_total(links.push(l)) == bytes_total(links) + l.health.total_bytes,
        rtt_total(seq![]) == 0,
        bytes_total(seq![]) == 0,
{
    assert(links.push(l).drop_last() =~= links);
}

/// At most every link is in use.
proof fn alive_at_most(links: Seq<Link>)
    ensures
        alive_links(links) <= links.len(),
    decreases links.len(),
{
    if links.len() > 0 {
        alive_at_most(links.drop_last());
    }
}

/// The sums stop at the largest number.
proof fn totals_fit(links: Seq<Link>)
    ensures
        0 <= rtt_total(links) <= u64::MAX,
        0 <= bytes_total(links) <= u64::MAX,
    decreases links.len(),
{
    if links.len() > 0 {
        totals_fit(links.drop_last());
    }
}

/// The distance from the cursor is how many steps up lead to a link, going round.
pub proof fn distance_goes_round(start: int, k: int, n: int)
    requires
        0 <= start < n,
        0 <= k < n,
    ensures
        start + k < n ==> distance(start, start + k, n) == k,
        start + k >= n ==> distance(start, start + k - n, n) == k,
{
}

/// A refused packet was offered to every link in use, and taken by none; the others never saw it.
pub proof fn refused_by_every_link(before: Seq<Link>, after: Seq<Link>, pkt: Seq<u8>, i: int)
    requires
        all_refused(before, after, pkt),
        0 <= i < before.len(),
    ensures
        after.len() == before.len(),
        before[i].alive() ==> after[i].offers@ == before[i].offers@.push((pkt, false)),
        !before[i].alive() ==> after[i] == before[i],
        after[i].health == before[i].health,
        after[i].tx == before[i].tx,
{
}

/// A packet that was sent was taken by one link in use, and by no other.
pub proof fn taken_by_one_link(
    before: Seq<Link>,
    after: Seq<Link>,
    pkt: Seq<u8>,
    i: int,
    ahead: spec_fn(int) -> bool,
    j: int,
)
    requires
        went_to(before, after, pkt, i, ahead),
        0 <= j < before.len(),
    ensures
        after.len() == before.len(),
        before[i].alive(),
        after[i].offers@ == before[i].offers@.push((pkt, true)),
        j != i ==> after[j].offers@ == before[j].offers@ || after[j].offers@
            == before[j].offers@.push((pkt, false)),
        j != i && !ahead(j) ==> after[j] == before[j],
        j != i && !before[j].alive() ==> after[j] == before[j],
        after[j].health == before[j].health,
{
}

/// A link holds 1024 packets that wait.
pub proof fn queues_are_so_long()
    ensures
        LINK_QUEUE == 1024,
{
}

} // verus!
