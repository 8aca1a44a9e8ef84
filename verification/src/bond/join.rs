//! Which bond an accepted connection belongs to, and what becomes of a bond that never speaks.

use crate::assoc::Assoc;
use crate::error::Error;
use vstd::prelude::*;
use vstd::string::StringExecFns;

verus! {

/// A bond that may still be joined.
#[derive(Clone, Copy, Debug, PartialEq, Eq, Structural)]
pub struct PendingBond {
    /// The number under which the group is kept.
    pub group: u64,
    /// How many connections have joined after the first; the count wraps.
    pub arrived: u8,
}

/// The place of a connection in its bond.
#[derive(Clone, Copy, Debug, PartialEq, Eq, Structural)]
pub struct Place {
    /// Whether the connection is the first with its bond id.
    pub primary: bool,
    /// The number of the group.
    pub group: u64,
    /// The connection's number in the group.
    pub conn_idx: usize,
}

/// Whether a connection opened its bond or found it.
#[derive(Clone, Copy, Debug, PartialEq, Eq, Structural)]
pub struct Admitted {
    pub primary: bool,
    pub group: u64,
}

/// How a connection with this id is admitted.
pub open spec fn admission(m: Map<Seq<u8>, PendingBond>, id: Seq<u8>, fresh: u64) -> Admitted {
    if m.dom().contains(id) {
        Admitted { primary: false, group: m[id].group }
    } else {
        Admitted { primary: true, group: fresh }
    }
}

/// The bonds once a connection with this id was admitted.
pub open spec fn opened(m: Map<Seq<u8>, PendingBond>, id: Seq<u8>, fresh: u64) -> Map<
    Seq<u8>,
    PendingBond,
> {
    if m.dom().contains(id) {
        m
    } else {
        m.insert(id, PendingBond { group: fresh, arrived: 0 })
    }
}

/// The bonds once one more connection was counted.
pub open spec fn counted(m: Map<Seq<u8>, PendingBond>, id: Seq<u8>) -> Map<Seq<u8>, PendingBond> {
    m.insert(
        id,
        PendingBond { group: m[id].group, arrived: ((m[id].arrived + 1) % 256) as u8 },
    )
}

/// The place of a connection with this id.
pub open spec fn placement(m: Map<Seq<u8>, PendingBond>, id: Seq<u8>, fresh: u64) -> Place {
    if m.dom().contains(id) {
        Place { primary: false, group: m[id].group, conn_idx: (m[id].arrived + 1) as usize }
    } else {
        Place { primary: true, group: fresh, conn_idx: 0 }
    }
}

/// The bonds once a connection with this id was placed.
pub open spec fn joined(m: Map<Seq<u8>, PendingBond>, id: Seq<u8>, fresh: u64) -> Map<
    Seq<u8>,
    PendingBond,
> {
    if m.dom().contains(id) {
        counted(m, id)
    } else {
        opened(m, id, fresh)
    }
}

/// What came of waiting for the first stream of a connection.
#[derive(Debug)]
pub enum FirstStream {
    /// The stream.
    Came,
    /// The multiplexer failed, for this reason.
    Failed(String),
    /// The connection was closed.
    Closed,
}

/// The bonds that may be joined, by their ids.
#[derive(Debug)]
pub struct JoinWindow {
    pub pending: Assoc<[u8; 16], PendingBond>,
}

impl JoinWindow {
    /// No id occurs twice.
    pub open spec fn wf(self) -> bool {
        self.pending.wf()
    }

    /// The bonds that may be joined.
    pub open spec fn view(&self) -> Map<Seq<u8>, PendingBond> {
        self.pending@
    }

    /// No bond may be joined yet.
    pub fn new() -> (w: JoinWindow)
        ensures
            w.wf(),
            w@ == Map::<Seq<u8>, PendingBond>::empty(),
    {
        JoinWindow { pending: Assoc::new() }
    }

    /// Finds the bond with this id; opens it as `fresh_group` where there is none.
    pub fn find_or_open(&mut self, bond_id: [u8; 16], fresh_group: u64) -> (a: Admitted)
        requires
            old(self).wf(),
        ensures
            final(self).wf(),
            a == admission(old(self)@, bond_id@, fresh_group),
            final(self)@ == opened(old(self)@, bond_id@, fresh_group),
    {
        let known: Option<u64> = match self.pending.get(&bond_id) {
            Some(b) => Some(b.group),
            None => None,
        };
        match known {
            Some(group) => {
                assert(self@ =~= opened(self@, bond_id@, fresh_group));
                Admitted { primary: false, group }
            },
            None => {
                self.pending.insert(bond_id, PendingBond { group: fresh_group, arrived: 0 });
                Admitted { primary: true, group: fresh_group }
            },
        }
    }

    /// Counts one more connection that joined a bond and gives its number in the group; none where
    /// the bond may no longer be joined.
    pub fn count_joined(&mut self, bond_id: [u8; 16]) -> (r: Option<usize>)
        requires
            old(self).wf(),
        ensures
            final(self).wf(),
            r is Some <==> old(self)@.dom().contains(bond_id@),
            r matches Some(idx) ==> {
                &&& idx == old(self)@[bond_id@].arrived + 1
                &&& final(self)@ == counted(old(self)@, bond_id@)
            },
            r is None ==> final(self)@ == old(self)@,
    {
        let known: Option<PendingBond> = match self.pending.get(&bond_id) {
            Some(b) => Some(*b),
            None => None,
        };
        match known {
            Some(b) => {
                self.pending.insert(
                    bond_id,
                    PendingBond { group: b.group, arrived: b.arrived.wrapping_add(1) },
                );
                Some(b.arrived as usize + 1)
            },
            None => None,
        }
    }

    /// Places a connection: the first with an id opens the bond as `fresh_group` and has number
    /// zero there, later ones join it and are numbered from one.
    pub fn join(&mut self, bond_id: [u8; 16], fresh_group: u64) -> (p: Place)
        requires
            old(self).wf(),
        ensures
            final(self).wf(),
            p == placement(old(self)@, bond_id@, fresh_group),
            final(self)@ == joined(old(self)@, bond_id@, fresh_group),
    {
        let a = self.find_or_open(bond_id, fresh_group);
        if a.primary {
            return Place { primary: true, group: a.group, conn_idx: 0 };
        }
        match self.count_joined(bond_id) {
            Some(conn_idx) => Place { primary: false, group: a.group, conn_idx },
            None => Place { primary: false, group: a.group, conn_idx: 0 },
        }
    }

    /// Takes in what came of waiting for the stream of the first connection of a plain bond. Without
    /// one the bond may no longer be joined.
    pub fn primary_stream(&mut self, bond_id: &[u8; 16], s: FirstStream) -> (r: Result<(), Error>)
        requires
            old(self).wf(),
        ensures
            final(self).wf(),
            match s {
                FirstStream::Came => r is Ok && *final(self) == *old(self),
                FirstStream::Failed(why) => {
                    &&& final(self)@ == old(self)@.remove(bond_id@)
                    &&& r matches Err(e)
                    &&& e.is_unexpected("yamux accept: "@ + why@)
                },
                FirstStream::Closed => {
                    &&& final(self)@ == old(self)@.remove(bond_id@)
                    &&& r matches Err(e)
                    &&& e.is_unexpected("yamux closed"@)
                },
            },
    {
        match s {
            FirstStream::Came => Ok(()),
            FirstStream::Failed(why) => {
                let _ = self.expire(bond_id);
                let mut text = String::from_str("yamux accept: ");
                text.append(why.as_str());
                Err(Error::UnexpectedResult(text))
            },
            FirstStream::Closed => {
                let _ = self.expire(bond_id);
                Err(Error::unexpected("yamux closed"))
            },
        }
    }

    /// Takes in what came of waiting for the stream of a later connection of a plain bond: it is
    /// counted and has its number in the group exactly if the stream came while the bond may be
    /// joined.
    pub fn secondary_stream(&mut self, bond_id: [u8; 16], s: &FirstStream) -> (r: Option<usize>)
        requires
            old(self).wf(),
        ensures
            final(self).wf(),
            r is Some <==> *s is Came && old(self)@.dom().contains(bond_id@),
            r matches Some(idx) ==> {
                &&& idx == old(self)@[bond_id@].arrived + 1
                &&& final(self)@ == counted(old(self)@, bond_id@)
            },
            r is None ==> final(self)@ == old(self)@,
    {
        match s {
            FirstStream::Came => self.count_joined(bond_id),
            _ => None,
        }
    }

    /// Ends the time in which a bond may be joined. Gives the group, if the bond was still there.
    pub fn expire(&mut self, bond_id: &[u8; 16]) -> (r: Option<u64>)
        requires
            old(self).wf(),
        ensures
            final(self).wf(),
            final(self)@ == old(self)@.remove(bond_id@),
            r is Some <==> old(self)@.dom().contains(bond_id@),
            r matches Some(g) ==> g == old(self)@[bond_id@].group,
    {
        match self.pending.remove(bond_id) {
            Some(b) => Some(b.group),
            None => None,
        }
    }
}

/// What came of waiting for the first packet of a bond.
#[derive(Debug)]
pub enum FirstPacket {
    /// The packet.
    Arrived(Vec<u8>),
    /// Receiving failed.
    Failed,
    /// Nothing came in time.
    TimedOut,
}

/// A bond between its first connection and its first packet.
#[derive(Clone, Copy, Debug, PartialEq, Eq, Structural)]
pub struct Newborn {
    /// Whether the first packet came, so that the bond is a live transport.
    pub promoted: bool,
    /// Whether the bond was closed.
    pub closed: bool,
}

impl Newborn {
    /// The bond after waiting for its first packet.
    pub open spec fn after_wait(self, arrived: bool) -> Newborn {
        if arrived {
            Newborn { promoted: true, ..self }
        } else {
            Newborn { closed: true, ..self }
        }
    }

    /// The bond after its joining time. `evicted` says whether it could still be joined.
    pub open spec fn after_expiry(self, evicted: bool) -> Newborn {
        Newborn { closed: self.closed || (evicted && !self.promoted), ..self }
    }

    /// A bond that has just been opened.
    pub fn new() -> (b: Newborn)
        ensures
            b == (Newborn { promoted: false, closed: false }),
    {
        Newborn { promoted: false, closed: false }
    }

    /// Takes in what came of waiting for the first packet. A bond with a packet is promoted before
    /// the packet is handed on; without one it is closed.
    pub fn first_packet(&mut self, event: FirstPacket) -> (ready: Option<Vec<u8>>)
        ensures
            *final(self) == old(self).after_wait(event is Arrived),
            match event {
                FirstPacket::Arrived(p) => ready == Some(p),
                _ => ready is None,
            },
    {
        match event {
            FirstPacket::Arrived(p) => {
                self.promoted = true;
                Some(p)
            },
            FirstPacket::Failed => {
                self.closed = true;
                None
            },
            FirstPacket::TimedOut => {
                self.closed = true;
                None
            },
        }
    }

    /// Takes in the end of the joining time. Only a bond that was never promoted is closed.
    pub fn join_expired(&mut self, evicted: bool)
        ensures
            *final(self) == old(self).after_expiry(evicted),
    {
        if evicted && !self.promoted {
            self.closed = true;
        }
    }
}

/// What a driver does with a stream that the other end opened.
#[derive(Clone, Copy, Debug, PartialEq, Eq, Structural)]
pub enum Inbound {
    /// The stream carries the bond's packets.
    Join,
    /// The stream is a probe and is dropped.
    Drop,
}

/// Only the first stream of a connection carries packets. `seen` says whether there was one.
pub fn inbound_stream(seen: &mut bool) -> (r: Inbound)
    ensures
        *final(seen),
        r == (if *old(seen) {
            Inbound::Drop
        } else {
            Inbound::Join
        }),
{
    if *seen {
        Inbound::Drop
    } else {
        *seen = true;
        Inbound::Join
    }
}

/// The end of the joining time never closes a promoted bond, and leaves no bond without a first
/// packet open.
pub proof fn expiry_spares_the_promoted(b: Newborn)
    ensures
        b.promoted ==> b.after_expiry(true) == b,
        !b.promoted ==> b.after_expiry(true).closed,
{
}

/// A bond whose first packet came in time is a live transport once both its timers have run,
/// whichever ran first after the packet; a bond whose first packet did not come is closed.
pub proof fn timers_agree(b: Newborn, evicted: bool)
    requires
        b == (Newborn { promoted: false, closed: false }),
    ensures
        b.after_wait(true).after_expiry(evicted) == (Newborn { promoted: true, closed: false }),
        b.after_wait(false).after_expiry(evicted).closed,
        b.after_expiry(evicted).after_wait(false).closed,
{
}

/// Between two ends of its joining time a bond has exactly one first connection: every later one
/// with the same id goes to the same group, and other bonds are not touched.
pub proof fn one_primary(m: Map<Seq<u8>, PendingBond>, id: Seq<u8>, fresh: u64, later: u64)
    ensures
        !placement(joined(m, id, fresh), id, later).primary,
        placement(joined(m, id, fresh), id, later).group == placement(m, id, fresh).group,
        placement(m.remove(id), id, later).primary,
        forall|other: Seq<u8>|
            other != id ==> {
                &&& joined(m, id, fresh).dom().contains(other) == m.dom().contains(other)
                &&& m.dom().contains(other) ==> #[trigger] joined(m, id, fresh)[other] == m[other]
            },
{
}

/// A plain bond whose first connection has no stream leaves nothing behind: the next connection
/// with its id opens it anew.
pub proof fn failed_primary_leaves_nothing(
    m: Map<Seq<u8>, PendingBond>,
    id: Seq<u8>,
    fresh: u64,
    later: u64,
)
    requires
        !m.dom().contains(id),
    ensures
        opened(m, id, fresh).remove(id) == m,
        admission(opened(m, id, fresh).remove(id), id, later) == (Admitted {
            primary: true,
            group: later,
        }),
{
    assert(opened(m, id, fresh).remove(id) =~= m);
}

/// Connections that join one after the other have consecutive numbers, up to the 256th.
pub proof fn numbers_count_up(m: Map<Seq<u8>, PendingBond>, id: Seq<u8>, fresh: u64, later: u64)
    requires
        m.dom().contains(id) ==> m[id].arrived < 255,
    ensures
        placement(joined(m, id, fresh), id, later).conn_idx == placement(m, id, fresh).conn_idx + 1,
{
}

/// The first connection with an id opens the bond and has number zero there; a later one joins the
/// same group, is not the first, and is numbered by how many came before it.
pub proof fn first_opens_later_join(m: Map<Seq<u8>, PendingBond>, id: Seq<u8>, fresh: u64)
    ensures
        !m.dom().contains(id) ==> {
            &&& placement(m, id, fresh).primary
            &&& placement(m, id, fresh).group == fresh
            &&& placement(m, id, fresh).conn_idx == 0
            &&& admission(m, id, fresh).primary
            &&& admission(m, id, fresh).group == fresh
            &&& joined(m, id, fresh)[id].arrived == 0
            &&& opened(m, id, fresh)[id].group == fresh
        },
        m.dom().contains(id) ==> {
            &&& !placement(m, id, fresh).primary
            &&& placement(m, id, fresh).group == m[id].group
            &&& placement(m, id, fresh).conn_idx == m[id].arrived + 1
            &&& !admission(m, id, fresh).primary
            &&& admission(m, id, fresh).group == m[id].group
            &&& opened(m, id, fresh) == m
            &&& m[id].arrived < 255 ==> counted(m, id)[id].arrived == m[id].arrived + 1
            &&& counted(m, id)[id].group == m[id].group
        },
{
}

/// A first packet makes a bond a live transport and does not close it; none closes it.
pub proof fn a_packet_promotes(b: Newborn)
    ensures
        b.after_wait(true).promoted,
        b.after_wait(true).closed == b.closed,
        b.after_wait(false).closed,
        b.after_wait(false).promoted == b.promoted,
        b.after_expiry(false) == b,
{
}

/// Each connection that arrives is counted once, for its own bond; a count goes round at 256.
pub proof fn arrivals_are_counted(m: Map<Seq<u8>, PendingBond>, id: Seq<u8>, other: Seq<u8>)
    requires
        m.dom().contains(id),
        other != id,
    ensures
        ({
            let after = counted(m, id);
            &&& m[id].arrived < 255 ==> after[id].arrived == m[id].arrived + 1
            &&& m[id].arrived == 255 ==> after[id].arrived == 0
            &&& after[id].group == m[id].group
            &&& after.dom() == m.dom()
            &&& m.dom().contains(other) ==> after[other] == m[other]
        }),
{
    assert(counted(m, id).dom() =~= m.dom());
}

} // verus!
