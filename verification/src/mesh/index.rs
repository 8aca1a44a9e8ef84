//! Session indices: which peer a worker gave an index to, and which worker owns an index.

use crate::wire::bytes_eq;
use std::collections::HashMap;
use vstd::prelude::*;

verus! {

broadcast use vstd::std_specs::hash::group_hash_axioms;

/// Which worker owns a session index. All workers write it, the socket readers read it.
#[derive(Debug)]
pub struct IndexOwner {
    pub map: HashMap<u32, usize>,
}

impl IndexOwner {
    /// The owners.
    pub open spec fn view(&self) -> Map<u32, usize> {
        self.map@
    }

    /// No index is owned.
    pub fn new() -> (o: IndexOwner)
        ensures
            o@ == Map::<u32, usize>::empty(),
    {
        IndexOwner { map: HashMap::new() }
    }

    /// The worker that owns `idx`.
    pub fn get(&self, idx: u32) -> (r: Option<usize>)
        ensures
            r is Some <==> self@.dom().contains(idx),
            r matches Some(w) ==> w == self@[idx],
    {
        match self.map.get(&idx) {
            Some(w) => Some(*w),
            None => None,
        }
    }
}

/// The peers to which one worker gave indices.
#[derive(Debug)]
pub struct IndexTable {
    pub local: HashMap<u32, [u8; 32]>,
    pub wid: usize,
}

/// The owners once `pk`'s indices in `local` are given up.
pub open spec fn disowned(owner: Map<u32, usize>, local: Map<u32, [u8; 32]>, pk: Seq<u8>) -> Map<
    u32,
    usize,
> {
    Map::new(
        |i: u32| owner.dom().contains(i) && !(local.dom().contains(i) && local[i]@ == pk),
        |i: u32| owner[i],
    )
}

/// The indices that do not belong to `pk`.
pub open spec fn without_peer(local: Map<u32, [u8; 32]>, pk: Seq<u8>) -> Map<u32, [u8; 32]> {
    Map::new(|i: u32| local.dom().contains(i) && local[i]@ != pk, |i: u32| local[i])
}

impl IndexTable {
    /// The indices and their peers.
    pub open spec fn view(&self) -> Map<u32, [u8; 32]> {
        self.local@
    }

    /// Whether every index of this table is published as this worker's.
    pub open spec fn published(&self, owner: Map<u32, usize>) -> bool {
        forall|i: u32| #[trigger]
            self@.dom().contains(i) ==> owner.dom().contains(i) && owner[i] == self.wid
    }

    /// The empty table of worker `wid`.
    pub fn new(wid: usize) -> (t: IndexTable)
        ensures
            t@ == Map::<u32, [u8; 32]>::empty(),
            t.wid == wid,
    {
        IndexTable { local: HashMap::new(), wid }
    }

    /// Gives `idx` to the peer `pk`, here and for the readers.
    pub fn insert(&mut self, owner: &mut IndexOwner, idx: u32, pk: [u8; 32])
        ensures
            final(self)@ == old(self)@.insert(idx, pk),
            final(self).wid == old(self).wid,
            final(owner)@ == old(owner)@.insert(idx, old(self).wid),
            old(self).published(old(owner)@) ==> final(self).published(final(owner)@),
    {
        self.local.insert(idx, pk);
        owner.map.insert(idx, self.wid);
        assert forall|i: u32|
            old(self).published(old(owner)@) && #[trigger] self@.dom().contains(
                i,
            ) implies owner@.dom().contains(i) && owner@[i] == self.wid by {
            if i != idx {
                assert(old(self)@.dom().contains(i));
            }
        }
    }

    /// The peer that has `idx`.
    pub fn get(&self, idx: u32) -> (r: Option<[u8; 32]>)
        ensures
            r is Some <==> self@.dom().contains(idx),
            r matches Some(pk) ==> pk == self@[idx],
    {
        match self.local.get(&idx) {
            Some(pk) => Some(*pk),
            None => None,
        }
    }

    /// Takes back every index of the peer `pk`, here and for the readers, so that nothing that
    /// carries one is routed any more.
    pub fn remove_peer(&mut self, owner: &mut IndexOwner, pk: &[u8; 32])
        ensures
            final(self)@ == without_peer(old(self)@, pk@),
            final(self).wid == old(self).wid,
            final(owner)@ == disowned(old(owner)@, old(self)@, pk@),
            old(self).published(old(owner)@) ==> final(self).published(final(owner)@),
    {
        let mut idxs: Vec<u32> = Vec::new();
        let ghost all = self.local@;
        for entry in it: self.local.iter()
            invariant
                all == self.local@,
                it.seq().len() == all.dom().len(),
                forall|i: int|
                    0 <= i < it.seq().len() ==> all.contains_key(*(#[trigger] it.seq()[i]).0)
                        && all[*it.seq()[i].0] == *it.seq()[i].1,
                forall|j: int|
                    0 <= j < idxs@.len() ==> all.contains_key(#[trigger] idxs@[j])
                        && all[idxs@[j]]@ == pk@,
                forall|i: int|
                    0 <= i < it.index() && all[*(#[trigger] it.seq()[i]).0]@ == pk@
                        ==> idxs@.contains(*it.seq()[i].0),
        {
            let (k, v) = entry;
            if bytes_eq(v.as_slice(), pk.as_slice()) {
                let ghost before = idxs@;
                idxs.push(*k);
                assert(idxs@[before.len() as int] == *k);
                assert forall|x: u32| before.contains(x) implies idxs@.contains(x) by {
                    let j = choose|j: int| 0 <= j < before.len() && before[j] == x;
                    assert(idxs@[j] == x);
                }
            }
        }
        assert forall|k: u32| all.contains_key(k) && all[k]@ == pk@ implies idxs@.contains(k) by {
            assert(vstd::std_specs::iter::IteratorSpec::remaining(
                &vstd::std_specs::hash::spec_hash_map_iter(&self.local),
            ).contains((&k, &all[k])));
        }
        let mut j: usize = 0;
        let ghost owned = owner@;
        while j < idxs.len()
            invariant
                j <= idxs@.len(),
                self.wid == old(self).wid,
                forall|i: u32| #[trigger]
                    self@.dom().contains(i) <==> all.dom().contains(i) && !idxs@.take(
                        j as int,
                    ).contains(i),
                forall|i: u32| #[trigger] self@.dom().contains(i) ==> self@[i] == all[i],
                forall|i: u32| #[trigger]
                    owner@.dom().contains(i) <==> owned.dom().contains(i) && !idxs@.take(
                        j as int,
                    ).contains(i),
                forall|i: u32| #[trigger] owner@.dom().contains(i) ==> owner@[i] == owned[i],
            decreases idxs@.len() - j,
        {
            let idx: u32 = idxs[j];
            let ghost before = self@;
            let ghost owner_before = owner@;
            self.local.remove(&idx);
            owner.map.remove(&idx);
            assert(self@ == before.remove(idx));
            assert(owner@ == owner_before.remove(idx));
            assert(idxs@.take(j + 1) =~= idxs@.take(j as int).push(idx));
            assert forall|i: u32| idxs@.take(j + 1).contains(i) <==> (idxs@.take(
                j as int,
            ).contains(i) || i == idx) by {
                if idxs@.take(j as int).contains(i) {
                    let p = choose|p: int|
                        0 <= p < idxs@.take(j as int).len() && idxs@.take(j as int)[p] == i;
                    assert(idxs@.take(j + 1)[p] == i);
                }
                if i == idx {
                    assert(idxs@.take(j + 1)[j as int] == i);
                }
            }
            j += 1;
        }
        assert(idxs@.take(idxs@.len() as int) =~= idxs@);
        assert(self@ =~= without_peer(all, pk@));
        assert(owner@ =~= disowned(owned, all, pk@));
    }
}

/// Once a peer's indices are taken back, neither the worker nor the readers know one of them.
pub proof fn revoked_peer_is_unroutable(
    owner: Map<u32, usize>,
    local: Map<u32, [u8; 32]>,
    pk: Seq<u8>,
)
    ensures
        forall|i: u32| #[trigger]
            without_peer(local, pk).dom().contains(i) ==> without_peer(local, pk)[i]@ != pk,
        forall|i: u32|
            local.dom().contains(i) && local[i]@ == pk ==> !#[trigger] disowned(
                owner,
                local,
                pk,
            ).dom().contains(i),
{
}

/// Taking back a peer's indices leaves those of every other peer, here and for the readers.
pub proof fn other_indices_stay(
    owner: Map<u32, usize>,
    local: Map<u32, [u8; 32]>,
    pk: Seq<u8>,
    i: u32,
)
    requires
        local.dom().contains(i) ==> local[i]@ != pk,
    ensures
        without_peer(local, pk).dom().contains(i) == local.dom().contains(i),
        local.dom().contains(i) ==> without_peer(local, pk)[i] == local[i],
        disowned(owner, local, pk).dom().contains(i) == owner.dom().contains(i),
        owner.dom().contains(i) ==> disowned(owner, local, pk)[i] == owner[i],
{
}

/// An index that is in a worker's table leads every reader to that worker.
pub proof fn published_indices_lead_here(t: IndexTable, owner: Map<u32, usize>, i: u32)
    requires
        t.published(owner),
        t@.dom().contains(i),
    ensures
        owner.dom().contains(i),
        owner[i] == t.wid,
{
}

/// Removing a peer takes exactly its own indices away.
pub proof fn removal_takes_its_own(local: Map<u32, [u8; 32]>, pk: Seq<u8>, i: u32)
    ensures
        without_peer(local, pk).dom().contains(i) <==> local.dom().contains(i) && local[i]@ != pk,
        without_peer(local, pk).dom().contains(i) ==> without_peer(local, pk)[i] == local[i],
{
}

} // verus!
