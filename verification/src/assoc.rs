//! A map kept as a list of entries in the order in which their keys came in.

use vstd::prelude::*;

verus! {

/// A value that can be a key: it stands for a mathematical value, and two keys can be compared.
pub trait Keyed: Sized {
    /// What a key stands for.
    type Model;

    /// The value that the key stands for.
    spec fn model(&self) -> Self::Model;

    /// Whether two keys stand for the same value.
    fn same(&self, other: &Self) -> (r: bool)
        ensures
            r == (self.model() == other.model()),
    ;
}

impl Keyed for [u8; 32] {
    type Model = Seq<u8>;

    open spec fn model(&self) -> Seq<u8> {
        self@
    }

    fn same(&self, other: &Self) -> (r: bool) {
        crate::wire::bytes_eq(self.as_slice(), other.as_slice())
    }
}

impl Keyed for [u8; 16] {
    type Model = Seq<u8>;

    open spec fn model(&self) -> Seq<u8> {
        self@
    }

    fn same(&self, other: &Self) -> (r: bool) {
        crate::wire::bytes_eq(self.as_slice(), other.as_slice())
    }
}

impl Keyed for crate::net::SocketAddr {
    type Model = crate::net::SocketAddr;

    open spec fn model(&self) -> crate::net::SocketAddr {
        *self
    }

    fn same(&self, other: &Self) -> (r: bool) {
        *self == *other
    }
}

impl Keyed for String {
    type Model = Seq<char>;

    open spec fn model(&self) -> Seq<char> {
        self@
    }

    fn same(&self, other: &Self) -> (r: bool) {
        *self == *other
    }
}

/// A map from keys to values, at most one entry for each key.
#[derive(Debug)]
pub struct Assoc<K, V> {
    pub entries: Vec<(K, V)>,
}

/// Whether no two entries have the same key.
pub open spec fn keys_distinct<K: Keyed, V>(s: Seq<(K, V)>) -> bool {
    forall|i: int, j: int|
        #![trigger s[i], s[j]]
        0 <= i < j < s.len() ==> s[i].0.model() != s[j].0.model()
}

/// Whether entry `i` of `s` has the key `k`.
pub open spec fn has_at<K: Keyed, V>(s: Seq<(K, V)>, k: K::Model, i: int) -> bool {
    0 <= i < s.len() && s[i].0.model() == k
}

/// The map that a list of entries stands for.
pub open spec fn as_map<K: Keyed, V>(s: Seq<(K, V)>) -> Map<K::Model, V> {
    Map::new(
        |k: K::Model| exists|i: int| #[trigger] has_at(s, k, i),
        |k: K::Model| s[choose|i: int| #[trigger] has_at(s, k, i)].1,
    )
}

/// The keys of a list of entries, in order.
pub open spec fn keys_of<K: Keyed, V>(s: Seq<(K, V)>) -> Seq<K::Model> {
    s.map_values(|e: (K, V)| e.0.model())
}

/// The keys but for one.
pub open spec fn all_but<M>(keys: Seq<M>, k: M) -> Seq<M> {
    keys.filter(|m: M| m != k)
}

/// All keys but one that is not among them.
proof fn all_but_none<M>(keys: Seq<M>, k: M)
    requires
        forall|i: int| 0 <= i < keys.len() ==> #[trigger] keys[i] != k,
    ensures
        all_but(keys, k) == keys,
    decreases keys.len(),
{
    reveal(Seq::filter);
    if keys.len() > 0 {
        all_but_none(keys.drop_last(), k);
        assert(keys =~= keys.drop_last().push(keys.last()));
    }
}

/// All keys but the one at `i`.
proof fn all_but_at<M>(keys: Seq<M>, i: int)
    requires
        0 <= i < keys.len(),
        forall|j: int| 0 <= j < keys.len() && j != i ==> #[trigger] keys[j] != keys[i],
    ensures
        all_but(keys, keys[i]) == keys.remove(i),
    decreases keys.len(),
{
    reveal(Seq::filter);
    let front = keys.drop_last();
    if i == keys.len() - 1 {
        all_but_none(front, keys[i]);
        assert(keys.remove(i) =~= front);
    } else {
        all_but_at(front, i);
        assert(keys.remove(i) =~= front.remove(i).push(keys.last()));
    }
}

/// The entry at `i` is what the map holds for its key.
pub proof fn as_map_at<K: Keyed, V>(s: Seq<(K, V)>, i: int)
    requires
        keys_distinct(s),
        0 <= i < s.len(),
    ensures
        as_map(s).dom().contains(s[i].0.model()),
        as_map(s)[s[i].0.model()] == s[i].1,
{
    let k = s[i].0.model();
    assert(has_at(s, k, i));
    let j = choose|j: int| #[trigger] has_at(s, k, j);
    assert(has_at(s, k, j));
    if i < j {
        assert(s[i].0.model() != s[j].0.model());
    } else if j < i {
        assert(s[j].0.model() != s[i].0.model());
    }
}

impl<K: Keyed, V> Assoc<K, V> {
    /// No two entries have the same key.
    pub open spec fn wf(&self) -> bool {
        keys_distinct(self.entries@)
    }

    /// The map.
    pub open spec fn view(&self) -> Map<K::Model, V> {
        as_map(self.entries@)
    }

    /// The keys in the order in which they came in.
    pub open spec fn order(&self) -> Seq<K::Model> {
        keys_of(self.entries@)
    }

    /// The empty map.
    pub fn new() -> (m: Self)
        ensures
            m.wf(),
            m.order() == Seq::<K::Model>::empty(),
            m@ == Map::<K::Model, V>::empty(),
            m.entries@.len() == 0,
    {
        let m = Assoc { entries: Vec::new() };
        assert(m@ =~= Map::<K::Model, V>::empty());
        assert(m.order() =~= Seq::<K::Model>::empty());
        m
    }

    /// The position of the entry for `k`.
    pub fn position(&self, k: &K) -> (r: Option<usize>)
        requires
            self.wf(),
        ensures
            match r {
                Some(i) => {
                    &&& has_at(self.entries@, k.model(), i as int)
                    &&& self@.dom().contains(k.model())
                    &&& self@[k.model()] == self.entries@[i as int].1
                },
                None => {
                    &&& !self@.dom().contains(k.model())
                    &&& forall|i: int|
                        0 <= i < self.entries@.len() ==> #[trigger] self.entries@[i].0.model()
                            != k.model()
                },
            },
    {
        let mut i: usize = 0;
        while i < self.entries.len()
            invariant
                self.wf(),
                i <= self.entries@.len(),
                forall|j: int| 0 <= j < i ==> #[trigger] self.entries@[j].0.model() != k.model(),
            decreases self.entries@.len() - i,
        {
            if self.entries[i].0.same(k) {
                proof {
                    as_map_at(self.entries@, i as int);
                }
                return Some(i);
            }
            i += 1;
        }
        proof {
            if self@.dom().contains(k.model()) {
                let j = choose|j: int| #[trigger] has_at(self.entries@, k.model(), j);
                assert(has_at(self.entries@, k.model(), j));
            }
        }
        None
    }

    /// Whether there is an entry for `k`.
    pub fn contains_key(&self, k: &K) -> (r: bool)
        requires
            self.wf(),
        ensures
            r == self@.dom().contains(k.model()),
    {
        self.position(k).is_some()
    }

    /// The value for `k`.
    pub fn get(&self, k: &K) -> (r: Option<&V>)
        requires
            self.wf(),
        ensures
            r is Some <==> self@.dom().contains(k.model()),
            r matches Some(v) ==> *v == self@[k.model()],
    {
        match self.position(k) {
            Some(i) => Some(&self.entries[i].1),
            None => None,
        }
    }

    /// Sets the value for `k`; a new key comes last.
    pub fn insert(&mut self, k: K, v: V)
        requires
            old(self).wf(),
        ensures
            final(self).wf(),
            final(self)@ == old(self)@.insert(k.model(), v),
            final(self).order() == if old(self)@.dom().contains(k.model()) {
                old(self).order()
            } else {
                old(self).order().push(k.model())
            },
            !old(self)@.dom().contains(k.model()) ==> final(self).entries@ == old(
                self,
            ).entries@.push((k, v)),
    {
        let ghost before = self.entries@;
        match self.position(&k) {
            Some(i) => {
                self.entries[i] = (k, v);
                let ghost after = self.entries@;
                proof {
                    insert_at(before, i as int, k, v);
                    assert(keys_of(after) =~= keys_of(before));
                }
            },
            None => {
                self.entries.push((k, v));
                proof {
                    insert_last(before, k, v);
                    assert(keys_of(self.entries@) =~= keys_of(before).push(k.model()));
                }
            },
        }
    }

    /// Takes out the entry for `k`; the others keep their order.
    pub fn remove(&mut self, k: &K) -> (r: Option<V>)
        requires
            old(self).wf(),
        ensures
            final(self).wf(),
            final(self)@ == old(self)@.remove(k.model()),
            final(self).order() == all_but(old(self).order(), k.model()),
            r is Some <==> old(self)@.dom().contains(k.model()),
            r matches Some(v) ==> v == old(self)@[k.model()],
            r is Some ==> exists|i: int| #[trigger]
                has_at(old(self).entries@, k.model(), i) && final(self).entries@ == old(
                    self,
                ).entries@.remove(i),
            r is None ==> final(self).entries@ == old(self).entries@,
    {
        let ghost before = self.entries@;
        match self.position(k) {
            Some(i) => {
                assert(has_at(self.entries@, k.model(), i as int));
                let (_, v) = self.entries.remove(i);
                proof {
                    remove_at(before, i as int);
                    assert forall|j: int| 0 <= j < before.len() && j != i implies #[trigger] keys_of(
                        before,
                    )[j] != keys_of(before)[i as int] by {
                        if j < i {
                            assert(before[j].0.model() != before[i as int].0.model());
                        } else {
                            assert(before[i as int].0.model() != before[j].0.model());
                        }
                    }
                    all_but_at(keys_of(before), i as int);
                    assert(keys_of(self.entries@) =~= keys_of(before).remove(i as int));
                }
                Some(v)
            },
            None => {
                assert(self@ =~= self@.remove(k.model()));
                proof {
                    all_but_none(self.order(), k.model());
                }
                None
            },
        }
    }
}

/// Replacing an entry by one with the same key.
proof fn insert_at<K: Keyed, V>(s: Seq<(K, V)>, i: int, k: K, v: V)
    requires
        keys_distinct(s),
        has_at(s, k.model(), i),
    ensures
        keys_distinct(s.update(i, (k, v))),
        as_map(s.update(i, (k, v))) == as_map(s).insert(k.model(), v),
{
    let t = s.update(i, (k, v));
    assert forall|a: int, b: int| #![trigger t[a], t[b]] 0 <= a < b < t.len() implies
        t[a].0.model() != t[b].0.model() by {
        assert(s[a].0.model() != s[b].0.model());
    }
    assert(as_map(t) =~= as_map(s).insert(k.model(), v)) by {
        assert forall|m: K::Model|
            as_map(t).dom().contains(m) == as_map(s).insert(k.model(), v).dom().contains(m) by {
            if as_map(t).dom().contains(m) {
                let j = choose|j: int| #[trigger] has_at(t, m, j);
                assert(has_at(t, m, j));
                assert(has_at(s, m, j));
            }
            if as_map(s).dom().contains(m) {
                let j = choose|j: int| #[trigger] has_at(s, m, j);
                assert(has_at(s, m, j));
                assert(has_at(t, m, j));
            }
            if m == k.model() {
                assert(has_at(t, m, i));
            }
        }
        assert forall|m: K::Model| as_map(t).dom().contains(m) implies #[trigger] as_map(t)[m]
            == as_map(s).insert(k.model(), v)[m] by {
            let j = choose|j: int| #[trigger] has_at(t, m, j);
            assert(has_at(t, m, j));
            as_map_at(t, j);
            as_map_at(s, j);
            if j == i {
            } else {
                if i < j {
                    assert(s[i].0.model() != s[j].0.model());
                } else {
                    assert(s[j].0.model() != s[i].0.model());
                }
            }
        }
    }
}

/// Adding an entry with a new key at the end.
proof fn insert_last<K: Keyed, V>(s: Seq<(K, V)>, k: K, v: V)
    requires
        keys_distinct(s),
        forall|i: int| 0 <= i < s.len() ==> #[trigger] s[i].0.model() != k.model(),
    ensures
        keys_distinct(s.push((k, v))),
        as_map(s.push((k, v))) == as_map(s).insert(k.model(), v),
{
    let t = s.push((k, v));
    assert(keys_distinct(t));
    assert(as_map(t) =~= as_map(s).insert(k.model(), v)) by {
        assert forall|m: K::Model|
            as_map(t).dom().contains(m) == as_map(s).insert(k.model(), v).dom().contains(m) by {
            if as_map(t).dom().contains(m) {
                let j = choose|j: int| #[trigger] has_at(t, m, j);
                assert(has_at(t, m, j));
                if j < s.len() {
                    assert(has_at(s, m, j));
                }
            }
            if as_map(s).dom().contains(m) {
                let j = choose|j: int| #[trigger] has_at(s, m, j);
                assert(has_at(s, m, j));
                assert(has_at(t, m, j));
            }
            if m == k.model() {
                assert(has_at(t, m, s.len() as int));
            }
        }
        assert forall|m: K::Model| as_map(t).dom().contains(m) implies #[trigger] as_map(t)[m]
            == as_map(s).insert(k.model(), v)[m] by {
            let j = choose|j: int| #[trigger] has_at(t, m, j);
            assert(has_at(t, m, j));
            as_map_at(t, j);
            if j < s.len() {
                as_map_at(s, j);
            }
        }
    }
}

/// Taking an entry out.
proof fn remove_at<K: Keyed, V>(s: Seq<(K, V)>, i: int)
    requires
        keys_distinct(s),
        0 <= i < s.len(),
    ensures
        keys_distinct(s.remove(i)),
        as_map(s.remove(i)) == as_map(s).remove(s[i].0.model()),
{
    let t = s.remove(i);
    let k = s[i].0.model();
    assert forall|a: int, b: int| #![trigger t[a], t[b]] 0 <= a < b < t.len() implies
        t[a].0.model() != t[b].0.model() by {
        let a2 = if a < i { a } else { a + 1 };
        let b2 = if b < i { b } else { b + 1 };
        assert(s[a2].0.model() != s[b2].0.model());
    }
    assert(as_map(t) =~= as_map(s).remove(k)) by {
        assert forall|m: K::Model|
            as_map(t).dom().contains(m) == as_map(s).remove(k).dom().contains(m) by {
            if as_map(t).dom().contains(m) {
                let j = choose|j: int| #[trigger] has_at(t, m, j);
                assert(has_at(t, m, j));
                let j2 = if j < i { j } else { j + 1 };
                assert(has_at(s, m, j2));
                if i < j2 {
                    assert(s[i].0.model() != s[j2].0.model());
                } else {
                    assert(s[j2].0.model() != s[i].0.model());
                }
            }
            if as_map(s).remove(k).dom().contains(m) {
                let j = choose|j: int| #[trigger] has_at(s, m, j);
                assert(has_at(s, m, j));
                let j2 = if j < i { j } else { j - 1 };
                assert(has_at(t, m, j2));
            }
        }
        assert forall|m: K::Model| as_map(t).dom().contains(m) implies #[trigger] as_map(t)[m]
            == as_map(s).remove(k)[m] by {
            let j = choose|j: int| #[trigger] has_at(t, m, j);
            assert(has_at(t, m, j));
            as_map_at(t, j);
            let j2 = if j < i { j } else { j + 1 };
            as_map_at(s, j2);
        }
    }
}

} // verus!
