//! The order of public keys, which settles who begins a handshake.

use vstd::prelude::*;

verus! {

/// Whether `a` comes before `b`, byte by byte.
pub open spec fn before(a: Seq<u8>, b: Seq<u8>) -> bool
    decreases a.len(),
{
    if b.len() == 0 {
        false
    } else if a.len() == 0 {
        true
    } else if a[0] != b[0] {
        a[0] < b[0]
    } else {
        before(a.skip(1), b.skip(1))
    }
}

/// Where two byte strings first differ settles their order.
pub proof fn before_at(a: Seq<u8>, b: Seq<u8>, i: int)
    requires
        a.len() == b.len(),
        0 <= i < a.len(),
        forall|j: int| 0 <= j < i ==> #[trigger] a[j] == b[j],
        a[i] != b[i],
    ensures
        before(a, b) == (a[i] < b[i]),
    decreases i,
{
    if i > 0 {
        assert(a[0] == b[0]);
        let x = a.skip(1);
        let y = b.skip(1);
        assert forall|j: int| 0 <= j < i - 1 implies #[trigger] x[j] == y[j] by {
            assert(a[j + 1] == b[j + 1]);
        }
        before_at(x, y, i - 1);
    }
}

/// Nothing comes before itself.
pub proof fn before_irreflexive(a: Seq<u8>)
    ensures
        !before(a, a),
    decreases a.len(),
{
    if a.len() > 0 {
        before_irreflexive(a.skip(1));
    }
}

/// Of two different keys exactly one comes before the other, so exactly one of two peers begins a
/// handshake and the two never cross.
pub proof fn exactly_one_begins(a: Seq<u8>, b: Seq<u8>)
    requires
        a.len() == b.len(),
        a != b,
    ensures
        before(a, b) != before(b, a),
    decreases a.len(),
{
    if a.len() == 0 {
        assert(a =~= b);
    } else if a[0] == b[0] {
        if a.skip(1) == b.skip(1) {
            assert(a =~= seq![a[0]] + a.skip(1));
            assert(b =~= seq![b[0]] + b.skip(1));
        }
        exactly_one_begins(a.skip(1), b.skip(1));
    }
}

/// Whether the key `own` comes before the key `peer`, so that this end begins handshakes.
pub fn begins(own: &[u8; 32], peer: &[u8; 32]) -> (r: bool)
    ensures
        r == before(own@, peer@),
{
    let mut i: usize = 0;
    while i < 32
        invariant
            i <= 32,
            forall|j: int| 0 <= j < i ==> #[trigger] own@[j] == peer@[j],
        decreases 32 - i,
    {
        if own[i] != peer[i] {
            proof {
                before_at(own@, peer@, i as int);
            }
            return own[i] < peer[i];
        }
        i += 1;
    }
    assert(own@ =~= peer@);
    proof {
        before_irreflexive(own@);
    }
    false
}

} // verus!
