//! The header with which each connection says which bond it belongs to.

use crate::error::Error;
use crate::text::push_dec;
use rand::RngCore;
use vstd::prelude::*;
use vstd::string::StringExecFns;

verus! {

/// The version of the header that is spoken.
pub const BOND_VERSION: u8 = 1;

/// The header's length.
pub const BOND_HEADER_LEN: usize = 18;

/// The header: the version, the bond's id and the number of connections.
pub open spec fn header(bond_id: Seq<u8>, total: u8) -> Seq<u8> {
    seq![BOND_VERSION] + bond_id + seq![total]
}

/// `rand::thread_rng().fill_bytes`: sixteen random bytes. Nothing is claimed of them.
#[verifier::external_body]
fn random_id() -> [u8; 16] {
    let mut id = [0u8; 16];
    rand::thread_rng().fill_bytes(&mut id);
    id
}

/// A fresh id for a bond.
pub fn generate_bond_id() -> [u8; 16] {
    random_id()
}

/// Writes the header.
pub fn write_bond_header(bond_id: &[u8; 16], total: u8) -> (buf: [u8; 18])
    ensures
        buf@ == header(bond_id@, total),
{
    let mut buf = [0u8;18];
    buf[0] = BOND_VERSION;
    let mut i: usize = 0;
    while i < 16
        invariant
            i <= 16,
            buf@[0] == BOND_VERSION,
            forall|j: int| 0 <= j < i ==> buf@[j + 1] == #[trigger] bond_id@[j],
        decreases 16 - i,
    {
        buf[i + 1] = bond_id[i];
        i += 1;
    }
    buf[17] = total;
    assert forall|j: int| 0 <= j < 18 implies buf@[j] == header(bond_id@, total)[j] by {
        if 1 <= j < 17 {
            assert(buf@[(j - 1) + 1] == bond_id@[j - 1]);
        }
    }
    assert(buf@ =~= header(bond_id@, total));
    buf
}

/// Reads the header; refuses another version.
pub fn read_bond_header(buf: &[u8; 18]) -> (r: Result<([u8; 16], u8), Error>)
    ensures
        r is Ok <==> buf@[0] == BOND_VERSION,
        r matches Ok((id, total)) ==> buf@ == header(id@, total),
        r matches Err(Error::IO(s)) ==> s@ == "unsupported bond version: "@ + crate::text::dec(
            buf@[0] as nat,
        ),
        r matches Err(e) ==> e is IO,
{
    if buf[0] != BOND_VERSION {
        let mut s = String::from_str("unsupported bond version: ");
        push_dec(&mut s, buf[0] as u64);
        return Err(Error::IO(s));
    }
    let mut id = [0u8;16];
    let mut i: usize = 0;
    while i < 16
        invariant
            i <= 16,
            forall|j: int| 0 <= j < i ==> #[trigger] id@[j] == buf@[j + 1],
        decreases 16 - i,
    {
        id[i] = buf[i + 1];
        i += 1;
    }
    assert(buf@ =~= header(id@, buf@[17]));
    Ok((id, buf[17]))
}

/// A header determines the bond and the number of connections that it was written for.
pub proof fn header_determines(id: Seq<u8>, total: u8, id2: Seq<u8>, total2: u8)
    requires
        id.len() == 16,
        id2.len() == 16,
        header(id, total) == header(id2, total2),
    ensures
        id == id2,
        total == total2,
{
    assert(header(id, total).subrange(1, 17) =~= id);
    assert(header(id2, total2).subrange(1, 17) =~= id2);
    assert(header(id, total)[17] == total);
    assert(header(id2, total2)[17] == total2);
}

/// A header is eighteen bytes: the version, one; the bond's id; the number of its connections.
pub proof fn header_layout(id: Seq<u8>, total: u8)
    requires
        id.len() == 16,
    ensures
        header(id, total).len() == 18,
        header(id, total)[0] == 1,
        header(id, total).subrange(1, 17) == id,
        header(id, total)[17] == total,
{
    assert(header(id, total).subrange(1, 17) =~= id);
}

} // verus!
