//! Digests and their hexadecimal text.

use sha2::{Digest, Sha256};
use vstd::prelude::*;

verus! {

/// `hex::FromHexError`: why a text is not hexadecimal.
#[verifier::external_type_specification]
#[verifier::external_body]
pub struct ExFromHexError(hex::FromHexError);

/// The SHA-256 digest of `data`.
pub uninterp spec fn sha256(data: Seq<u8>) -> Seq<u8>;

/// `sha2::Sha256::digest`: the 32-byte digest of its argument.
#[verifier::external_body]
pub(crate) fn sha256_of(data: &[u8]) -> (d: [u8; 32])
    ensures
        d@ == sha256(data@),
{
    Sha256::digest(data).into()
}

/// The hexadecimal digit of `v`, in lower case.
pub open spec fn hex_digit(v: int) -> char {
    if v < 10 {
        (v + 48) as char
    } else {
        (v + 87) as char
    }
}

/// The value of a hexadecimal digit in either case, if it is one.
pub open spec fn hex_value(c: char) -> Option<int> {
    if '0' <= c <= '9' {
        Some(c as int - 48)
    } else if 'a' <= c <= 'f' {
        Some(c as int - 87)
    } else if 'A' <= c <= 'F' {
        Some(c as int - 55)
    } else {
        None
    }
}

/// The text of two lower-case digits for each byte.
pub open spec fn hex_text(data: Seq<u8>) -> Seq<char> {
    Seq::new(
        2 * data.len(),
        |i: int|
            if i % 2 == 0 {
                hex_digit((data[i / 2] / 16) as int)
            } else {
                hex_digit((data[i / 2] % 16) as int)
            },
    )
}

/// Whether a text consists of an even number of hexadecimal digits.
pub open spec fn is_hex(s: Seq<char>) -> bool {
    &&& s.len() % 2 == 0
    &&& forall|i: int| 0 <= i < s.len() ==> hex_value(#[trigger] s[i]) is Some
}

/// The bytes that a text of hexadecimal digits stands for.
pub open spec fn hex_bytes(s: Seq<char>) -> Seq<u8> {
    Seq::new(
        s.len() / 2,
        |i: int| (hex_value(s[2 * i])->0 * 16 + hex_value(s[2 * i + 1])->0) as u8,
    )
}

/// `hex::encode`: two lower-case digits for each byte. The text is twice as long as the data and
/// has to fit in an allocation.
#[verifier::external_body]
pub(crate) fn hex_encode(data: &[u8]) -> (s: String)
    requires
        2 * data@.len() <= isize::MAX,
    ensures
        s@ == hex_text(data@),
{
    hex::encode(data)
}

/// `hex::decode`: the bytes of a text of hexadecimal digits in either case; an error for any other
/// text.
#[verifier::external_body]
pub(crate) fn hex_decode(s: &str) -> (r: Result<Vec<u8>, hex::FromHexError>)
    ensures
        r is Ok <==> is_hex(s@),
        r matches Ok(v) ==> v@ == hex_bytes(s@),
{
    hex::decode(s)
}

/// The 32 bytes of a text of 64 hexadecimal digits.
pub fn hex32(s: &str) -> (k: [u8; 32])
    requires
        is_hex(s@),
        s@.len() == 64,
    ensures
        k@ == hex_bytes(s@),
{
    match hex_decode(s) {
        Ok(v) => to_array32(v.as_slice()),
        Err(_) => [0u8;32],
    }
}

/// The 32 bytes of a text, if it is 64 hexadecimal digits.
pub fn parse_hex32(s: &str) -> (k: Option<[u8; 32]>)
    ensures
        k is Some <==> is_hex(s@) && s@.len() == 64,
        k matches Some(b) ==> b@ == hex_bytes(s@),
{
    match hex_decode(s) {
        Ok(v) =>
        if v.len() == 32 {
            Some(to_array32(v.as_slice()))
        } else {
            None
        },
        Err(_) => None,
    }
}

/// Copies 32 bytes into an array.
pub fn to_array32(b: &[u8]) -> (a: [u8; 32])
    requires
        b@.len() == 32,
    ensures
        a@ == b@,
{
    let mut a = [0u8;32];
    let mut i: usize = 0;
    while i < 32
        invariant
            i <= 32 == b@.len(),
            forall|j: int| 0 <= j < i ==> a@[j] == b@[j],
        decreases 32 - i,
    {
        a[i] = b[i];
        i += 1;
    }
    assert(a@ =~= b@);
    a
}

/// Decoding the text of some bytes gives the bytes back.
pub proof fn hex_round_trip(data: Seq<u8>)
    ensures
        is_hex(hex_text(data)),
        hex_bytes(hex_text(data)) == data,
{
    let s = hex_text(data);
    assert forall|v: int| 0 <= v < 16 implies hex_value(#[trigger] hex_digit(v)) == Some(v) by {}
    assert forall|i: int| 0 <= i < s.len() implies hex_value(#[trigger] s[i]) is Some by {
        assert(0 <= data[i / 2] / 16 < 16);
        assert(0 <= data[i / 2] % 16 < 16);
    }
    assert forall|i: int| 0 <= i < data.len() implies hex_bytes(s)[i] == data[i] by {
        assert((2 * i) / 2 == i && (2 * i + 1) / 2 == i && (2 * i) % 2 == 0 && (2 * i + 1) % 2
            == 1);
        assert(s[2 * i] == hex_digit((data[i] / 16) as int));
        assert(s[2 * i + 1] == hex_digit((data[i] % 16) as int));
    }
    assert(hex_bytes(s) =~= data);
}

} // verus!
