//! Fixed-width integers on the wire.

use vstd::prelude::*;

verus! {

/// The four bytes of `n`, most significant first.
pub open spec fn be32(n: u32) -> Seq<u8> {
    seq![
        (n / 0x100_0000) as u8,
        (n / 0x1_0000 % 0x100) as u8,
        (n / 0x100 % 0x100) as u8,
        (n % 0x100) as u8,
    ]
}

/// The number that four bytes, most significant first, stand for.
pub open spec fn be32_value(b: Seq<u8>) -> int {
    b[0] * 0x100_0000 + b[1] * 0x1_0000 + b[2] * 0x100 + b[3]
}

/// The number that four bytes, least significant first, stand for.
pub open spec fn le32_value(b: Seq<u8>) -> int {
    b[0] + b[1] * 0x100 + b[2] * 0x1_0000 + b[3] * 0x100_0000
}

/// The number that a sequence of bytes, most significant first, stands for.
pub open spec fn be_value(b: Seq<u8>) -> nat
    decreases b.len(),
{
    if b.len() == 0 {
        0
    } else {
        be_value(b.drop_last()) * 256 + b.last() as nat
    }
}

/// The last `k` bytes of `n`, most significant first.
pub open spec fn be_bytes(n: nat, k: nat) -> Seq<u8>
    decreases k,
{
    if k == 0 {
        seq![]
    } else {
        be_bytes(n / 256, (k - 1) as nat).push((n % 256) as u8)
    }
}

/// `be_bytes` gives as many bytes as are asked for, and reading them back gives the number where
/// it fits.
pub proof fn be_bytes_round_trip(n: nat, k: nat)
    ensures
        be_bytes(n, k).len() == k,
        n < vstd::arithmetic::power::pow(256, k) ==> be_value(be_bytes(n, k)) == n,
    decreases k,
{
    if k > 0 {
        be_bytes_round_trip(n / 256, (k - 1) as nat);
        assert(be_bytes(n, k).drop_last() =~= be_bytes(n / 256, (k - 1) as nat));
        vstd::arithmetic::power::lemma_pow1(256);
        vstd::arithmetic::power::lemma_pow_adds(256, 1, (k - 1) as nat);
        let rest = vstd::arithmetic::power::pow(256, (k - 1) as nat);
        if n < vstd::arithmetic::power::pow(256, k) {
            assert(n < 256 * rest);
            assert(n / 256 < rest);
        }
    } else {
        vstd::arithmetic::power::lemma_pow0(256);
    }
}

/// Reading back four bytes that were written most significant first gives the number.
pub proof fn be32_round_trip(n: u32)
    ensures
        be32(n).len() == 4,
        be32_value(be32(n)) == n,
{
}

/// Appends `n`, most significant byte first.
pub fn put_be32(out: &mut Vec<u8>, n: u32)
    ensures
        final(out)@ == old(out)@ + be32(n),
{
    let b0: u8 = (n / 0x100_0000) as u8;
    let b1: u8 = (n / 0x1_0000 % 0x100) as u8;
    let b2: u8 = (n / 0x100 % 0x100) as u8;
    let b3: u8 = (n % 0x100) as u8;
    out.push(b0);
    out.push(b1);
    out.push(b2);
    out.push(b3);
    assert(out@ =~= old(out)@ + be32(n));
}

/// Reads four bytes at `off`, most significant first.
pub fn get_be32(b: &[u8], off: usize) -> (n: u32)
    requires
        off + 4 <= b@.len(),
    ensures
        n == be32_value(b@.subrange(off as int, off + 4)),
{
    let n: u32 = b[off] as u32 * 0x100_0000 + b[off + 1] as u32 * 0x1_0000 + b[off + 2] as u32
        * 0x100 + b[off + 3] as u32;
    n
}

/// The four bytes at `off`, least significant first, if they are there.
pub open spec fn le32_at(b: Seq<u8>, off: int) -> Option<u32> {
    if off + 4 <= b.len() {
        Some(le32_value(b.subrange(off, off + 4)) as u32)
    } else {
        None
    }
}

/// Reads four bytes at `off`, least significant first, if they are there.
pub fn le_u32(b: &[u8], off: usize) -> (r: Option<u32>)
    ensures
        r == le32_at(b@, off as int),
{
    if off > b.len() || b.len() - off < 4 {
        return None;
    }
    let n: u32 = b[off] as u32 + b[off + 1] as u32 * 0x100 + b[off + 2] as u32 * 0x1_0000
        + b[off + 3] as u32 * 0x100_0000;
    Some(n)
}

/// Reads eight bytes at the front, most significant first.
pub fn get_be64(b: &[u8]) -> (n: u64)
    requires
        8 <= b@.len(),
    ensures
        n == be_value(b@.take(8)),
{
    let mut n: u64 = 0;
    let mut i: usize = 0;
    while i < 8
        invariant
            i <= 8 <= b@.len(),
            n == be_value(b@.take(i as int)),
            i <= 0 ==> n == 0,
            i <= 1 ==> n < 0x100,
            i <= 2 ==> n < 0x1_0000,
            i <= 3 ==> n < 0x100_0000,
            i <= 4 ==> n < 0x1_0000_0000,
            i <= 5 ==> n < 0x100_0000_0000,
            i <= 6 ==> n < 0x1_0000_0000_0000,
            i <= 7 ==> n < 0x100_0000_0000_0000,
        decreases 8 - i,
    {
        assert(b@.take(i + 1).drop_last() =~= b@.take(i as int));
        n = n * 256 + b[i] as u64;
        i += 1;
    }
    n
}

/// Appends a slice of bytes.
pub fn put_bytes(out: &mut Vec<u8>, data: &[u8])
    ensures
        final(out)@ == old(out)@ + data@,
{
    out.extend_from_slice(data);
    assert(out@ =~= old(out)@ + data@);
}

/// Copies `b[from..to]`.
pub fn copy_range(b: &[u8], from: usize, to: usize) -> (out: Vec<u8>)
    requires
        from <= to <= b@.len(),
    ensures
        out@ == b@.subrange(from as int, to as int),
{
    let mut out: Vec<u8> = Vec::new();
    let mut i: usize = from;
    while i < to
        invariant
            from <= i <= to <= b@.len(),
            out@ == b@.subrange(from as int, i as int),
        decreases to - i,
    {
        out.push(b[i]);
        i += 1;
    }
    out
}

/// Copies a slice of bytes.
pub fn copy_bytes(b: &[u8]) -> (out: Vec<u8>)
    ensures
        out@ == b@,
{
    let out = copy_range(b, 0, b.len());
    assert(b@.subrange(0, b@.len() as int) =~= b@);
    out
}

/// Whether two byte strings are equal.
pub fn bytes_eq(a: &[u8], b: &[u8]) -> (r: bool)
    ensures
        r == (a@ == b@),
{
    if a.len() != b.len() {
        return false;
    }
    let mut i: usize = 0;
    while i < a.len()
        invariant
            i <= a@.len() == b@.len(),
            a@.subrange(0, i as int) == b@.subrange(0, i as int),
        decreases a@.len() - i,
    {
        if a[i] != b[i] {
            return false;
        }
        assert(a@.subrange(0, i + 1) =~= a@.subrange(0, i as int).push(a@[i as int]));
        assert(b@.subrange(0, i + 1) =~= b@.subrange(0, i as int).push(b@[i as int]));
        i += 1;
    }
    assert(a@.subrange(0, a@.len() as int) =~= a@);
    assert(b@.subrange(0, b@.len() as int) =~= b@);
    true
}

/// A word at an offset is read least significant byte first, and is there exactly if its four bytes
/// are.
pub proof fn words_are_little_endian(b: Seq<u8>, off: int)
    requires
        0 <= off,
    ensures
        le32_at(b, off) is Some <==> off + 4 <= b.len(),
        off + 4 <= b.len() ==> le32_at(b, off) == Some(
            (b[off] + 256 * (b[off + 1] + 256 * (b[off + 2] + 256 * b[off + 3]))) as u32,
        ),
{
}

/// A length is written most significant byte first.
pub proof fn lengths_are_big_endian(n: u32, b: Seq<u8>)
    requires
        b.len() == 4,
    ensures
        be32(n)[3] == n % 256,
        be32(n)[0] == n / 16777216,
        be32_value(be32(n)) == n,
        be32_value(b) == 256 * (256 * (256 * b[0] + b[1]) + b[2]) + b[3],
{
    be32_round_trip(n);
}

/// A number is read most significant byte first, whatever its length.
pub proof fn numbers_are_big_endian(b: Seq<u8>, last: u8)
    ensures
        be_value(seq![]) == 0,
        be_value(b.push(last)) == 256 * be_value(b) + last,
{
    assert(b.push(last).drop_last() =~= b);
}

} // verus!
