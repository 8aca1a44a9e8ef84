//! Version 4 addresses and networks: their text, and which addresses a network holds.

use crate::text::{chars_of, find_char, push_dec, text_of};
use vstd::arithmetic::power2::pow2;
use vstd::prelude::*;
use vstd::string::StringExecFns;

verus! {

/// The address made of four bytes.
pub open spec fn ip_of(a: int, b: int, c: int, d: int) -> int {
    a * 0x100_0000 + b * 0x1_0000 + c * 0x100 + d
}

/// The text of an address: its four bytes in decimal, with dots between them.
pub open spec fn ipv4_text(ip: u32) -> Seq<char> {
    quad(
        (ip / 0x100_0000) as nat,
        (ip / 0x1_0000 % 0x100) as nat,
        (ip / 0x100 % 0x100) as nat,
        (ip % 0x100) as nat,
    )
}

/// Four numbers with dots between them.
pub open spec fn quad(a: nat, b: nat, c: nat, d: nat) -> Seq<char> {
    crate::text::dec(a) + seq!['.'] + (crate::text::dec(b) + seq!['.'] + (crate::text::dec(c)
        + seq!['.'] + crate::text::dec(d)))
}

/// Four numbers can be read back from their text.
proof fn quad_injective(a: nat, b: nat, c: nat, d: nat, w: nat, x: nat, y: nat, z: nat)
    requires
        quad(a, b, c, d) == quad(w, x, y, z),
    ensures
        a == w && b == x && c == y && d == z,
{
    crate::text::dec_is_digits(a);
    crate::text::dec_is_digits(b);
    crate::text::dec_is_digits(c);
    crate::text::dec_is_digits(w);
    crate::text::dec_is_digits(x);
    crate::text::dec_is_digits(y);
    let cd = crate::text::dec(c) + seq!['.'] + crate::text::dec(d);
    let yz = crate::text::dec(y) + seq!['.'] + crate::text::dec(z);
    let bcd = crate::text::dec(b) + seq!['.'] + cd;
    let xyz = crate::text::dec(x) + seq!['.'] + yz;
    crate::text::split_unique(crate::text::dec(a), bcd, crate::text::dec(w), xyz, '.');
    crate::text::split_unique(crate::text::dec(b), cd, crate::text::dec(x), yz, '.');
    crate::text::split_unique(
        crate::text::dec(c),
        crate::text::dec(d),
        crate::text::dec(y),
        crate::text::dec(z),
        '.',
    );
    crate::text::dec_injective(a, w);
    crate::text::dec_injective(b, x);
    crate::text::dec_injective(c, y);
    crate::text::dec_injective(d, z);
}

/// Different addresses have different texts.
pub proof fn ipv4_text_injective(p: u32, q: u32)
    requires
        ipv4_text(p) == ipv4_text(q),
    ensures
        p == q,
{
    quad_injective(
        (p / 0x100_0000) as nat,
        (p / 0x1_0000 % 0x100) as nat,
        (p / 0x100 % 0x100) as nat,
        (p % 0x100) as nat,
        (q / 0x100_0000) as nat,
        (q / 0x1_0000 % 0x100) as nat,
        (q / 0x100 % 0x100) as nat,
        (q % 0x100) as nat,
    );
    assert(p == q) by (bit_vector)
        requires
            p / 0x100_0000 == q / 0x100_0000,
            p / 0x1_0000 % 0x100 == q / 0x1_0000 % 0x100,
            p / 0x100 % 0x100 == q / 0x100 % 0x100,
            p % 0x100 == q % 0x100,
    ;
}

/// The address that a text stands for: the one whose text it is.
pub open spec fn ipv4_of(s: Seq<char>) -> Option<u32> {
    if exists|ip: u32| s == #[trigger] ipv4_text(ip) {
        Some(choose|ip: u32| s == #[trigger] ipv4_text(ip))
    } else {
        None
    }
}

/// The text of an address stands for that address.
pub proof fn ipv4_round_trip(ip: u32)
    ensures
        ipv4_of(ipv4_text(ip)) == Some(ip),
{
    let q = choose|q: u32| ipv4_text(ip) == #[trigger] ipv4_text(q);
    assert(ipv4_text(ip) == ipv4_text(q));
    ipv4_text_injective(ip, q);
}

/// Writes an address.
pub fn ipv4_to_text(ip: u32) -> (s: String)
    ensures
        s@ == ipv4_text(ip),
{
    let mut s = String::new();
    push_dec(&mut s, (ip / 0x100_0000) as u64);
    s.push('.');
    push_dec(&mut s, (ip / 0x1_0000 % 0x100) as u64);
    s.push('.');
    push_dec(&mut s, (ip / 0x100 % 0x100) as u64);
    s.push('.');
    push_dec(&mut s, (ip % 0x100) as u64);
    assert(s@ =~= ipv4_text(ip));
    s
}

/// The number that a text of one to three digits without a leading zero stands for, if it is
/// below 256.
fn parse_octet(v: &[char], from: usize, to: usize) -> (r: Option<u32>)
    requires
        from <= to <= v@.len(),
    ensures
        match r {
            Some(n) => n < 256 && v@.subrange(from as int, to as int) == crate::text::dec(n as nat),
            None => forall|n: nat|
                n < 256 ==> v@.subrange(from as int, to as int) != #[trigger] crate::text::dec(n),
        },
{
    let ghost s = v@.subrange(from as int, to as int);
    proof {
        assert forall|n: nat| n < 256 implies {
            &&& (#[trigger] crate::text::dec(n)).len() == if n < 10 {
                1int
            } else if n < 100 {
                2
            } else {
                3
            }
            &&& crate::text::dec(n) == if n < 10 {
                seq![crate::text::digit(n as int)]
            } else if n < 100 {
                seq![crate::text::digit((n / 10) as int), crate::text::digit((n % 10) as int)]
            } else {
                seq![
                    crate::text::digit((n / 100) as int),
                    crate::text::digit((n / 10 % 10) as int),
                    crate::text::digit((n % 10) as int),
                ]
            }
        } by {
            reveal_with_fuel(crate::text::dec, 3);
            if n < 10 {
            } else if n < 100 {
                assert(crate::text::dec(n) =~= seq![
                    crate::text::digit((n / 10) as int),
                    crate::text::digit((n % 10) as int),
                ]);
            } else {
                assert(n / 10 / 10 == n / 100);
                assert(crate::text::dec(n) =~= seq![
                    crate::text::digit((n / 100) as int),
                    crate::text::digit((n / 10 % 10) as int),
                    crate::text::digit((n % 10) as int),
                ]);
            }
        }
    }
    let len: usize = to - from;
    if len == 0 || len > 3 {
        return None;
    }
    let mut i: usize = from;
    while i < to
        invariant
            from <= i <= to <= v@.len(),
            forall|j: int| from <= j < i ==> crate::text::is_digit(#[trigger] v@[j]),
        decreases to - i,
    {
        if v[i] < '0' || v[i] > '9' {
            proof {
                assert(!crate::text::is_digit(v@.subrange(from as int, to as int)[i - from]));
                assert forall|n: nat| n < 256 implies v@.subrange(from as int, to as int)
                    != #[trigger] crate::text::dec(n) by {
                    crate::text::dec_is_digits(n);
                }
            }
            return None;
        }
        i += 1;
    }
    let d0: u32 = v[from] as u32 - 48;
    assert(s[0] == crate::text::digit(d0 as int));
    if len == 1 {
        assert(s =~= crate::text::dec(d0 as nat));
        return Some(d0);
    }
    if d0 == 0 {
        assert forall|n: nat| n < 256 implies s != #[trigger] crate::text::dec(n) by {
            if s == crate::text::dec(n) {
                assert(crate::text::dec(n)[0] == crate::text::digit(0));
            }
        }
        return None;
    }
    let d1: u32 = v[from + 1] as u32 - 48;
    assert(s[1] == crate::text::digit(d1 as int));
    if len == 2 {
        let n2: u32 = d0 * 10 + d1;
        assert(s =~= crate::text::dec(n2 as nat));
        return Some(n2);
    }
    let d2: u32 = v[from + 2] as u32 - 48;
    assert(s[2] == crate::text::digit(d2 as int));
    let n3: u32 = d0 * 100 + d1 * 10 + d2;
    if n3 > 255 {
        assert forall|n: nat| n < 256 implies s != #[trigger] crate::text::dec(n) by {
            if s == crate::text::dec(n) {
                assert(crate::text::dec(n)[0] == crate::text::digit((n / 100) as int));
                assert(crate::text::dec(n)[1] == crate::text::digit((n / 10 % 10) as int));
                assert(crate::text::dec(n)[2] == crate::text::digit((n % 10) as int));
            }
        }
        return None;
    }
    assert(n3 / 100 == d0 && n3 / 10 % 10 == d1 && n3 % 10 == d2);
    assert(s =~= crate::text::dec(n3 as nat));
    Some(n3)
}

/// If `s` is an address's text, the part before its first dot from `i` on is one of its numbers.
proof fn dots_of_quad(s: Seq<char>, i: int, k: int, n: nat, rest: Seq<char>)
    requires
        0 <= i <= k <= s.len(),
        s.skip(i) == crate::text::dec(n) + seq!['.'] + rest,
        forall|j: int| i <= j < k ==> #[trigger] s[j] != '.',
        k < s.len() ==> s[k] == '.',
    ensures
        k < s.len(),
        s.subrange(i, k) == crate::text::dec(n),
        s.skip(k + 1) == rest,
{
    crate::text::dec_is_digits(n);
    let t = s.skip(i);
    let m = crate::text::dec(n).len() as int;
    assert(t.len() == m + 1 + rest.len());
    assert(t.len() == s.len() - i);
    assert(t[m] == '.');
    assert(s[i + m] == '.');
    if k > i + m {
        assert(s[i + m] != '.');
    }
    if k < i + m {
        assert(t[k - i] == crate::text::dec(n)[k - i]);
        assert(crate::text::is_digit(crate::text::dec(n)[k - i]));
        assert(s[k] == t[k - i]);
    }
    assert(s.subrange(i, k) =~= t.take(m));
    assert(t.take(m) =~= crate::text::dec(n));
    assert(s.skip(k + 1) =~= t.skip(m + 1));
    assert(t.skip(m + 1) =~= rest);
}

/// Where the dots of a text are: the first one, the next ones behind it, the end where there are
/// no more.
spec fn dots(s: Seq<char>, k1: int, k2: int, k3: int) -> bool {
    &&& 0 <= k1 < k2 < k3 <= s.len()
    &&& s[k1] == '.'
    &&& s[k2] == '.'
    &&& k3 < s.len() ==> s[k3] == '.'
    &&& forall|j: int| 0 <= j < k1 ==> #[trigger] s[j] != '.'
    &&& forall|j: int| k1 + 1 <= j < k2 ==> #[trigger] s[j] != '.'
    &&& forall|j: int| k2 + 1 <= j < k3 ==> #[trigger] s[j] != '.'
}

/// The parts between the dots of an address's text are its four numbers.
proof fn quad_is(s: Seq<char>, ip: u32, k1: int, k2: int, k3: int)
    requires
        s == ipv4_text(ip),
        dots(s, k1, k2, k3),
    ensures
        k3 < s.len(),
        s.subrange(0, k1) == crate::text::dec((ip / 0x100_0000) as nat),
        s.subrange(k1 + 1, k2) == crate::text::dec((ip / 0x1_0000 % 0x100) as nat),
        s.subrange(k2 + 1, k3) == crate::text::dec((ip / 0x100 % 0x100) as nat),
        s.subrange(k3 + 1, s.len() as int) == crate::text::dec((ip % 0x100) as nat),
{
    quad_parts(s, ip, k1);
    quad_parts2(s, ip, k1, k2);
    quad_parts3(s, ip, k2, k3);
    assert(s.subrange(k3 + 1, s.len() as int) =~= s.skip(k3 + 1));
}

/// Four numbers between the dots of a text make it an address's text.
proof fn quad_makes(s: Seq<char>, a: u32, b: u32, c: u32, d: u32, k1: int, k2: int, k3: int)
    requires
        dots(s, k1, k2, k3),
        k3 < s.len(),
        a < 256 && b < 256 && c < 256 && d < 256,
        s.subrange(0, k1) == crate::text::dec(a as nat),
        s.subrange(k1 + 1, k2) == crate::text::dec(b as nat),
        s.subrange(k2 + 1, k3) == crate::text::dec(c as nat),
        s.subrange(k3 + 1, s.len() as int) == crate::text::dec(d as nat),
    ensures
        ipv4_of(s) == Some(ip_of(a as int, b as int, c as int, d as int) as u32),
{
    bytes_of_ip(a, b, c, d);
    let ip = ip_of(a as int, b as int, c as int, d as int) as u32;
    let t2 = s.skip(k1 + 1);
    let t3 = s.skip(k2 + 1);
    cut(s, 0, k1);
    cut(s, k1 + 1, k2);
    cut(s, k2 + 1, k3);
    assert(s.skip(0) =~= s);
    assert(s.skip(k3 + 1) =~= s.subrange(k3 + 1, s.len() as int));
    assert(s == ipv4_text(ip));
    ipv4_round_trip(ip);
}

/// What follows a place, cut at a dot.
proof fn cut(s: Seq<char>, i: int, k: int)
    requires
        0 <= i <= k < s.len(),
        s[k] == '.',
    ensures
        s.skip(i) == s.subrange(i, k) + seq!['.'] + s.skip(k + 1),
{
    assert(s.skip(i) =~= s.subrange(i, k) + seq!['.'] + s.skip(k + 1));
}

/// The bytes of an address made of four bytes.
proof fn bytes_of_ip(a: u32, b: u32, c: u32, d: u32)
    requires
        a < 256 && b < 256 && c < 256 && d < 256,
    ensures
        ip_of(a as int, b as int, c as int, d as int) <= u32::MAX,
        ip_of(a as int, b as int, c as int, d as int) / 0x100_0000 == a,
        ip_of(a as int, b as int, c as int, d as int) / 0x1_0000 % 0x100 == b,
        ip_of(a as int, b as int, c as int, d as int) / 0x100 % 0x100 == c,
        ip_of(a as int, b as int, c as int, d as int) % 0x100 == d,
{
    let upper = a as int * 0x1_0000 + b as int * 0x100 + c as int;
    let top = a as int * 0x100 + b as int;
    let ip = upper * 0x100 + d as int;
    assert(ip / 0x100 == upper && ip % 0x100 == d);
    assert(upper / 0x100 == top && upper % 0x100 == c);
    assert(top / 0x100 == a && top % 0x100 == b);
    assert(ip / 0x1_0000 == upper / 0x100);
    assert(ip / 0x100_0000 == top / 0x100);
}

/// A text without three dots is no address's text.
proof fn too_few_dots(s: Seq<char>, k1: int, k2: int)
    requires
        0 <= k1 <= s.len(),
        forall|j: int| 0 <= j < k1 ==> #[trigger] s[j] != '.',
        k1 < s.len() ==> {
            &&& s[k1] == '.'
            &&& k1 < k2 == s.len()
            &&& forall|j: int| k1 + 1 <= j < k2 ==> #[trigger] s[j] != '.'
        },
    ensures
        ipv4_of(s) is None,
{
    assert forall|ip: u32| s != #[trigger] ipv4_text(ip) by {
        if s == ipv4_text(ip) {
            quad_parts(s, ip, k1);
            quad_parts2(s, ip, k1, k2);
        }
    }
}

/// Reads an address.
pub fn parse_ipv4(text: &str) -> (r: Option<u32>)
    ensures
        r == ipv4_of(text@),
{
    let w = chars_of(text);
    let ghost s = w@;
    let k1: usize = find_char(w.as_slice(), 0, '.');
    if k1 == w.len() {
        proof {
            too_few_dots(s, k1 as int, 0);
        }
        return None;
    }
    let k2: usize = find_char(w.as_slice(), k1 + 1, '.');
    if k2 == w.len() {
        proof {
            too_few_dots(s, k1 as int, k2 as int);
        }
        return None;
    }
    let k3: usize = find_char(w.as_slice(), k2 + 1, '.');
    assert(dots(s, k1 as int, k2 as int, k3 as int));
    if k3 == w.len() {
        assert forall|ip: u32| s != #[trigger] ipv4_text(ip) by {
            if s == ipv4_text(ip) {
                quad_is(s, ip, k1 as int, k2 as int, k3 as int);
            }
        }
        return None;
    }
    let a = parse_octet(w.as_slice(), 0, k1);
    let b = parse_octet(w.as_slice(), k1 + 1, k2);
    let c = parse_octet(w.as_slice(), k2 + 1, k3);
    let d = parse_octet(w.as_slice(), k3 + 1, w.len());
    match (a, b, c, d) {
        (Some(a), Some(b), Some(c), Some(d)) => {
            proof {
                quad_makes(s, a, b, c, d, k1 as int, k2 as int, k3 as int);
            }
            Some(a * 0x100_0000 + b * 0x1_0000 + c * 0x100 + d)
        },
        _ => {
            assert forall|ip: u32| s != #[trigger] ipv4_text(ip) by {
                if s == ipv4_text(ip) {
                    quad_is(s, ip, k1 as int, k2 as int, k3 as int);
                }
            }
            None
        },
    }
}

/// The first number and what follows it.
proof fn quad_parts(s: Seq<char>, ip: u32, k1: int)
    requires
        s == ipv4_text(ip),
        0 <= k1 <= s.len(),
        forall|j: int| 0 <= j < k1 ==> #[trigger] s[j] != '.',
        k1 < s.len() ==> s[k1] == '.',
    ensures
        k1 < s.len(),
        s.subrange(0, k1) == crate::text::dec((ip / 0x100_0000) as nat),
        s.skip(k1 + 1) == crate::text::dec((ip / 0x1_0000 % 0x100) as nat) + seq!['.'] + (
        crate::text::dec((ip / 0x100 % 0x100) as nat) + seq!['.'] + crate::text::dec(
            (ip % 0x100) as nat,
        )),
{
    assert(s.skip(0) =~= s);
    dots_of_quad(
        s,
        0,
        k1,
        (ip / 0x100_0000) as nat,
        crate::text::dec((ip / 0x1_0000 % 0x100) as nat) + seq!['.'] + (crate::text::dec(
            (ip / 0x100 % 0x100) as nat,
        ) + seq!['.'] + crate::text::dec((ip % 0x100) as nat)),
    );
}

/// The second number and what follows it.
proof fn quad_parts2(s: Seq<char>, ip: u32, k1: int, k2: int)
    requires
        0 <= k1 < k2 <= s.len(),
        s.skip(k1 + 1) == crate::text::dec((ip / 0x1_0000 % 0x100) as nat) + seq!['.'] + (
        crate::text::dec((ip / 0x100 % 0x100) as nat) + seq!['.'] + crate::text::dec(
            (ip % 0x100) as nat,
        )),
        forall|j: int| k1 + 1 <= j < k2 ==> #[trigger] s[j] != '.',
        k2 < s.len() ==> s[k2] == '.',
    ensures
        k2 < s.len(),
        s.subrange(k1 + 1, k2) == crate::text::dec((ip / 0x1_0000 % 0x100) as nat),
        s.skip(k2 + 1) == crate::text::dec((ip / 0x100 % 0x100) as nat) + seq!['.']
            + crate::text::dec((ip % 0x100) as nat),
{
    dots_of_quad(
        s,
        k1 + 1,
        k2,
        (ip / 0x1_0000 % 0x100) as nat,
        crate::text::dec((ip / 0x100 % 0x100) as nat) + seq!['.'] + crate::text::dec(
            (ip % 0x100) as nat,
        ),
    );
}

/// The third and the fourth number.
proof fn quad_parts3(s: Seq<char>, ip: u32, k2: int, k3: int)
    requires
        0 <= k2 < k3 <= s.len(),
        s.skip(k2 + 1) == crate::text::dec((ip / 0x100 % 0x100) as nat) + seq!['.']
            + crate::text::dec((ip % 0x100) as nat),
        forall|j: int| k2 + 1 <= j < k3 ==> #[trigger] s[j] != '.',
        k3 < s.len() ==> s[k3] == '.',
    ensures
        k3 < s.len(),
        s.subrange(k2 + 1, k3) == crate::text::dec((ip / 0x100 % 0x100) as nat),
        s.skip(k3 + 1) == crate::text::dec((ip % 0x100) as nat),
{
    dots_of_quad(
        s,
        k2 + 1,
        k3,
        (ip / 0x100 % 0x100) as nat,
        crate::text::dec((ip % 0x100) as nat),
    );
}

/// A text without the plus sign that may stand before it.
pub open spec fn without_plus(s: Seq<char>) -> Seq<char> {
    if s.len() > 0 && s[0] == '+' {
        s.skip(1)
    } else {
        s
    }
}

/// Whether a text consists of decimal digits, and of at least one.
pub open spec fn all_digits(s: Seq<char>) -> bool {
    &&& s.len() > 0
    &&& forall|i: int| 0 <= i < s.len() ==> crate::text::is_digit(#[trigger] s[i])
}

/// The number that a text stands for, if it fits in eight bits: decimal digits, behind a plus sign
/// or not.
pub open spec fn u8_of(s: Seq<char>) -> Option<u8> {
    let digits = without_plus(s);
    if all_digits(digits) && crate::text::dec_value(digits) <= 255 {
        Some(crate::text::dec_value(digits) as u8)
    } else {
        None
    }
}

/// More digits make a number no smaller.
proof fn dec_value_grows(s: Seq<char>, i: int)
    requires
        0 <= i <= s.len(),
    ensures
        crate::text::dec_value(s.take(i)) <= crate::text::dec_value(s),
    decreases s.len() - i,
{
    if i < s.len() {
        dec_value_grows(s, i + 1);
        assert(s.take(i + 1).drop_last() =~= s.take(i));
    } else {
        assert(s.take(i) =~= s);
    }
}

/// The number that a text stands for, if it is no larger than `max`: decimal digits, behind a plus
/// sign or not.
pub open spec fn number_of(s: Seq<char>, max: u64) -> Option<u64> {
    let digits = without_plus(s);
    if all_digits(digits) && crate::text::dec_value(digits) <= max {
        Some(crate::text::dec_value(digits) as u64)
    } else {
        None
    }
}

/// Reads a number that is no larger than `max`.
pub fn parse_number(text: &str, max: u64) -> (r: Option<u64>)
    ensures
        r == number_of(text@, max),
{
    let v = chars_of(text);
    let from: usize = if v.len() > 0 && v[0] == '+' {
        1
    } else {
        0
    };
    let ghost digits = without_plus(text@);
    assert(digits =~= v@.skip(from as int));
    if from == v.len() {
        return None;
    }
    let mut n: u64 = 0;
    let mut i: usize = from;
    while i < v.len()
        invariant
            from <= i <= v@.len(),
            digits == without_plus(text@),
            digits == v@.skip(from as int),
            n <= max,
            n == crate::text::dec_value(digits.take(i - from)),
            forall|j: int| 0 <= j < i - from ==> crate::text::is_digit(#[trigger] digits[j]),
        decreases v@.len() - i,
    {
        assert(digits[i - from] == v@[i as int]);
        if v[i] < '0' || v[i] > '9' {
            assert(!crate::text::is_digit(digits[i - from]));
            return None;
        }
        assert(digits.take(i - from + 1).drop_last() =~= digits.take(i - from));
        assert(digits.take(i - from + 1).last() == v@[i as int]);
        let m: u128 = n as u128 * 10 + (v[i] as u128 - 48);
        if m > max as u128 {
            proof {
                dec_value_grows(digits, i - from + 1);
            }
            return None;
        }
        n = m as u64;
        i += 1;
    }
    assert(digits.take(digits.len() as int) =~= digits);
    Some(n)
}

/// Reads a number of eight bits.
pub fn parse_u8(text: &str) -> (r: Option<u8>)
    ensures
        r == u8_of(text@),
{
    match parse_number(text, 255) {
        Some(n) => Some(n as u8),
        None => None,
    }
}

/// The text before the first slash.
pub open spec fn cidr_net(s: Seq<char>) -> Seq<char> {
    s.take(crate::text::first_of(s, '/'))
}

/// The number of leading bits that a network fixes: what follows the slash, 32 where that is no
/// number or there is no slash.
pub open spec fn cidr_len(s: Seq<char>) -> u8 {
    let k = crate::text::first_of(s, '/');
    if k < s.len() {
        match u8_of(s.skip(k + 1)) {
            Some(n) => n,
            None => 32,
        }
    } else {
        32
    }
}

/// The number of bits that a network leaves open.
pub open spec fn host_bits(p: u8) -> nat {
    if p >= 32 {
        0
    } else {
        (32 - p) as nat
    }
}

/// Whether two addresses have the same first `p` bits.
pub open spec fn same_prefix(a: u32, b: u32, p: u8) -> bool {
    a as nat / pow2(host_bits(p)) == b as nat / pow2(host_bits(p))
}

/// Whether an address lies in a network.
pub open spec fn in_cidr(ip: u32, cidr: Seq<char>) -> bool {
    match ipv4_of(cidr_net(cidr)) {
        Some(net) => same_prefix(ip, net, cidr_len(cidr)),
        None => false,
    }
}

/// A network's address and the number of leading bits that it fixes.
pub fn parse_cidr(cidr: &str) -> (r: Option<(u32, u8)>)
    ensures
        r is Some <==> ipv4_of(cidr_net(cidr@)) is Some,
        r matches Some((net, p)) ==> ipv4_of(cidr_net(cidr@)) == Some(net) && p == cidr_len(cidr@),
{
    let v = chars_of(cidr);
    let k: usize = find_char(v.as_slice(), 0, '/');
    assert(v@.skip(0) =~= v@);
    let net = text_of(v.as_slice(), 0, k);
    assert(net@ =~= cidr_net(cidr@));
    let p: u8 = if k < v.len() {
        let rest = text_of(v.as_slice(), k + 1, v.len());
        assert(rest@ =~= cidr@.skip(k + 1));
        match parse_u8(rest.as_str()) {
            Some(n) => n,
            None => 32,
        }
    } else {
        32
    };
    match parse_ipv4(net.as_str()) {
        Some(ip) => Some((ip, p)),
        None => None,
    }
}

/// Whether `a` and `b` have the same first `p` bits.
pub fn prefix_matches(a: u32, b: u32, p: u8) -> (r: bool)
    ensures
        r == same_prefix(a, b, p),
{
    proof {
        vstd::arithmetic::power2::lemma2_to64();
    }
    if p == 0 {
        assert(a as nat / 0x1_0000_0000nat == 0 && b as nat / 0x1_0000_0000nat == 0);
        return true;
    }
    if p >= 32 {
        assert(a as nat / 1nat == a && b as nat / 1nat == b);
        return a == b;
    }
    let low: u32 = 32 - p as u32;
    proof {
        vstd::bits::lemma_u32_shr_is_div(a, low);
        vstd::bits::lemma_u32_shr_is_div(b, low);
    }
    (a >> low) == (b >> low)
}

/// Whether `ip` lies in the network `cidr`, such as "100.72.16.5/32". A text that is no network
/// holds nothing, and a network that fixes no bits holds every address.
pub fn ip_in_cidr(ip: u32, cidr: &str) -> (r: bool)
    ensures
        r == in_cidr(ip, cidr@),
{
    match parse_cidr(cidr) {
        Some((net, p)) => prefix_matches(ip, net, p),
        None => false,
    }
}

/// The mask whose first `prefix` bits are set, all of them from 32 on.
pub open spec fn mask_value(prefix: u8) -> int {
    0x1_0000_0000 - pow2(host_bits(prefix))
}

/// The mask of a network that fixes at least one bit.
pub fn netmask_v4(prefix: u8) -> (mask: u32)
    requires
        prefix > 0,
    ensures
        mask == mask_value(prefix),
{
    proof {
        vstd::arithmetic::power2::lemma2_to64();
    }
    if prefix >= 32 {
        u32::MAX
    } else {
        let low: u32 = 32 - prefix as u32;
        proof {
            vstd::bits::lemma_u64_pow2_no_overflow(low as nat);
            vstd::bits::lemma_u64_shl_is_mul(1, low as u64);
            vstd::arithmetic::power2::lemma_pow2_strictly_increases(low as nat, 32);
            vstd::arithmetic::power2::lemma_pow2_pos(low as nat);
        }
        (0x1_0000_0000u64 - (1u64 << low)) as u32
    }
}

/// The first address of the network of `ip` that fixes `prefix` bits: its last bits are zero.
pub open spec fn network_value(ip: u32, prefix: u8) -> int {
    (ip as int / pow2(host_bits(prefix)) as int) * pow2(host_bits(prefix))
}

/// The first address of a network.
pub fn network_of(ip: u32, prefix: u8) -> (net: u32)
    requires
        prefix <= 32,
    ensures
        net == network_value(ip, prefix),
{
    proof {
        vstd::arithmetic::power2::lemma2_to64();
    }
    if prefix == 0 {
        assert((ip as int / 0x1_0000_0000) * 0x1_0000_0000 == 0);
        0
    } else if prefix == 32 {
        assert((ip as int / 1) * 1 == ip);
        ip
    } else {
        let shift: u64 = 32 - prefix as u64;
        proof {
            vstd::bits::lemma_u64_pow2_no_overflow(shift as nat);
            vstd::bits::lemma_u64_shl_is_mul(1, shift);
            vstd::arithmetic::power2::lemma_pow2_pos(shift as nat);
        }
        let low: u64 = 1u64 << shift;
        assert(low == pow2(host_bits(prefix)));
        assert((ip as u64 / low) * low <= ip) by (nonlinear_arith)
            requires
                low > 0,
        ;
        let net: u64 = (ip as u64 / low) * low;
        assert(net == network_value(ip, prefix));
        net as u32
    }
}

/// A network that fixes no bits holds every address.
pub proof fn default_network_holds_all(ip: u32, cidr: Seq<char>)
    requires
        ipv4_of(cidr_net(cidr)) is Some,
        cidr_len(cidr) == 0,
    ensures
        in_cidr(ip, cidr),
{
    vstd::arithmetic::power2::lemma2_to64();
    let net = ipv4_of(cidr_net(cidr))->0;
    assert(ip as nat / 0x1_0000_0000nat == 0 && net as nat / 0x1_0000_0000nat == 0);
}

/// A network that fixes all bits holds one address.
pub proof fn host_network_holds_one(ip: u32, cidr: Seq<char>)
    requires
        cidr_len(cidr) >= 32,
    ensures
        in_cidr(ip, cidr) <==> ipv4_of(cidr_net(cidr)) == Some(ip),
{
    vstd::arithmetic::power2::lemma2_to64();
    if let Some(net) = ipv4_of(cidr_net(cidr)) {
        assert(ip as nat / 1nat == ip && net as nat / 1nat == net);
    }
}

/// Two addresses in one network with the same number of fixed bits hold each other.
pub proof fn prefix_is_an_equivalence(a: u32, b: u32, c: u32, p: u8)
    ensures
        same_prefix(a, a, p),
        same_prefix(a, b, p) == same_prefix(b, a, p),
        same_prefix(a, b, p) && same_prefix(b, c, p) ==> same_prefix(a, c, p),
{
}

/// A number that was written in decimal is read back, if it is within the limit, and refused above
/// it.
pub proof fn numbers_read_back(n: nat, max: u64)
    ensures
        n <= max ==> number_of(crate::text::dec(n), max) == Some(n as u64),
        n > max ==> number_of(crate::text::dec(n), max) is None,
        n <= 255 ==> u8_of(crate::text::dec(n)) == Some(n as u8),
        n > 255 ==> u8_of(crate::text::dec(n)) is None,
{
    let s = crate::text::dec(n);
    crate::text::dec_is_digits(n);
    crate::text::dec_round_trip(n);
    assert(crate::text::is_digit(s[0]));
    assert(without_plus(s) == s);
}

/// The common prefixes cut an address at its bytes.
pub proof fn prefixes_cut_at_bytes(a: u32, b: u32)
    ensures
        same_prefix(a, b, 0),
        same_prefix(a, b, 8) <==> a / 0x100_0000 == b / 0x100_0000,
        same_prefix(a, b, 16) <==> a / 0x1_0000 == b / 0x1_0000,
        same_prefix(a, b, 24) <==> a / 0x100 == b / 0x100,
        same_prefix(a, b, 31) <==> a / 2 == b / 2,
        same_prefix(a, b, 32) <==> a == b,
{
    vstd::arithmetic::power2::lemma2_to64();
    assert(pow2(host_bits(0)) == 0x1_0000_0000);
    assert(a as nat / 0x1_0000_0000 == 0 && b as nat / 0x1_0000_0000 == 0);
    assert(pow2(host_bits(32)) == 1);
    assert(a as nat / 1 == a && b as nat / 1 == b);
}

/// A longer prefix holds fewer addresses.
pub proof fn longer_prefixes_hold_less(a: u32, b: u32, p: u8)
    requires
        0 < p <= 32,
        same_prefix(a, b, p),
    ensures
        same_prefix(a, b, (p - 1) as u8),
{
    let h = host_bits(p);
    let d = pow2(h) as int;
    vstd::arithmetic::power2::lemma_pow2_pos(h);
    vstd::arithmetic::power2::lemma_pow2_unfold(h + 1);
    vstd::arithmetic::div_mod::lemma_div_denominator(a as int, d, 2);
    vstd::arithmetic::div_mod::lemma_div_denominator(b as int, d, 2);
    assert(d * 2 == 2 * d);
}

/// The masks that settings show.
pub proof fn masks_of_prefixes()
    ensures
        mask_value(0) == 0,
        mask_value(8) == 0xff00_0000,
        mask_value(16) == 0xffff_0000,
        mask_value(24) == 0xffff_ff00,
        mask_value(32) == 0xffff_ffff,
{
    vstd::arithmetic::power2::lemma2_to64();
    vstd::arithmetic::power2::lemma2_to64_rest();
}

/// The network of an address holds the address, begins at its host part zero, and is the network of
/// each of its addresses.
pub proof fn network_begins_its_block(ip: u32, other: u32, p: u8)
    ensures
        0 <= network_value(ip, p) <= ip,
        ip - network_value(ip, p) < pow2(host_bits(p)),
        same_prefix(ip, network_value(ip, p) as u32, p),
        same_prefix(ip, other, p) <==> network_value(ip, p) == network_value(other, p),
        network_value(ip, 24) == ip - ip % 0x100,
        network_value(ip, 16) == ip - ip % 0x1_0000,
        network_value(ip, 8) == ip - ip % 0x100_0000,
{
    vstd::arithmetic::power2::lemma2_to64();
    assert(pow2(host_bits(24)) == 0x100);
    assert(pow2(host_bits(16)) == 0x1_0000);
    assert(pow2(host_bits(8)) == 0x100_0000);
    vstd::arithmetic::div_mod::lemma_fundamental_div_mod(ip as int, 0x1_0000);
    vstd::arithmetic::div_mod::lemma_fundamental_div_mod(ip as int, 0x100_0000);
    let d = pow2(host_bits(p)) as int;
    vstd::arithmetic::power2::lemma_pow2_pos(host_bits(p));
    vstd::arithmetic::div_mod::lemma_fundamental_div_mod(ip as int, d);
    vstd::arithmetic::div_mod::lemma_fundamental_div_mod(other as int, d);
    let q = ip as int / d;
    vstd::arithmetic::div_mod::lemma_div_pos_is_pos(ip as int, d);
    vstd::arithmetic::mul::lemma_mul_is_commutative(q, d);
    vstd::arithmetic::mul::lemma_mul_nonnegative(q, d);
    vstd::arithmetic::div_mod::lemma_div_multiples_vanish(q, d);
    vstd::arithmetic::mul::lemma_mul_is_commutative(other as int / d, d);
    vstd::arithmetic::div_mod::lemma_div_multiples_vanish(other as int / d, d);
}

/// No character of an address is the one that sets the length of a network apart.
proof fn addresses_have_no_slash(ip: u32)
    ensures
        !ipv4_text(ip).contains('/'),
{
    let a = (ip / 0x100_0000) as nat;
    let b = (ip / 0x1_0000 % 0x100) as nat;
    let c = (ip / 0x100 % 0x100) as nat;
    let d = (ip % 0x100) as nat;
    crate::text::dec_is_digits(a);
    crate::text::dec_is_digits(b);
    crate::text::dec_is_digits(c);
    crate::text::dec_is_digits(d);
    let s = ipv4_text(ip);
    let la = crate::text::dec(a).len() as int;
    let lb = crate::text::dec(b).len() as int;
    let lc = crate::text::dec(c).len() as int;
    assert forall|i: int| 0 <= i < s.len() implies #[trigger] s[i] != '/' by {
        if i < la {
            assert(s[i] == crate::text::dec(a)[i]);
        } else if i == la {
        } else if i < la + 1 + lb {
            assert(s[i] == crate::text::dec(b)[i - la - 1]);
        } else if i == la + 1 + lb {
        } else if i < la + lb + lc + 2 {
            assert(s[i] == crate::text::dec(c)[i - la - lb - 2]);
        } else if i == la + lb + lc + 2 {
        } else {
            assert(s[i] == crate::text::dec(d)[i - la - lb - lc - 3]);
        }
    }
}

/// A network that was written as an address and a length holds the addresses that share so many
/// bits with it, and no others; an address alone holds itself.
pub proof fn written_network_holds_its_block(net: u32, p: u8, ip: u32)
    ensures
        in_cidr(ip, ipv4_text(net) + seq!['/'] + crate::text::dec(p as nat)) <==> same_prefix(
            ip,
            net,
            p,
        ),
        in_cidr(ip, ipv4_text(net)) <==> ip == net,
{
    let t = ipv4_text(net);
    let s = t + seq!['/'] + crate::text::dec(p as nat);
    addresses_have_no_slash(net);
    assert forall|j: int| 0 <= j < t.len() implies #[trigger] s[j] != '/' by {
        assert(s[j] == t[j]);
    }
    crate::text::first_of_is(s, '/', t.len() as int);
    crate::text::first_of_is(t, '/', t.len() as int);
    assert(s.take(t.len() as int) =~= t);
    assert(t.take(t.len() as int) =~= t);
    assert(s.skip(t.len() as int + 1) =~= crate::text::dec(p as nat));
    numbers_read_back(p as nat, 255);
    ipv4_round_trip(net);
    host_network_holds_one(ip, t);
}

/// Nothing, a sign alone and anything with another character are no numbers; a number may have a
/// plus sign in front.
pub proof fn no_numbers(s: Seq<char>, i: int, max: u64, n: nat)
    ensures
        number_of(Seq::<char>::empty(), max) is None,
        number_of(seq!['+'], max) is None,
        u8_of(Seq::<char>::empty()) is None,
        0 <= i < s.len() && !('0' <= s[i] <= '9') && (i > 0 || s[i] != '+') ==> number_of(s, max)
            is None && u8_of(s) is None,
        n <= max ==> number_of(seq!['+'] + crate::text::dec(n), max) == Some(n as u64),
{
    assert(seq!['+'].skip(1) =~= Seq::<char>::empty());
    numbers_read_back(n, max);
    let d = crate::text::dec(n);
    assert((seq!['+'] + d).skip(1) =~= d);
    crate::text::dec_is_digits(n);
    crate::text::dec_round_trip(n);
    if 0 <= i < s.len() && !('0' <= s[i] <= '9') && (i > 0 || s[i] != '+') {
        let t = without_plus(s);
        if s[0] == '+' {
            assert(t[i - 1] == s[i]);
        } else {
            assert(t[i] == s[i]);
        }
        assert(!all_digits(t));
    }
}

} // verus!
