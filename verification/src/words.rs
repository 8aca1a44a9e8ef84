//! Taking text apart: blanks, words, lines, prefixes and parts of a text.

use crate::text::{chars_of, find_char, text_of};
use vstd::prelude::*;

verus! {

/// Whether a character is white space.
pub open spec fn is_space(c: char) -> bool {
    let n = c as u32;
    ||| 0x9 <= n <= 0xd
    ||| n == 0x20
    ||| n == 0x85
    ||| n == 0xa0
    ||| n == 0x1680
    ||| 0x2000 <= n <= 0x200a
    ||| n == 0x2028
    ||| n == 0x2029
    ||| n == 0x202f
    ||| n == 0x205f
    ||| n == 0x3000
}

/// Whether a character is white space.
pub fn is_space_char(c: char) -> (r: bool)
    ensures
        r == is_space(c),
{
    let n: u32 = c as u32;
    (0x9 <= n && n <= 0xd) || n == 0x20 || n == 0x85 || n == 0xa0 || n == 0x1680 || (0x2000 <= n
        && n <= 0x200a) || n == 0x2028 || n == 0x2029 || n == 0x202f || n == 0x205f || n == 0x3000
}

/// How many blanks a text starts with.
pub open spec fn leading(s: Seq<char>) -> int
    decreases s.len(),
{
    if s.len() > 0 && is_space(s[0]) {
        1 + leading(s.skip(1))
    } else {
        0
    }
}

/// How many characters a text has up to its first blank.
pub open spec fn first_space(s: Seq<char>) -> int
    decreases s.len(),
{
    if s.len() > 0 && !is_space(s[0]) {
        1 + first_space(s.skip(1))
    } else {
        0
    }
}

/// A text without the blanks at its start.
pub open spec fn trim_start(s: Seq<char>) -> Seq<char> {
    s.skip(leading(s))
}

/// A text without the blanks at its end.
pub open spec fn trim_end(s: Seq<char>) -> Seq<char>
    decreases s.len(),
{
    if s.len() > 0 && is_space(s.last()) {
        trim_end(s.drop_last())
    } else {
        s
    }
}

/// A text without the blanks around it.
pub open spec fn trim(s: Seq<char>) -> Seq<char> {
    trim_end(trim_start(s))
}

/// What `leading` gives.
proof fn leading_is(s: Seq<char>, i: int)
    requires
        0 <= i <= s.len(),
        forall|j: int| 0 <= j < i ==> is_space(#[trigger] s[j]),
        i < s.len() ==> !is_space(s[i]),
    ensures
        leading(s) == i,
    decreases i,
{
    if i > 0 {
        let t = s.skip(1);
        assert forall|j: int| 0 <= j < i - 1 implies is_space(#[trigger] t[j]) by {
            assert(is_space(s[j + 1]));
        }
        assert(is_space(s[0]));
        leading_is(t, i - 1);
    }
}

/// What `first_space` gives.
proof fn first_space_is(s: Seq<char>, i: int)
    requires
        0 <= i <= s.len(),
        forall|j: int| 0 <= j < i ==> !is_space(#[trigger] s[j]),
        i < s.len() ==> is_space(s[i]),
    ensures
        first_space(s) == i,
    decreases i,
{
    if i > 0 {
        let t = s.skip(1);
        assert forall|j: int| 0 <= j < i - 1 implies !is_space(#[trigger] t[j]) by {
            assert(!is_space(s[j + 1]));
        }
        assert(!is_space(s[0]));
        first_space_is(t, i - 1);
    }
}

/// What `trim_end` gives.
proof fn trim_end_is(s: Seq<char>, i: int)
    requires
        0 <= i <= s.len(),
        forall|j: int| i <= j < s.len() ==> is_space(#[trigger] s[j]),
        i > 0 ==> !is_space(s[i - 1]),
    ensures
        trim_end(s) == s.take(i),
    decreases s.len() - i,
{
    if i < s.len() {
        let t = s.drop_last();
        assert forall|j: int| i <= j < t.len() implies is_space(#[trigger] t[j]) by {
            assert(is_space(s[j]));
        }
        assert(is_space(s[s.len() - 1]));
        trim_end_is(t, i);
        assert(t.take(i) =~= s.take(i));
    } else {
        assert(s.take(i) =~= s);
    }
}

/// The place of the first character from `from` on that is no blank.
fn skip_blanks(v: &Vec<char>, from: usize) -> (i: usize)
    requires
        from <= v@.len(),
    ensures
        from <= i <= v@.len(),
        i - from == leading(v@.skip(from as int)),
        i < v@.len() ==> !is_space(v@[i as int]),
{
    let mut i: usize = from;
    while i < v.len() && is_space_char(v[i])
        invariant
            from <= i <= v@.len(),
            forall|j: int| from <= j < i ==> is_space(#[trigger] v@[j]),
        decreases v@.len() - i,
    {
        i += 1;
    }
    proof {
        let s = v@.skip(from as int);
        assert forall|j: int| 0 <= j < i - from implies is_space(#[trigger] s[j]) by {
            assert(is_space(v@[from + j]));
        }
        leading_is(s, i - from);
    }
    i
}

/// The place of the first blank from `from` on.
fn find_blank(v: &Vec<char>, from: usize) -> (i: usize)
    requires
        from <= v@.len(),
    ensures
        from <= i <= v@.len(),
        i - from == first_space(v@.skip(from as int)),
        from < v@.len() && !is_space(v@[from as int]) ==> i > from,
{
    let mut i: usize = from;
    while i < v.len() && !is_space_char(v[i])
        invariant
            from <= i <= v@.len(),
            forall|j: int| from <= j < i ==> !is_space(#[trigger] v@[j]),
        decreases v@.len() - i,
    {
        i += 1;
    }
    proof {
        let s = v@.skip(from as int);
        assert forall|j: int| 0 <= j < i - from implies !is_space(#[trigger] s[j]) by {
            assert(!is_space(v@[from + j]));
        }
        first_space_is(s, i - from);
    }
    i
}

/// Takes the blanks around a text away.
pub fn trim_text(s: &str) -> (r: String)
    ensures
        r@ == trim(s@),
{
    let v = chars_of(s);
    let from: usize = skip_blanks(&v, 0);
    assert(v@.skip(0) =~= v@);
    let ghost t = v@.skip(from as int);
    let mut to: usize = v.len();
    while to > from && is_space_char(v[to - 1])
        invariant
            from <= to <= v@.len(),
            forall|j: int| to <= j < v@.len() ==> is_space(#[trigger] v@[j]),
        decreases to,
    {
        to -= 1;
    }
    proof {
        assert forall|j: int| to - from <= j < t.len() implies is_space(#[trigger] t[j]) by {
            assert(is_space(v@[from + j]));
        }
        trim_end_is(t, to - from);
        assert(t.take(to - from) =~= v@.subrange(from as int, to as int));
    }
    text_of(v.as_slice(), from, to)
}

/// The words of a text: its longest parts without blanks.
pub open spec fn words(s: Seq<char>) -> Seq<Seq<char>>
    decreases s.len(),
{
    let t = trim_start(s);
    let k = first_space(t);
    if t.len() == 0 || k == 0 {
        seq![]
    } else {
        proof {
            blanks_bounds(s);
            blanks_bounds(t);
        }
        seq![t.take(k)] + words(t.skip(k))
    }
}

/// The bounds of `leading` and `first_space`.
pub proof fn blanks_bounds(s: Seq<char>)
    ensures
        0 <= leading(s) <= s.len(),
        0 <= first_space(s) <= s.len(),
        s.len() > 0 && !is_space(s[0]) ==> first_space(s) > 0,
    decreases s.len(),
{
    if s.len() > 0 {
        blanks_bounds(s.skip(1));
    }
}

/// Takes a text apart into words.
pub fn split_words(s: &str) -> (out: Vec<String>)
    ensures
        crate::text::texts(out@) == words(s@),
{
    let v = chars_of(s);
    let mut out: Vec<String> = Vec::new();
    let mut at: usize = 0;
    assert(v@.skip(0) =~= v@);
    assert(crate::text::texts(out@) + words(v@) =~= words(v@));
    loop
        invariant
            at <= v@.len(),
            crate::text::texts(out@) + words(v@.skip(at as int)) == words(s@),
        ensures
            crate::text::texts(out@) == words(s@),
        decreases v@.len() - at,
    {
        let ghost rest = v@.skip(at as int);
        let from: usize = skip_blanks(&v, at);
        let ghost t = v@.skip(from as int);
        proof {
            blanks_bounds(rest);
            blanks_bounds(t);
            assert(trim_start(rest) =~= t);
        }
        if from == v.len() {
            assert(words(rest) =~= seq![]);
            assert(crate::text::texts(out@) + words(rest) =~= crate::text::texts(out@));
            break;
        }
        let to: usize = find_blank(&v, from);
        let word = text_of(v.as_slice(), from, to);
        let ghost before = out@;
        proof {
            assert(t[0] == v@[from as int]);
            assert(word@ =~= t.take(to - from));
            assert(t.skip(to - from) =~= v@.skip(to as int));
            crate::text::texts_push(before, word);
        }
        out.push(word);
        assert(crate::text::texts(out@) + words(v@.skip(to as int)) =~= crate::text::texts(before)
            + words(rest));
        at = to;
    }
    out
}

/// A line without the carriage return at its end.
pub open spec fn strip_cr(s: Seq<char>) -> Seq<char> {
    if s.len() > 0 && s.last() == '\r' {
        s.drop_last()
    } else {
        s
    }
}

/// The lines of a text. Each ends with a line feed, before which a carriage return may stand; the
/// last may end with the text.
pub open spec fn lines(s: Seq<char>) -> Seq<Seq<char>>
    decreases s.len(),
{
    let k = crate::text::first_of(s, '\n');
    if s.len() == 0 {
        seq![]
    } else if k >= s.len() {
        seq![s]
    } else {
        proof {
            first_of_bounds(s, '\n');
        }
        seq![strip_cr(s.take(k))] + lines(s.skip(k + 1))
    }
}

/// The bounds of `first_of`.
pub proof fn first_of_bounds(s: Seq<char>, c: char)
    ensures
        0 <= crate::text::first_of(s, c) <= s.len(),
    decreases s.len(),
{
    if s.len() > 0 {
        first_of_bounds(s.skip(1), c);
    }
}

/// Takes a text apart into lines.
pub fn split_lines(s: &str) -> (out: Vec<String>)
    ensures
        crate::text::texts(out@) == lines(s@),
{
    let v = chars_of(s);
    let mut out: Vec<String> = Vec::new();
    let mut at: usize = 0;
    assert(v@.skip(0) =~= v@);
    assert(crate::text::texts(out@) + lines(v@) =~= lines(v@));
    while at < v.len()
        invariant
            at <= v@.len(),
            crate::text::texts(out@) + lines(v@.skip(at as int)) == lines(s@),
        decreases v@.len() - at,
    {
        let ghost rest = v@.skip(at as int);
        proof {
            first_of_bounds(rest, '\n');
        }
        let k: usize = find_char(v.as_slice(), at, '\n');
        let ghost before = out@;
        if k == v.len() {
            let line = text_of(v.as_slice(), at, k);
            proof {
                assert(line@ =~= rest);
                assert(lines(rest) == seq![rest]);
                assert(v@.skip(k as int) =~= seq![]);
                first_of_bounds(v@.skip(k as int), '\n');
                assert(lines(v@.skip(k as int)) =~= seq![]);
                crate::text::texts_push(before, line);
            }
            out.push(line);
            assert(crate::text::texts(out@) + lines(v@.skip(k as int)) =~= crate::text::texts(
                before,
            ) + lines(rest));
            at = k;
        } else {
            let end: usize = if k > at && v[k - 1] == '\r' {
                k - 1
            } else {
                k
            };
            let line = text_of(v.as_slice(), at, end);
            proof {
                assert(line@ =~= strip_cr(rest.take(k - at)));
                assert(rest.skip(k - at + 1) =~= v@.skip(k + 1));
                crate::text::texts_push(before, line);
            }
            out.push(line);
            assert(crate::text::texts(out@) + lines(v@.skip(k + 1)) =~= crate::text::texts(before)
                + lines(rest));
            at = k + 1;
        }
    }
    assert(v@.skip(at as int) =~= seq![]);
    proof {
        first_of_bounds(v@.skip(at as int), '\n');
    }
    assert(lines(v@.skip(at as int)) =~= seq![]);
    assert(crate::text::texts(out@) =~= lines(s@));
    out
}

/// Whether a text starts with another.
pub open spec fn has_prefix(s: Seq<char>, p: Seq<char>) -> bool {
    p.len() <= s.len() && s.take(p.len() as int) == p
}

/// Whether a text has another at this place.
pub open spec fn has_part_at(s: Seq<char>, p: Seq<char>, i: int) -> bool {
    0 <= i && i + p.len() <= s.len() && s.subrange(i, i + p.len()) == p
}

/// Whether a text has another as a part of it.
pub open spec fn has_part(s: Seq<char>, p: Seq<char>) -> bool {
    exists|i: int| #[trigger] has_part_at(s, p, i)
}

/// Whether `v` has `p` at `from`.
fn part_at(v: &Vec<char>, p: &Vec<char>, from: usize) -> (r: bool)
    requires
        from <= v@.len(),
    ensures
        r == has_part_at(v@, p@, from as int),
{
    if v.len() - from < p.len() {
        return false;
    }
    let n: usize = v.len();
    let mut i: usize = 0;
    while i < p.len()
        invariant
            i <= p@.len(),
            from + p@.len() <= v@.len() == n,
            forall|j: int| 0 <= j < i ==> v@[from + j] == #[trigger] p@[j],
        decreases p@.len() - i,
    {
        if v[from + i] != p[i] {
            assert(v@.subrange(from as int, from + p@.len())[i as int] != p@[i as int]);
            return false;
        }
        i += 1;
    }
    assert(v@.subrange(from as int, from + p@.len()) =~= p@);
    true
}

/// Whether a text starts with another.
pub fn starts_with(s: &str, p: &str) -> (r: bool)
    ensures
        r == has_prefix(s@, p@),
{
    let v = chars_of(s);
    let w = chars_of(p);
    let r = part_at(&v, &w, 0);
    assert(p@.len() <= s@.len() ==> s@.subrange(0, p@.len() as int) =~= s@.take(p@.len() as int));
    r
}

/// What follows a prefix, if the text starts with it.
pub fn strip_prefix(s: &str, p: &str) -> (r: Option<String>)
    ensures
        r is Some <==> has_prefix(s@, p@),
        r matches Some(t) ==> t@ == s@.skip(p@.len() as int),
{
    if !starts_with(s, p) {
        return None;
    }
    let v = chars_of(s);
    let w = chars_of(p);
    let t = text_of(v.as_slice(), w.len(), v.len());
    assert(t@ =~= s@.skip(p@.len() as int));
    Some(t)
}

/// Whether a text has another as a part of it.
pub fn contains(s: &str, p: &str) -> (r: bool)
    ensures
        r == has_part(s@, p@),
{
    let v = chars_of(s);
    let w = chars_of(p);
    let mut i: usize = 0;
    while i <= v.len()
        invariant
            i <= v@.len() + 1,
            v@ == s@,
            w@ == p@,
            forall|j: int| 0 <= j < i ==> !#[trigger] has_part_at(s@, p@, j),
        decreases v@.len() + 1 - i,
    {
        if part_at(&v, &w, i) {
            return true;
        }
        if i == v.len() {
            return false;
        }
        i += 1;
    }
    false
}

/// A text without the characters `c` at its end.
pub open spec fn trim_end_of(s: Seq<char>, c: char) -> Seq<char>
    decreases s.len(),
{
    if s.len() > 0 && s.last() == c {
        trim_end_of(s.drop_last(), c)
    } else {
        s
    }
}

/// Takes the characters `c` at the end of a text away.
pub fn trim_end_char(s: &str, c: char) -> (r: String)
    ensures
        r@ == trim_end_of(s@, c),
{
    let v = chars_of(s);
    let mut to: usize = v.len();
    assert(v@.take(v@.len() as int) =~= v@);
    while to > 0 && v[to - 1] == c
        invariant
            to <= v@.len(),
            trim_end_of(v@.take(to as int), c) == trim_end_of(s@, c),
        decreases to,
    {
        assert(v@.take(to as int).drop_last() =~= v@.take(to - 1));
        to -= 1;
    }
    let r = text_of(v.as_slice(), 0, to);
    assert(r@ =~= v@.take(to as int));
    r
}

/// A text without the prefix `p`, however often it stands at its start.
pub open spec fn trim_start_of(s: Seq<char>, p: Seq<char>) -> Seq<char>
    decreases s.len(),
{
    if p.len() > 0 && has_prefix(s, p) {
        trim_start_of(s.skip(p.len() as int), p)
    } else {
        s
    }
}

/// Takes the prefix `p` away as often as it stands at the start of a text.
pub fn trim_start_text(s: &str, p: &str) -> (r: String)
    requires
        p@.len() > 0,
    ensures
        r@ == trim_start_of(s@, p@),
{
    let v = chars_of(s);
    let w = chars_of(p);
    let mut from: usize = 0;
    assert(v@.skip(0) =~= v@);
    while part_at(&v, &w, from)
        invariant
            from <= v@.len(),
            w@ == p@,
            w@.len() > 0,
            trim_start_of(v@.skip(from as int), p@) == trim_start_of(s@, p@),
        decreases v@.len() - from,
    {
        let ghost rest = v@.skip(from as int);
        assert(rest.take(p@.len() as int) =~= p@) by {
            assert(v@.subrange(from as int, from + p@.len()) =~= rest.take(p@.len() as int));
        }
        assert(rest.skip(p@.len() as int) =~= v@.skip(from + p@.len()));
        assert(from + w.len() <= v.len());
        from = from + w.len();
    }
    let ghost rest = v@.skip(from as int);
    assert(!has_prefix(rest, p@)) by {
        if has_prefix(rest, p@) {
            assert(v@.subrange(from as int, from + p@.len()) =~= rest.take(p@.len() as int));
        }
    }
    let r = text_of(v.as_slice(), from, v.len());
    assert(r@ =~= rest);
    r
}

/// A character as a small ASCII letter, if it is an ASCII letter.
pub open spec fn lower(c: char) -> char {
    if 'A' <= c <= 'Z' {
        (c as int + 32) as char
    } else {
        c
    }
}

/// Whether two texts are equal but for the case of ASCII letters.
pub open spec fn same_letters(a: Seq<char>, b: Seq<char>) -> bool {
    a.len() == b.len() && forall|i: int| 0 <= i < a.len() ==> lower(#[trigger] a[i]) == lower(b[i])
}

/// A character as a small ASCII letter, if it is an ASCII letter.
fn lower_char(c: char) -> (r: char)
    ensures
        r == lower(c),
{
    if 'A' <= c && c <= 'Z' {
        ((c as u8) + 32) as char
    } else {
        c
    }
}

/// Whether two texts are equal but for the case of ASCII letters.
pub fn equal_ignoring_case(a: &str, b: &str) -> (r: bool)
    ensures
        r == same_letters(a@, b@),
{
    let v = chars_of(a);
    let w = chars_of(b);
    if v.len() != w.len() {
        return false;
    }
    let mut i: usize = 0;
    while i < v.len()
        invariant
            i <= v@.len() == w@.len(),
            v@ == a@,
            w@ == b@,
            forall|j: int| 0 <= j < i ==> lower(#[trigger] v@[j]) == lower(w@[j]),
        decreases v@.len() - i,
    {
        if lower_char(v[i]) != lower_char(w[i]) {
            return false;
        }
        i += 1;
    }
    true
}

/// The host of an address on the web: what stands between the scheme and the next slash or colon.
pub open spec fn host_of(url: Seq<char>) -> Seq<char> {
    let rest = trim_start_of(trim_start_of(url, "http://"@), "https://"@);
    let slash = crate::text::first_of(rest, '/');
    let colon = crate::text::first_of(rest, ':');
    rest.take(
        if slash < colon {
            slash
        } else {
            colon
        },
    )
}

/// The host of an address on the web.
pub fn url_host(url: &str) -> (r: String)
    ensures
        r@ == host_of(url@),
{
    proof {
        reveal_strlit("http://");
        reveal_strlit("https://");
    }
    let a = trim_start_text(url, "http://");
    let b = trim_start_text(a.as_str(), "https://");
    let v = chars_of(b.as_str());
    let slash: usize = find_char(v.as_slice(), 0, '/');
    let colon: usize = find_char(v.as_slice(), 0, ':');
    assert(v@.skip(0) =~= v@);
    let end: usize = if slash < colon {
        slash
    } else {
        colon
    };
    let r = text_of(v.as_slice(), 0, end);
    assert(r@ =~= v@.take(end as int));
    r
}

/// Letters, digits and signs are no blanks; the space, the tab and the ends of lines are.
pub proof fn blanks_are_told_apart(c: char)
    ensures
        is_space(' '),
        is_space('\t'),
        is_space('\n'),
        is_space('\r'),
        '!' <= c <= '~' ==> !is_space(c),
{
}

/// Trimming takes blanks away at both ends and nothing else: what is left neither begins nor ends
/// with one.
pub proof fn trimming_takes_blanks(before: Seq<char>, s: Seq<char>, after: Seq<char>)
    requires
        forall|i: int| 0 <= i < before.len() ==> is_space(#[trigger] before[i]),
        forall|i: int| 0 <= i < after.len() ==> is_space(#[trigger] after[i]),
        s.len() > 0,
        !is_space(s[0]),
        !is_space(s.last()),
    ensures
        trim(before + s + after) == s,
        trim(before) == Seq::<char>::empty(),
{
    let w = before + s + after;
    assert forall|j: int| 0 <= j < before.len() implies is_space(#[trigger] w[j]) by {
        assert(w[j] == before[j]);
    }
    assert(w[before.len() as int] == s[0]);
    leading_is(w, before.len() as int);
    let t = trim_start(w);
    assert(t =~= s + after);
    assert forall|j: int| s.len() <= j < t.len() implies is_space(#[trigger] t[j]) by {
        assert(t[j] == after[j - s.len()]);
    }
    assert(t[s.len() - 1] == s.last());
    trim_end_is(t, s.len() as int);
    assert(t.take(s.len() as int) =~= s);
    leading_is(before, before.len() as int);
    assert(trim_start(before) =~= Seq::<char>::empty());
}

/// Text is cut into words at its blanks: a word that stands in front of a blank is the first word,
/// and the words of the rest follow.
pub proof fn words_are_cut_at_blanks(w: Seq<char>, blank: char, rest: Seq<char>)
    requires
        w.len() > 0,
        forall|i: int| 0 <= i < w.len() ==> !is_space(#[trigger] w[i]),
        is_space(blank),
    ensures
        words(w) == seq![w],
        words(w + seq![blank] + rest) == seq![w] + words(rest),
        words(seq![blank] + rest) == words(rest),
        words(Seq::<char>::empty()) == Seq::<Seq<char>>::empty(),
{
    let k = w.len() as int;
    assert(words(Seq::<char>::empty()) =~= Seq::<Seq<char>>::empty());
    leading_is(w, 0);
    assert(trim_start(w) =~= w);
    first_space_is(w, k);
    assert(w.take(k) =~= w);
    assert(w.skip(k) =~= Seq::<char>::empty());
    assert(words(w) =~= seq![w]);
    let s = w + seq![blank] + rest;
    assert(s[0] == w[0]);
    leading_is(s, 0);
    assert(trim_start(s) =~= s);
    assert forall|j: int| 0 <= j < k implies !is_space(#[trigger] s[j]) by {
        assert(s[j] == w[j]);
    }
    first_space_is(s, k);
    assert(s.take(k) =~= w);
    let t = seq![blank] + rest;
    assert(s.skip(k) =~= t);
    blank_is_passed(blank, rest);
}

/// A blank in front of a text changes nothing about its words.
proof fn blank_is_passed(blank: char, rest: Seq<char>)
    requires
        is_space(blank),
    ensures
        words(seq![blank] + rest) == words(rest),
{
    let t = seq![blank] + rest;
    assert(t.skip(1) =~= rest);
    assert(leading(t) == 1 + leading(rest));
    blanks_bounds(rest);
    assert(trim_start(t) =~= trim_start(rest));
}

/// Text is cut into lines at the ends of lines, and what comes before the end of a line belongs to
/// the line.
pub proof fn lines_are_cut_at_ends(l: Seq<char>, rest: Seq<char>)
    requires
        !l.contains('\n'),
    ensures
        l.len() > 0 ==> lines(l) == seq![l],
        lines(l + seq!['\n'] + rest) == seq![strip_cr(l)] + lines(rest),
        l.len() == 0 || l.last() != '\r' ==> strip_cr(l) == l,
        strip_cr(l.push('\r')) == l,
        lines(Seq::<char>::empty()).len() == 0,
{
    assert forall|j: int| 0 <= j < l.len() implies #[trigger] l[j] != '\n' by {}
    crate::text::first_of_is(l, '\n', l.len() as int);
    let s = l + seq!['\n'] + rest;
    assert forall|j: int| 0 <= j < l.len() implies #[trigger] s[j] != '\n' by {
        assert(s[j] == l[j]);
    }
    crate::text::first_of_is(s, '\n', l.len() as int);
    assert(s.take(l.len() as int) =~= l);
    assert(s.skip(l.len() as int + 1) =~= rest);
    assert(l.push('\r').drop_last() =~= l);
}

/// Taking a character away from the end of a text leaves none there, and leaves the rest alone.
pub proof fn trailing_characters_go(s: Seq<char>, c: char)
    ensures
        trim_end_of(s.push(c), c) == trim_end_of(s, c),
        s.len() == 0 || s.last() != c ==> trim_end_of(s, c) == s,
        trim_end_of(s, c).len() == 0 || trim_end_of(s, c).last() != c,
    decreases s.len(),
{
    assert(s.push(c).drop_last() =~= s);
    if s.len() > 0 && s.last() == c {
        trailing_characters_go(s.drop_last(), c);
    }
}

/// The host of an address is what stands between the scheme and the port.
pub proof fn host_is_between(host: Seq<char>, rest: Seq<char>)
    requires
        !host.contains(':'),
        !host.contains('/'),
        host != "http"@,
        host != "https"@,
    ensures
        host_of("http://"@ + host + seq![':'] + rest) == host,
        host_of(host + seq![':'] + rest) == host,
{
    reveal_strlit("http://");
    reveal_strlit("https://");
    reveal_strlit("http");
    reveal_strlit("https");
    let s = host + seq![':'] + rest;
    let u = "http://"@ + host + seq![':'] + rest;
    let n = host.len() as int;
    assert forall|j: int| 0 <= j < n implies #[trigger] s[j] != ':' && s[j] != '/' by {
        assert(s[j] == host[j]);
    }
    assert(s[n] == ':');
    assert(!has_prefix(s, "http://"@)) by {
        if has_prefix(s, "http://"@) {
            let t = s.take(7);
            assert(t[4] == ':' && t[5] == '/');
            assert(s[4] == ':');
            if n > 4 {
                assert(s[4] != ':');
            }
            if n < 4 {
                assert(t[n] == ':');
                assert("http://"@[n] == ':');
            }
            assert(host =~= "http"@) by {
                assert forall|j: int| 0 <= j < 4 implies host[j] == "http"@[j] by {
                    assert(t[j] == s[j]);
                }
            }
        }
    }
    assert(!has_prefix(s, "https://"@)) by {
        if has_prefix(s, "https://"@) {
            let t = s.take(8);
            assert(t[5] == ':' && t[6] == '/');
            assert(s[5] == ':');
            if n > 5 {
                assert(s[5] != ':');
            }
            if n < 5 {
                assert(t[n] == ':');
                assert("https://"@[n] == ':');
            }
            assert(host =~= "https"@) by {
                assert forall|j: int| 0 <= j < 5 implies host[j] == "https"@[j] by {
                    assert(t[j] == s[j]);
                }
            }
        }
    }
    assert(u.take(7) =~= "http://"@);
    assert(u.skip(7) =~= s);
    assert(trim_start_of(s, "http://"@) == s);
    assert(has_prefix(u, "http://"@));
    assert(trim_start_of(u, "http://"@) == s);
    assert(trim_start_of(s, "https://"@) == s);
    crate::text::first_of_is(s, ':', n);
    slash_comes_later(s, n);
    assert(s.take(n) =~= host);
}

/// Where no slash stands in front of a place, the first one is not in front of it.
proof fn slash_comes_later(s: Seq<char>, n: int)
    requires
        0 <= n <= s.len(),
        forall|j: int| 0 <= j < n ==> #[trigger] s[j] != '/',
    ensures
        crate::text::first_of(s, '/') >= n,
    decreases n,
{
    first_of_bounds(s, '/');
    if n > 0 {
        let t = s.skip(1);
        assert(s[0] != '/');
        assert forall|j: int| 0 <= j < n - 1 implies #[trigger] t[j] != '/' by {
            assert(t[j] == s[j + 1]);
        }
        slash_comes_later(t, n - 1);
    }
}

/// Capitals and small letters are the same letters, and no two others are.
pub proof fn letters_in_either_size(a: Seq<char>, b: Seq<char>)
    ensures
        same_letters(a, a),
        same_letters(a, b) == same_letters(b, a),
        lower('A') == 'a',
        lower('Z') == 'z',
        lower('a') == 'a',
        lower('0') == '0',
{
    if same_letters(a, b) {
        assert forall|i: int| 0 <= i < b.len() implies lower(#[trigger] b[i]) == lower(a[i]) by {
            assert(lower(a[i]) == lower(b[i]));
        }
    }
    if same_letters(b, a) {
        assert forall|i: int| 0 <= i < a.len() implies lower(#[trigger] a[i]) == lower(b[i]) by {
            assert(lower(b[i]) == lower(a[i]));
        }
    }
}

/// A text has every part that it was put together from, at its ends too, and a text has no part
/// longer than itself.
pub proof fn parts_are_found(a: Seq<char>, p: Seq<char>, b: Seq<char>)
    ensures
        has_part(a + p + b, p),
        has_part(p + b, p),
        has_part(a + p, p),
        has_part(p, p),
        has_prefix(p + b, p),
        has_prefix(p, p),
        p.len() > a.len() ==> !has_part(a, p) && !has_prefix(a, p),
        has_prefix(a, p) ==> has_part(a, p) && p + a.skip(p.len() as int) == a,
{
    let n = p.len() as int;
    let k = a.len() as int;
    assert((a + p + b).subrange(k, k + n) =~= p);
    assert(has_part_at(a + p + b, p, k));
    assert((p + b).subrange(0, n) =~= p);
    assert(has_part_at(p + b, p, 0));
    assert((a + p).subrange(k, k + n) =~= p);
    assert(has_part_at(a + p, p, k));
    assert(p.subrange(0, n) =~= p);
    assert(has_part_at(p, p, 0));
    assert((p + b).take(n) =~= p);
    assert(p.take(n) =~= p);
    if has_prefix(a, p) {
        assert(a.subrange(0, n) =~= a.take(n));
        assert(has_part_at(a, p, 0));
        assert(p + a.skip(n) =~= a);
    }
}

/// A part that is found stands somewhere in the text.
pub proof fn found_parts_are_there(s: Seq<char>, p: Seq<char>) -> (at: int)
    requires
        has_part(s, p),
    ensures
        0 <= at <= s.len() - p.len(),
        s.take(at) + p + s.skip(at + p.len()) == s,
{
    let at = choose|i: int| has_part_at(s, p, i);
    assert(s.take(at) + s.subrange(at, at + p.len()) + s.skip(at + p.len()) =~= s);
    at
}

/// A prefix is taken away as often as it stands there.
pub proof fn prefixes_go(s: Seq<char>, p: Seq<char>)
    requires
        p.len() > 0,
    ensures
        trim_start_of(p + s, p) == trim_start_of(s, p),
        !has_prefix(s, p) ==> trim_start_of(s, p) == s,
{
    assert((p + s).take(p.len() as int) =~= p);
    assert((p + s).skip(p.len() as int) =~= s);
}

} // verus!
