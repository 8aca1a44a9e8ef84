//! Texts in order, and the state files that hold a value for each of some keys.

use crate::text::{chars_of, find_char, same_text, text_of};
use crate::words::split_lines;
use vstd::prelude::*;
use vstd::string::StringExecFns;

verus! {

/// Whether `a` comes before `b`, character by character.
pub open spec fn precedes(a: Seq<char>, b: Seq<char>) -> bool
    decreases a.len(),
{
    if b.len() == 0 {
        false
    } else if a.len() == 0 {
        true
    } else if a[0] != b[0] {
        a[0] < b[0]
    } else {
        precedes(a.skip(1), b.skip(1))
    }
}

/// Of two texts one comes before the other, or they are equal.
pub proof fn precedes_total(a: Seq<char>, b: Seq<char>)
    ensures
        a == b ==> !precedes(a, b),
        precedes(a, b) ==> !precedes(b, a),
        a != b ==> precedes(a, b) || precedes(b, a),
    decreases a.len(),
{
    if a.len() > 0 && b.len() > 0 && a[0] == b[0] {
        precedes_total(a.skip(1), b.skip(1));
        if a.skip(1) == b.skip(1) {
            assert(a =~= seq![a[0]] + a.skip(1));
            assert(b =~= seq![b[0]] + b.skip(1));
        }
    } else if a.len() == 0 && b.len() == 0 {
        assert(a =~= b);
    }
}

/// What comes before what comes before a text comes before it.
pub proof fn precedes_transitive(a: Seq<char>, b: Seq<char>, c: Seq<char>)
    requires
        precedes(a, b),
        precedes(b, c),
    ensures
        precedes(a, c),
    decreases a.len(),
{
    if a.len() > 0 && a[0] == b[0] && b[0] == c[0] {
        precedes_transitive(a.skip(1), b.skip(1), c.skip(1));
    }
}

/// Whether `a` comes before `b`.
pub fn text_precedes(a: &str, b: &str) -> (r: bool)
    ensures
        r == precedes(a@, b@),
{
    let x = chars_of(a);
    let y = chars_of(b);
    let mut i: usize = 0;
    assert(x@.skip(0) =~= x@);
    assert(y@.skip(0) =~= y@);
    while i < x.len() && i < y.len() && x[i] == y[i]
        invariant
            i <= x@.len(),
            i <= y@.len(),
            precedes(x@.skip(i as int), y@.skip(i as int)) == precedes(a@, b@),
        decreases x@.len() - i,
    {
        assert(x@.skip(i as int).skip(1) =~= x@.skip(i + 1));
        assert(y@.skip(i as int).skip(1) =~= y@.skip(i + 1));
        i += 1;
    }
    if i >= y.len() {
        false
    } else if i >= x.len() {
        true
    } else {
        x[i] < y[i]
    }
}

/// Whether each text comes before all that follow it: they stand in order and none twice.
pub open spec fn ascending(v: Seq<Seq<char>>) -> bool {
    forall|i: int, j: int| 0 <= i < j < v.len() ==> precedes(#[trigger] v[i], #[trigger] v[j])
}

/// Puts a text in its place, unless it is there.
fn insert_text(v: &mut Vec<String>, s: String)
    requires
        ascending(crate::text::texts(old(v)@)),
    ensures
        ascending(crate::text::texts(final(v)@)),
        crate::text::texts(final(v)@).to_set() == crate::text::texts(old(v)@).to_set().insert(s@),
{
    let ghost before = crate::text::texts(v@);
    let mut i: usize = 0;
    while i < v.len() && text_precedes(v[i].as_str(), s.as_str())
        invariant
            i <= v@.len(),
            before == crate::text::texts(v@),
            forall|j: int| 0 <= j < i ==> precedes(#[trigger] before[j], s@),
        decreases v@.len() - i,
    {
        assert(before[i as int] == v@[i as int]@);
        i += 1;
    }
    if i < v.len() && same_text(v[i].as_str(), s.as_str()) {
        assert(before[i as int] == s@);
        assert(before.to_set().insert(s@) =~= before.to_set());
        return;
    }
    let ghost t = s@;
    v.insert(i, s);
    proof {
        let after = crate::text::texts(v@);
        assert(after =~= before.insert(i as int, t));
        if i < before.len() {
            precedes_total(before[i as int], t);
        }
        assert forall|a: int, b: int| 0 <= a < b < after.len() implies precedes(
            #[trigger] after[a],
            #[trigger] after[b],
        ) by {
            if a < i && b > i {
                assert(after[b] == before[b - 1]);
                assert(precedes(before[a], before[b - 1]));
            } else if a == i {
                assert(after[b] == before[b - 1]);
                if b - 1 > i {
                    assert(precedes(before[i as int], before[b - 1]));
                    precedes_transitive(t, before[i as int], before[b - 1]);
                }
            } else if a > i {
                assert(after[a] == before[a - 1] && after[b] == before[b - 1]);
            } else if b == i {
                assert(after[a] == before[a]);
            }
        }
        assert forall|x: Seq<char>|
            after.to_set().contains(x) == before.to_set().insert(t).contains(x) by {
            if after.contains(x) {
                let k = choose|k: int| 0 <= k < after.len() && after[k] == x;
                if k < i {
                    assert(before[k] == x);
                } else if k > i {
                    assert(before[k - 1] == x);
                }
            }
            if before.contains(x) {
                let k = choose|k: int| 0 <= k < before.len() && before[k] == x;
                if k < i {
                    assert(after[k] == x);
                } else {
                    assert(after[k + 1] == x);
                }
            }
            assert(after[i as int] == t);
        }
        assert(after.to_set() =~= before.to_set().insert(t));
    }
}

/// The texts of a list in order, none of them twice.
pub fn sorted_texts(v: &Vec<String>) -> (out: Vec<String>)
    ensures
        ascending(crate::text::texts(out@)),
        crate::text::texts(out@).to_set() == crate::text::texts(v@).to_set(),
{
    let mut out: Vec<String> = Vec::new();
    let ghost all = crate::text::texts(v@);
    let mut i: usize = 0;
    assert(crate::text::texts(out@).to_set() =~= all.take(0).to_set());
    while i < v.len()
        invariant
            i <= v@.len(),
            all == crate::text::texts(v@),
            ascending(crate::text::texts(out@)),
            crate::text::texts(out@).to_set() == all.take(i as int).to_set(),
        decreases v@.len() - i,
    {
        insert_text(&mut out, v[i].clone());
        proof {
            let longer = all.take(i + 1);
            let shorter = all.take(i as int);
            assert(longer =~= shorter.push(all[i as int]));
            assert forall|x: Seq<char>|
                longer.to_set().contains(x) == shorter.to_set().insert(all[i as int]).contains(
                    x,
                ) by {
                if shorter.contains(x) {
                    let k = choose|k: int| 0 <= k < shorter.len() && shorter[k] == x;
                    assert(longer[k] == x);
                }
                assert(longer[i as int] == all[i as int]);
            }
            assert(longer.to_set() =~= shorter.to_set().insert(all[i as int]));
        }
        i += 1;
    }
    assert(all.take(all.len() as int) =~= all);
    out
}

/// A key with its value.
pub struct Entry {
    pub key: Seq<char>,
    pub value: Seq<char>,
}

/// The entries of a table.
pub open spec fn entries(v: Seq<(String, String)>) -> Seq<Entry> {
    v.map_values(|e: (String, String)| Entry { key: e.0@, value: e.1@ })
}

/// Whether the keys stand in order, none of them twice.
pub open spec fn in_order(v: Seq<Entry>) -> bool {
    forall|i: int, j: int|
        0 <= i < j < v.len() ==> precedes((#[trigger] v[i]).key, (#[trigger] v[j]).key)
}

/// The number of keys that come before `key`.
pub open spec fn place(v: Seq<Entry>, key: Seq<char>) -> int
    decreases v.len(),
{
    if v.len() == 0 || !precedes(v[0].key, key) {
        0
    } else {
        1 + place(v.skip(1), key)
    }
}

/// The table with a value put for a key.
pub open spec fn put(v: Seq<Entry>, key: Seq<char>, value: Seq<char>) -> Seq<Entry> {
    let i = place(v, key);
    if 0 <= i < v.len() && v[i].key == key {
        v.update(i, Entry { key, value })
    } else {
        v.insert(i, Entry { key, value })
    }
}

/// The value of a key.
pub open spec fn value_of(v: Seq<Entry>, key: Seq<char>) -> Option<Seq<char>> {
    let i = place(v, key);
    if 0 <= i < v.len() && v[i].key == key {
        Some(v[i].value)
    } else {
        None
    }
}

/// What `place` gives.
proof fn place_is(v: Seq<Entry>, key: Seq<char>, i: int)
    requires
        0 <= i <= v.len(),
        forall|j: int| 0 <= j < i ==> precedes((#[trigger] v[j]).key, key),
        i < v.len() ==> !precedes(v[i].key, key),
    ensures
        place(v, key) == i,
    decreases i,
{
    if i > 0 {
        let t = v.skip(1);
        assert forall|j: int| 0 <= j < i - 1 implies precedes((#[trigger] t[j]).key, key) by {
            assert(precedes(v[j + 1].key, key));
        }
        assert(precedes(v[0].key, key));
        place_is(t, key, i - 1);
    }
}

/// The keys before the place of a key, and the one there.
pub proof fn place_has(v: Seq<Entry>, key: Seq<char>)
    ensures
        0 <= place(v, key) <= v.len(),
        forall|j: int| 0 <= j < place(v, key) ==> precedes((#[trigger] v[j]).key, key),
        place(v, key) < v.len() ==> !precedes(v[place(v, key)].key, key),
    decreases v.len(),
{
    if v.len() > 0 && precedes(v[0].key, key) {
        let t = v.skip(1);
        place_has(t, key);
        assert forall|j: int| 0 <= j < place(v, key) implies precedes(
            (#[trigger] v[j]).key,
            key,
        ) by {
            if j > 0 {
                assert(t[j - 1] == v[j]);
            }
        }
    }
}

/// Finds the place of a key.
fn find_place(v: &Vec<(String, String)>, key: &str) -> (i: usize)
    ensures
        i == place(entries(v@), key@),
        i <= v@.len(),
{
    let mut i: usize = 0;
    while i < v.len() && text_precedes(v[i].0.as_str(), key)
        invariant
            i <= v@.len(),
            forall|j: int| 0 <= j < i ==> precedes((#[trigger] entries(v@)[j]).key, key@),
        decreases v@.len() - i,
    {
        assert(entries(v@)[i as int].key == v@[i as int].0@);
        i += 1;
    }
    proof {
        place_is(entries(v@), key@, i as int);
    }
    i
}

/// Puts a value for a key.
pub fn put_value(v: &mut Vec<(String, String)>, key: &str, value: &str)
    ensures
        entries(final(v)@) == put(entries(old(v)@), key@, value@),
{
    let ghost before = v@;
    let i: usize = find_place(v, key);
    let k = String::from_str(key);
    let w = String::from_str(value);
    if i < v.len() && same_text(v[i].0.as_str(), key) {
        v.set(i, (k, w));
        assert(entries(v@) =~= put(entries(before), key@, value@));
    } else {
        v.insert(i, (k, w));
        assert(entries(v@) =~= put(entries(before), key@, value@));
    }
}

/// The value of a key.
pub fn get_value(v: &Vec<(String, String)>, key: &str) -> (r: Option<String>)
    ensures
        r is Some <==> value_of(entries(v@), key@) is Some,
        r matches Some(w) ==> value_of(entries(v@), key@) == Some(w@),
{
    let i: usize = find_place(v, key);
    if i < v.len() && same_text(v[i].0.as_str(), key) {
        Some(v[i].1.clone())
    } else {
        None
    }
}

/// The table with a line taken in: what stands before its first `=` is the key. A line without one
/// says nothing.
pub open spec fn take_line(v: Seq<Entry>, line: Seq<char>) -> Seq<Entry> {
    let k = crate::text::first_of(line, '=');
    if k < line.len() {
        put(v, line.take(k), line.skip(k + 1))
    } else {
        v
    }
}

/// The table that some lines give, where a later line wins.
pub open spec fn take_lines(ls: Seq<Seq<char>>) -> Seq<Entry>
    decreases ls.len(),
{
    if ls.len() == 0 {
        seq![]
    } else {
        take_line(take_lines(ls.drop_last()), ls.last())
    }
}

/// Reads a state file.
pub fn read_table(raw: &str) -> (v: Vec<(String, String)>)
    ensures
        entries(v@) == take_lines(crate::words::lines(raw@)),
{
    let ls = split_lines(raw);
    let ghost all = crate::text::texts(ls@);
    let mut v: Vec<(String, String)> = Vec::new();
    let mut i: usize = 0;
    assert(entries(v@) =~= take_lines(all.take(0)));
    while i < ls.len()
        invariant
            i <= ls@.len(),
            all == crate::text::texts(ls@),
            entries(v@) == take_lines(all.take(i as int)),
        decreases ls@.len() - i,
    {
        let c = chars_of(ls[i].as_str());
        let k: usize = find_char(c.as_slice(), 0, '=');
        proof {
            assert(c@.skip(0) =~= c@);
            assert(all.take(i + 1).drop_last() =~= all.take(i as int));
            assert(all.take(i + 1).last() == c@);
        }
        if k < c.len() {
            let key = text_of(c.as_slice(), 0, k);
            let value = text_of(c.as_slice(), k + 1, c.len());
            assert(key@ =~= c@.take(k as int));
            assert(value@ =~= c@.skip(k + 1));
            put_value(&mut v, key.as_str(), value.as_str());
        }
        i += 1;
    }
    assert(all.take(all.len() as int) =~= all);
    v
}

/// A line of a state file.
pub open spec fn entry_line(e: Entry) -> Seq<char> {
    e.key + "="@ + e.value + "\n"@
}

/// The text of a state file.
pub open spec fn table_text(v: Seq<Entry>) -> Seq<char>
    decreases v.len(),
{
    if v.len() == 0 {
        seq![]
    } else {
        table_text(v.drop_last()) + entry_line(v.last())
    }
}

/// Writes a state file: one line for each key, in the order of the keys.
pub fn write_table(v: &Vec<(String, String)>) -> (s: String)
    ensures
        s@ == table_text(entries(v@)),
{
    let mut s = String::new();
    let ghost all = entries(v@);
    let mut i: usize = 0;
    assert(s@ =~= table_text(all.take(0)));
    while i < v.len()
        invariant
            i <= v@.len(),
            all == entries(v@),
            s@ == table_text(all.take(i as int)),
        decreases v@.len() - i,
    {
        let ghost before = s@;
        s.append(v[i].0.as_str());
        s.append("=");
        s.append(v[i].1.as_str());
        s.append("\n");
        proof {
            assert(all.take(i + 1).drop_last() =~= all.take(i as int));
            assert(all.take(i + 1).last() == all[i as int]);
            assert(s@ =~= before + entry_line(all[i as int]));
        }
        i += 1;
    }
    assert(all.take(all.len() as int) =~= all);
    s
}

/// Whether an entry can stand in a line: no key with an `=`, no line feed, and no carriage return
/// where a line ends.
pub open spec fn writable(e: Entry) -> bool {
    &&& !e.key.contains('=')
    &&& !e.key.contains('\n')
    &&& !e.value.contains('\n')
    &&& e.value.len() == 0 || e.value.last() != '\r'
}

/// The lines of a text with one more behind it.
proof fn lines_add(s: Seq<char>, l: Seq<char>)
    requires
        s.len() == 0 || s.last() == '\n',
        !l.contains('\n'),
    ensures
        crate::words::lines(s + l + seq!['\n']) == crate::words::lines(s).push(
            crate::words::strip_cr(l),
        ),
    decreases s.len(),
{
    let all = s + l + seq!['\n'];
    crate::words::first_of_bounds(s, '\n');
    crate::words::first_of_bounds(all, '\n');
    if s.len() == 0 {
        assert(all =~= l + seq!['\n']);
        assert forall|j: int| 0 <= j < l.len() implies #[trigger] all[j] != '\n' by {
            assert(l.contains(l[j]));
        }
        crate::text::first_of_is(all, '\n', l.len() as int);
        assert(all.take(l.len() as int) =~= l);
        let rest = all.skip(l.len() + 1int);
        assert(rest.len() == 0);
        assert(crate::words::lines(rest) =~= seq![]);
        assert(crate::words::lines(s) =~= seq![]);
        assert(crate::words::lines(all) =~= crate::words::lines(s).push(crate::words::strip_cr(l)));
    } else {
        let k = first_newline(s);
        assert forall|j: int| 0 <= j < k implies #[trigger] all[j] != '\n' by {
            assert(all[j] == s[j]);
        }
        assert(all[k] == s[k]);
        crate::text::first_of_is(all, '\n', k);
        crate::text::first_of_is(s, '\n', k);
        let rest = s.skip(k + 1);
        assert(all.take(k) =~= s.take(k));
        assert(all.skip(k + 1) =~= rest + l + seq!['\n']);
        lines_add(rest, l);
        let head = seq![crate::words::strip_cr(s.take(k))];
        assert(crate::words::lines(s) == head + crate::words::lines(rest));
        assert(head + crate::words::lines(rest).push(crate::words::strip_cr(l)) =~= (head
            + crate::words::lines(rest)).push(crate::words::strip_cr(l)));
    }
}

/// Where the first line of a text ends.
proof fn first_newline(s: Seq<char>) -> (k: int)
    requires
        s.len() > 0,
        s.last() == '\n',
    ensures
        0 <= k < s.len(),
        s[k] == '\n',
        forall|j: int| 0 <= j < k ==> #[trigger] s[j] != '\n',
    decreases s.len(),
{
    if s[0] == '\n' {
        0
    } else {
        let t = s.skip(1);
        assert(t.last() == s.last());
        let k = first_newline(t);
        assert forall|j: int| 0 <= j < k + 1 implies #[trigger] s[j] != '\n' by {
            if j > 0 {
                assert(t[j - 1] == s[j]);
            }
        }
        assert(t[k] == s[k + 1]);
        k + 1
    }
}

/// What a state file is written from is what is read from it, for every table whose entries can
/// stand in a line.
pub proof fn table_reads_back(v: Seq<Entry>)
    requires
        in_order(v),
        forall|i: int| 0 <= i < v.len() ==> writable(#[trigger] v[i]),
    ensures
        take_lines(crate::words::lines(table_text(v))) == v,
        table_text(v).len() == 0 || table_text(v).last() == '\n',
    decreases v.len(),
{
    reveal_strlit("\n");
    reveal_strlit("=");
    if v.len() == 0 {
        crate::words::first_of_bounds(table_text(v), '\n');
        assert(crate::words::lines(table_text(v)) =~= seq![]);
        assert(v =~= seq![]);
    } else {
        let before = v.drop_last();
        let e = v.last();
        assert(in_order(before)) by {
            assert forall|i: int, j: int| 0 <= i < j < before.len() implies precedes(
                (#[trigger] before[i]).key,
                (#[trigger] before[j]).key,
            ) by {
                assert(precedes(v[i].key, v[j].key));
            }
        }
        assert forall|i: int| 0 <= i < before.len() implies writable(#[trigger] before[i]) by {
            assert(writable(v[i]));
        }
        table_reads_back(before);
        assert(writable(v[v.len() - 1]));
        let line = e.key + seq!['='] + e.value;
        let s = table_text(before);
        assert(entry_line(e) =~= line + seq!['\n']);
        assert(table_text(v) =~= s + line + seq!['\n']);
        assert(!line.contains('\n')) by {
            if line.contains('\n') {
                let j = choose|j: int| 0 <= j < line.len() && line[j] == '\n';
                if j < e.key.len() {
                    assert(e.key[j] == '\n');
                } else if j > e.key.len() {
                    assert(e.value[j - e.key.len() - 1] == '\n');
                }
            }
        }
        lines_add(s, line);
        assert(line.last() != '\r') by {
            if e.value.len() > 0 {
                assert(line.last() == e.value.last());
            } else {
                assert(line.last() == '=');
            }
        }
        let ls = crate::words::lines(s);
        assert(ls.push(line).drop_last() =~= ls);
        assert forall|j: int| 0 <= j < e.key.len() implies #[trigger] line[j] != '=' by {
            assert(e.key.contains(e.key[j]));
        }
        assert(line[e.key.len() as int] == '=');
        crate::text::first_of_is(line, '=', e.key.len() as int);
        assert(line.take(e.key.len() as int) =~= e.key);
        assert(line.skip(e.key.len() + 1int) =~= e.value);
        assert forall|j: int| 0 <= j < before.len() implies precedes(
            (#[trigger] before[j]).key,
            e.key,
        ) by {
            assert(precedes(v[j].key, v[v.len() - 1].key));
        }
        place_is(before, e.key, before.len() as int);
        assert(put(before, e.key, e.value) =~= v);
    }
}

/// A table in order stays so.
pub proof fn put_keeps_order(v: Seq<Entry>, key: Seq<char>, value: Seq<char>)
    requires
        in_order(v),
    ensures
        in_order(put(v, key, value)),
{
    let i = place(v, key);
    let w = put(v, key, value);
    place_has(v, key);
    if i < v.len() {
        precedes_total(v[i].key, key);
    }
    assert forall|a: int, b: int| 0 <= a < b < w.len() implies precedes(
        (#[trigger] w[a]).key,
        (#[trigger] w[b]).key,
    ) by {
        if w.len() == v.len() {
            assert(w[a].key == v[a].key && w[b].key == v[b].key);
            assert(precedes(v[a].key, v[b].key));
        } else {
            let x = if a > i { a - 1 } else { a };
            let y = if b > i { b - 1 } else { b };
            if a != i && b != i {
                assert(w[a] == v[x] && w[b] == v[y]);
                assert(precedes(v[x].key, v[y].key));
            } else if a == i {
                assert(w[b] == v[y]);
                if y > i {
                    assert(precedes(v[i].key, v[y].key));
                    precedes_transitive(key, v[i].key, v[y].key);
                }
            } else {
                assert(w[a] == v[a]);
            }
        }
    }
}

/// What was put for a key is its value; other keys keep theirs.
pub proof fn put_then_value(v: Seq<Entry>, key: Seq<char>, value: Seq<char>, other: Seq<char>)
    requires
        in_order(v),
    ensures
        value_of(put(v, key, value), other) == if other == key {
            Some(value)
        } else {
            value_of(v, other)
        },
{
    let i = place(v, key);
    let w = put(v, key, value);
    put_keeps_order(v, key, value);
    place_has(v, key);
    if i < v.len() {
        precedes_total(v[i].key, key);
    }
    if other == key {
        assert forall|j: int| 0 <= j < i implies precedes((#[trigger] w[j]).key, key) by {
            assert(w[j] == v[j]);
        }
        precedes_total(key, key);
        place_is(w, key, i);
    } else {
        let p = place(v, other);
        place_has(v, other);
        precedes_total(key, other);
        if w.len() == v.len() {
            assert forall|j: int| 0 <= j < p implies precedes((#[trigger] w[j]).key, other) by {
                assert(w[j].key == v[j].key);
            }
            place_is(w, other, p);
        } else {
            let q = if precedes(key, other) { p + 1 } else { p };
            assert forall|j: int| 0 <= j < q implies precedes((#[trigger] w[j]).key, other) by {
                if j < i {
                    assert(w[j] == v[j]);
                    if j >= p {
                        assert(j < i && precedes(v[j].key, key));
                        precedes_transitive(v[j].key, key, other);
                    }
                } else if j > i {
                    assert(w[j] == v[j - 1]);
                    if j - 1 >= p {
                        assert(false);
                    }
                } else if !precedes(key, other) {
                    // The other key stands before this one, so its place does too.
                    assert(i < p);
                    assert(precedes(v[i].key, other));
                    precedes_transitive(v[i].key, other, key);
                }
            }
            if q < w.len() {
                if q < i {
                    assert(w[q] == v[q]);
                    if q == p + 1 {
                        assert(precedes(v[p].key, key));
                        precedes_transitive(v[p].key, key, other);
                    }
                } else if q > i {
                    assert(w[q] == v[q - 1]);
                    if q == p {
                        assert(i < p);
                        assert(precedes(v[i].key, other));
                        precedes_transitive(v[i].key, other, key);
                    }
                } else if q == p + 1 {
                    assert(i == p + 1);
                    assert(precedes(v[p].key, key));
                    precedes_transitive(v[p].key, key, other);
                }
            }
            place_is(w, other, q);
            if q < w.len() && q != i {
                let x = if q > i { q - 1 } else { q };
                assert(w[q] == v[x]);
            }
            if p < v.len() && v[p].key == other {
                precedes_total(other, key);
            }
        }
    }
}

/// Of two texts the one with the smaller character at the first place where they differ comes
/// first, and a text comes before every longer one that begins with it.
pub proof fn first_difference_decides(a: Seq<char>, b: Seq<char>, i: int)
    requires
        0 <= i <= a.len(),
        i < b.len(),
        forall|j: int| 0 <= j < i ==> #[trigger] a[j] == b[j],
        i < a.len() ==> a[i] != b[i],
    ensures
        i < a.len() ==> precedes(a, b) == (a[i] < b[i]),
        i == a.len() ==> precedes(a, b),
    decreases i,
{
    if i > 0 {
        assert(a[0] == b[0]);
        let x = a.skip(1);
        let y = b.skip(1);
        assert forall|j: int| 0 <= j < i - 1 implies #[trigger] x[j] == y[j] by {
            assert(a[j + 1] == b[j + 1]);
        }
        first_difference_decides(x, y, i - 1);
    }
}

/// A line gives its key what stands behind the first equals sign, and a line without one nothing.
pub proof fn lines_set_their_key(v: Seq<Entry>, key: Seq<char>, value: Seq<char>)
    requires
        in_order(v),
        !key.contains('='),
    ensures
        value_of(take_line(v, key + seq!['='] + value), key) == Some(value),
        take_line(v, key) == v,
{
    let line = key + seq!['='] + value;
    assert forall|j: int| 0 <= j < key.len() implies #[trigger] line[j] != '=' by {
        assert(line[j] == key[j]);
    }
    assert forall|j: int| 0 <= j < key.len() implies #[trigger] key[j] != '=' by {}
    crate::text::first_of_is(line, '=', key.len() as int);
    crate::text::first_of_is(key, '=', key.len() as int);
    assert(line.take(key.len() as int) =~= key);
    assert(line.skip(key.len() as int + 1) =~= value);
    put_then_value(v, key, value, key);
}

} // verus!
