//! A node's status for people to read, and the list of networks that a device has joined.

use crate::json::{docs, field_agrees, texts_among, texts_at, Doc, Json, Num, Number};
use crate::node::sorted::{precedes, precedes_total, precedes_transitive, text_precedes};
use crate::parse::{parse_text, text_doc};
use crate::text::{dec, push_dec, same_text};
use vstd::prelude::*;
use vstd::string::StringExecFns;

verus! {

/// The ending of a plural.
pub open spec fn ending(n: int) -> Seq<char> {
    if n == 1 {
        ""@
    } else {
        "s"@
    }
}

/// The ending of a plural.
pub fn plural(n: u64) -> (s: &'static str)
    ensures
        s@ == ending(n as int),
{
    if n == 1 {
        ""
    } else {
        "s"
    }
}

/// How long ago a moment was: in seconds below a minute, in minutes below an hour, else in hours.
/// No moment is never, and one that is still to come is now.
pub open spec fn ago_text(unix: u64, now: u64) -> Seq<char> {
    let d = if now > unix {
        now - unix
    } else {
        0
    };
    if unix == 0 {
        "never"@
    } else if d < 60 {
        dec(d as nat) + " second"@ + ending(d) + " ago"@
    } else if d < 3600 {
        dec((d / 60) as nat) + " minute"@ + ending(d / 60) + " ago"@
    } else {
        dec((d / 3600) as nat) + " hour"@ + ending(d / 3600) + " ago"@
    }
}

/// A number of units ago.
fn units_ago(n: u64, unit: &str) -> (s: String)
    ensures
        s@ == dec(n as nat) + unit@ + ending(n as int) + " ago"@,
{
    let mut s = String::new();
    push_dec(&mut s, n);
    s.append(unit);
    s.append(plural(n));
    s.append(" ago");
    assert(s@ =~= dec(n as nat) + unit@ + ending(n as int) + " ago"@);
    s
}

/// How long ago a moment was.
pub fn ago_at(unix: u64, now: u64) -> (s: String)
    ensures
        s@ == ago_text(unix, now),
{
    if unix == 0 {
        return String::from_str("never");
    }
    let d: u64 = now.saturating_sub(unix);
    if d < 60 {
        units_ago(d, " second")
    } else if d < 3600 {
        units_ago(d / 60, " minute")
    } else {
        units_ago(d / 3600, " hour")
    }
}

/// How long ago a moment was, by the clock.
pub fn ago(unix: u64) -> (s: String)
    ensures
        exists|now: u64| s@ == #[trigger] ago_text(unix, now),
{
    let now: u64 = crate::clock::unix_now_secs();
    ago_at(unix, now)
}

/// What is shown in a line.
#[derive(Debug)]
pub enum Line {
    Text(String),
    /// Bytes received and sent.
    Transfer(u64, u64),
    /// The round trip in milliseconds.
    Rtt(Number),
}

/// What is shown in a line, as a value.
pub enum Shown {
    Text(Seq<char>),
    Transfer(u64, u64),
    Rtt(Num),
}

impl Line {
    /// The line as a value.
    pub open spec fn view(&self) -> Shown {
        match *self {
            Line::Text(s) => Shown::Text(s@),
            Line::Transfer(rx, tx) => Shown::Transfer(rx, tx),
            Line::Rtt(n) => Shown::Rtt(n.num()),
        }
    }
}

/// Some lines as values.
pub open spec fn shown(v: Seq<Line>) -> Seq<Shown> {
    v.map_values(|l: Line| l@)
}

/// Adds a line.
fn push_line(out: &mut Vec<Line>, l: Line)
    ensures
        shown(final(out)@) == shown(old(out)@).push(l@),
{
    let ghost before = out@;
    out.push(l);
    assert(shown(out@) =~= shown(before).push(l@));
}

/// Adds a line of two texts.
fn push_two(out: &mut Vec<Line>, a: &str, b: &str)
    ensures
        shown(final(out)@) == shown(old(out)@).push(Shown::Text(a@ + b@)),
{
    let mut s = String::from_str(a);
    s.append(b);
    push_line(out, Line::Text(s));
}

/// A text, or a question mark.
pub open spec fn or_unknown(s: Option<Seq<char>>) -> Seq<char> {
    match s {
        Some(t) => t,
        None => "?"@,
    }
}

/// A text in a field, or a question mark.
fn text_or_unknown<'a>(j: &'a Json, name: &str) -> (s: &'a str)
    ensures
        s@ == or_unknown(j.text_at(name@)),
{
    match j.str_at(name) {
        Some(t) => t,
        None => "?",
    }
}

/// A number, or zero.
pub open spec fn or_zero(n: Option<u64>) -> u64 {
    match n {
        Some(x) => x,
        None => 0,
    }
}

/// A number in a field, or zero.
fn number_or_zero(j: &Json, name: &str) -> (n: u64)
    ensures
        n == or_zero(j.u64_at(name@)),
{
    match j.get_u64(name) {
        Some(x) => x,
        None => 0,
    }
}

/// The lines for the node itself.
pub open spec fn node_lines(i: Json) -> Seq<Shown> {
    let head = seq![
        Shown::Text("interface: "@ + or_unknown(i.text_at("name"@))),
        Shown::Text("  public key: "@ + or_unknown(i.text_at("public_key"@))),
        Shown::Text("  listening port: "@ + dec(or_zero(i.u64_at("listen_port"@)) as nat)),
    ];
    let address = match i.text_at("address"@) {
        Some(a) => seq![Shown::Text("  address: "@ + a)],
        None => seq![],
    };
    let control = match i.text_at("control_server"@) {
        Some(c) => seq![Shown::Text("  control: "@ + c)],
        None => seq![],
    };
    head + address + control
}

/// Adds the lines for the node itself.
fn push_node(out: &mut Vec<Line>, i: &Json)
    ensures
        shown(final(out)@) == shown(old(out)@) + node_lines(*i),
{
    let ghost head = shown(out@);
    push_two(out, "interface: ", text_or_unknown(i, "name"));
    push_two(out, "  public key: ", text_or_unknown(i, "public_key"));
    let mut port = String::from_str("  listening port: ");
    push_dec(&mut port, number_or_zero(i, "listen_port"));
    push_line(out, Line::Text(port));
    match i.str_at("address") {
        Some(a) => {
            push_two(out, "  address: ", a);
        },
        None => {},
    }
    match i.str_at("control_server") {
        Some(c) => {
            push_two(out, "  control: ", c);
        },
        None => {},
    }
    assert(shown(out@) =~= head + node_lines(*i));
}

/// Some texts with commas between them.
pub open spec fn joined(v: Seq<Seq<char>>) -> Seq<char>
    decreases v.len(),
{
    if v.len() == 0 {
        seq![]
    } else if v.len() == 1 {
        v[0]
    } else {
        joined(v.drop_last()) + ", "@ + v.last()
    }
}

/// Puts commas between some texts.
fn join_texts(v: &Vec<String>) -> (s: String)
    ensures
        s@ == joined(crate::text::texts(v@)),
{
    let mut s = String::new();
    let ghost all = crate::text::texts(v@);
    let mut i: usize = 0;
    assert(s@ =~= joined(all.take(0)));
    while i < v.len()
        invariant
            i <= v@.len(),
            all == crate::text::texts(v@),
            s@ == joined(all.take(i as int)),
        decreases v@.len() - i,
    {
        let ghost before = s@;
        if i > 0 {
            s.append(", ");
        }
        s.append(v[i].as_str());
        proof {
            assert(all.take(i + 1).drop_last() =~= all.take(i as int));
            assert(all.take(i + 1).last() == v@[i as int]@);
            if i == 0 {
                assert(before =~= seq![]);
                assert(s@ =~= v@[0]@);
            }
        }
        i += 1;
    }
    assert(all.take(all.len() as int) =~= all);
    s
}

/// The lines for a peer.
pub open spec fn peer_shown(p: Json, now: u64) -> Seq<Shown> {
    let transport = match p.text_at("transport"@) {
        Some(t) => t,
        None => "\u{2014}"@,
    };
    let endpoint = match p.text_at("endpoint"@) {
        Some(e) => e,
        None => "(none)"@,
    };
    let ips = texts_among(p.items_at("allowed_ips"@));
    let allowed = if ips.len() == 0 {
        "(none)"@
    } else {
        joined(ips)
    };
    let rtt = match p.field("rtt_ms"@) {
        Some(Json::Number(n)) => seq![Shown::Rtt(n.num())],
        _ => seq![],
    };
    seq![
        Shown::Text(""@),
        Shown::Text("peer: "@ + or_unknown(p.text_at("public_key"@))),
        Shown::Text("  endpoint: "@ + endpoint + "  ("@ + transport + ")"@),
        Shown::Text("  allowed ips: "@ + allowed),
        Shown::Text(
            "  latest handshake: "@ + ago_text(or_zero(p.u64_at("last_handshake_unix"@)), now),
        ),
        Shown::Transfer(or_zero(p.u64_at("rx_bytes"@)), or_zero(p.u64_at("tx_bytes"@))),
    ] + rtt
}

/// Adds the lines for a peer.
fn push_peer(out: &mut Vec<Line>, p: &Json, now: u64)
    ensures
        shown(final(out)@) == shown(old(out)@) + peer_shown(*p, now),
{
    let ghost head = shown(out@);
    push_line(out, Line::Text(String::from_str("")));
    push_two(out, "peer: ", text_or_unknown(p, "public_key"));
    let transport = match p.str_at("transport") {
        Some(t) => t,
        None => "\u{2014}",
    };
    let endpoint = match p.str_at("endpoint") {
        Some(e) => e,
        None => "(none)",
    };
    let mut s = String::from_str("  endpoint: ");
    s.append(endpoint);
    s.append("  (");
    s.append(transport);
    s.append(")");
    push_line(out, Line::Text(s));
    let ips = texts_at(p, "allowed_ips");
    assert(crate::text::texts(ips@).len() == ips@.len());
    if ips.len() == 0 {
        push_two(out, "  allowed ips: ", "(none)");
    } else {
        push_two(out, "  allowed ips: ", join_texts(&ips).as_str());
    }
    push_two(
        out,
        "  latest handshake: ",
        ago_at(number_or_zero(p, "last_handshake_unix"), now).as_str(),
    );
    push_line(
        out,
        Line::Transfer(number_or_zero(p, "rx_bytes"), number_or_zero(p, "tx_bytes")),
    );
    match p.get("rtt_ms") {
        Some(Json::Number(n)) => {
            push_line(out, Line::Rtt(n.copy()));
        },
        _ => {},
    }
    assert(shown(out@) =~= head + peer_shown(*p, now));
}

/// The lines for some peers.
pub open spec fn peers_shown(v: Seq<Json>, now: u64) -> Seq<Shown>
    decreases v.len(),
{
    if v.len() == 0 {
        seq![]
    } else {
        peers_shown(v.drop_last(), now) + peer_shown(v.last(), now)
    }
}

/// The part of a status that is about the node itself.
pub open spec fn node_part(v: Json) -> Json {
    match v.field("interface"@) {
        Some(i) => i,
        None => Json::Null,
    }
}

/// A node's status, line by line.
pub fn describe(v: &Json, now: u64) -> (out: Vec<Line>)
    ensures
        shown(out@) == status_lines(*v, now),
{
    let mut out: Vec<Line> = Vec::new();
    assert(shown(out@) =~= seq![]);
    match v.get("interface") {
        Some(i) => push_node(&mut out, i),
        None => push_node(&mut out, &Json::Null),
    }
    let ghost head = shown(out@);
    let ghost items = v.items_at("peers"@);
    assert(head =~= node_lines(node_part(*v)));
    match v.array_at("peers") {
        Some(peers) => {
            let mut i: usize = 0;
            assert(shown(out@) =~= head + peers_shown(items.take(0), now));
            while i < peers.len()
                invariant
                    i <= peers@.len(),
                    items == peers@,
                    shown(out@) == head + peers_shown(items.take(i as int), now),
                decreases peers@.len() - i,
            {
                push_peer(&mut out, &peers[i], now);
                proof {
                    assert(items.take(i + 1).drop_last() =~= items.take(i as int));
                    assert(shown(out@) =~= head + peers_shown(items.take(i + 1), now));
                }
                i += 1;
            }
            assert(items.take(items.len() as int) =~= items);
        },
        None => {
            assert(shown(out@) =~= head + peers_shown(items, now));
        },
    }
    out
}

/// The lines of a status.
pub open spec fn status_lines(v: Json, now: u64) -> Seq<Shown> {
    node_lines(node_part(v)) + peers_shown(v.items_at("peers"@), now)
}

/// Whether these are the lines of a document that is `d`.
pub open spec fn lines_of(d: Doc, now: u64, lines: Seq<Shown>) -> bool {
    exists|v: Json| #[trigger] v.doc() == d && lines == status_lines(v, now)
}

/// Some equal documents have equal texts among them.
proof fn equal_texts(v: Seq<Json>, w: Seq<Json>)
    requires
        docs(v) == docs(w),
    ensures
        texts_among(v) == texts_among(w),
    decreases v.len(),
{
    docs_len(v);
    docs_len(w);
    if v.len() > 0 {
        assert(docs(v).last() == v.last().doc());
        assert(docs(w).last() == w.last().doc());
        assert(docs(v).drop_last() =~= docs(v.drop_last()));
        assert(docs(w).drop_last() =~= docs(w.drop_last()));
        equal_texts(v.drop_last(), w.drop_last());
    }
}

/// There are as many documents as values of them.
proof fn docs_len(v: Seq<Json>)
    ensures
        docs(v).len() == v.len(),
    decreases v.len(),
{
    if v.len() > 0 {
        docs_len(v.drop_last());
    }
}

/// Equal documents have equal items in a field.
proof fn equal_items(v: Json, w: Json, name: Seq<char>)
    requires
        v.doc() == w.doc(),
    ensures
        docs(v.items_at(name)) == docs(w.items_at(name)),
{
    field_agrees(v, name);
    field_agrees(w, name);
}

/// Equal documents give equal lines for a peer.
proof fn equal_peer(v: Json, w: Json, now: u64)
    requires
        v.doc() == w.doc(),
    ensures
        peer_shown(v, now) == peer_shown(w, now),
{
    field_agrees(v, "transport"@);
    field_agrees(w, "transport"@);
    field_agrees(v, "endpoint"@);
    field_agrees(w, "endpoint"@);
    field_agrees(v, "public_key"@);
    field_agrees(w, "public_key"@);
    field_agrees(v, "last_handshake_unix"@);
    field_agrees(w, "last_handshake_unix"@);
    field_agrees(v, "rx_bytes"@);
    field_agrees(w, "rx_bytes"@);
    field_agrees(v, "tx_bytes"@);
    field_agrees(w, "tx_bytes"@);
    field_agrees(v, "rtt_ms"@);
    field_agrees(w, "rtt_ms"@);
    equal_items(v, w, "allowed_ips"@);
    equal_texts(v.items_at("allowed_ips"@), w.items_at("allowed_ips"@));
}

/// Equal documents give equal lines for some peers.
proof fn equal_peers(v: Seq<Json>, w: Seq<Json>, now: u64)
    requires
        docs(v) == docs(w),
    ensures
        peers_shown(v, now) == peers_shown(w, now),
    decreases v.len(),
{
    docs_len(v);
    docs_len(w);
    if v.len() > 0 {
        assert(docs(v).last() == v.last().doc());
        assert(docs(w).last() == w.last().doc());
        assert(docs(v).drop_last() =~= docs(v.drop_last()));
        assert(docs(w).drop_last() =~= docs(w.drop_last()));
        equal_peers(v.drop_last(), w.drop_last(), now);
        equal_peer(v.last(), w.last(), now);
    }
}

/// What is shown of a status depends on the document alone: it has one sequence of lines.
pub proof fn lines_are_settled(d: Doc, now: u64, a: Seq<Shown>, b: Seq<Shown>)
    requires
        lines_of(d, now, a),
        lines_of(d, now, b),
    ensures
        a == b,
{
    let v = choose|v: Json| #[trigger] v.doc() == d && a == status_lines(v, now);
    let w = choose|w: Json| #[trigger] w.doc() == d && b == status_lines(w, now);
    field_agrees(v, "interface"@);
    field_agrees(w, "interface"@);
    let i = node_part(v);
    let k = node_part(w);
    assert(i.doc() == k.doc());
    field_agrees(i, "name"@);
    field_agrees(k, "name"@);
    field_agrees(i, "public_key"@);
    field_agrees(k, "public_key"@);
    field_agrees(i, "listen_port"@);
    field_agrees(k, "listen_port"@);
    field_agrees(i, "address"@);
    field_agrees(k, "address"@);
    field_agrees(i, "control_server"@);
    field_agrees(k, "control_server"@);
    equal_items(v, w, "peers"@);
    equal_peers(v.items_at("peers"@), w.items_at("peers"@), now);
}

/// What a node said about its status, line by line; the error says why it is no document.
pub fn describe_text(body: &str, now: u64) -> (r: Result<Vec<Line>, String>)
    ensures
        match r {
            Ok(out) => text_doc(body@) matches Some(d) && lines_of(d, now, shown(out@)),
            Err(_) => text_doc(body@) is None,
        },
{
    match parse_text(body) {
        Ok(v) => {
            let out = describe(&v, now);
            assert(shown(out@) == status_lines(v, now));
            Ok(out)
        },
        Err(e) => Err(e),
    }
}

/// A network that the device has joined.
#[derive(Debug)]
pub struct NetRow {
    pub tun: String,
    pub control_server: String,
    pub up: bool,
}

/// A network that the device has joined, as a value.
pub struct Row {
    pub tun: Seq<char>,
    pub control_server: Seq<char>,
    pub up: bool,
}

impl NetRow {
    /// The network as a value.
    pub open spec fn view(&self) -> Row {
        Row { tun: self.tun@, control_server: self.control_server@, up: self.up }
    }
}

/// A network as its settings name it.
pub fn row_of(conf: &Json, up: bool) -> (r: NetRow)
    ensures
        r@ == (Row {
            tun: or_unknown(conf.text_at("tun_name"@)),
            control_server: or_unknown(conf.text_at("control_server"@)),
            up,
        }),
{
    NetRow {
        tun: String::from_str(text_or_unknown(conf, "tun_name")),
        control_server: String::from_str(text_or_unknown(conf, "control_server")),
        up,
    }
}

/// Whether one network stands before another: by its interface, then by its server, then those
/// that are down first.
pub open spec fn row_before(a: Row, b: Row) -> bool {
    if a.tun != b.tun {
        precedes(a.tun, b.tun)
    } else if a.control_server != b.control_server {
        precedes(a.control_server, b.control_server)
    } else {
        !a.up && b.up
    }
}

/// Of two networks one stands before the other, or they are equal.
proof fn row_before_total(a: Row, b: Row)
    ensures
        row_before(a, b) ==> !row_before(b, a),
        a != b ==> row_before(a, b) || row_before(b, a),
{
    precedes_total(a.tun, b.tun);
    precedes_total(a.control_server, b.control_server);
}

/// What stands before what stands before a network stands before it.
proof fn row_before_transitive(a: Row, b: Row, c: Row)
    requires
        row_before(a, b),
        row_before(b, c),
    ensures
        row_before(a, c),
{
    precedes_total(a.tun, b.tun);
    precedes_total(b.tun, c.tun);
    precedes_total(a.control_server, b.control_server);
    precedes_total(b.control_server, c.control_server);
    if a.tun != b.tun && b.tun != c.tun {
        precedes_transitive(a.tun, b.tun, c.tun);
        precedes_total(a.tun, c.tun);
    } else if a.tun == b.tun && b.tun == c.tun {
        if a.control_server != b.control_server && b.control_server != c.control_server {
            precedes_transitive(a.control_server, b.control_server, c.control_server);
            precedes_total(a.control_server, c.control_server);
        }
    }
}

/// Whether one network stands before another.
fn row_less(a: &NetRow, b: &NetRow) -> (r: bool)
    ensures
        r == row_before(a@, b@),
{
    if !same_text(a.tun.as_str(), b.tun.as_str()) {
        text_precedes(a.tun.as_str(), b.tun.as_str())
    } else if !same_text(a.control_server.as_str(), b.control_server.as_str()) {
        text_precedes(a.control_server.as_str(), b.control_server.as_str())
    } else {
        !a.up && b.up
    }
}

/// Some networks as values.
pub open spec fn rows(v: Seq<NetRow>) -> Seq<Row> {
    v.map_values(|r: NetRow| r@)
}

/// Whether some networks stand in order.
pub open spec fn rows_sorted(v: Seq<Row>) -> bool {
    forall|i: int, j: int| 0 <= i < j < v.len() ==> !row_before(#[trigger] v[j], #[trigger] v[i])
}

/// Puts a network in its place.
fn insert_row(v: &mut Vec<NetRow>, r: NetRow)
    requires
        rows_sorted(rows(old(v)@)),
    ensures
        rows_sorted(rows(final(v)@)),
        rows(final(v)@).to_multiset() == rows(old(v)@).to_multiset().insert(r@),
{
    let ghost before = rows(v@);
    let mut i: usize = v.len();
    while i > 0 && row_less(&r, &v[i - 1])
        invariant
            i <= v@.len(),
            before == rows(v@),
            forall|j: int| i <= j < v@.len() ==> row_before(r@, #[trigger] before[j]),
        decreases i,
    {
        assert(before[i - 1] == v@[i - 1]@);
        i -= 1;
    }
    let ghost t = r@;
    v.insert(i, r);
    proof {
        let after = rows(v@);
        assert(after =~= before.insert(i as int, t));
        vstd::seq_lib::to_multiset_insert(before, i as int, t);
        assert forall|a: int, b: int| 0 <= a < b < after.len() implies !row_before(
            #[trigger] after[b],
            #[trigger] after[a],
        ) by {
            let x = if a > i {
                a - 1
            } else {
                a
            };
            let y = if b > i {
                b - 1
            } else {
                b
            };
            if a != i && b != i {
                assert(after[a] == before[x] && after[b] == before[y]);
                assert(!row_before(before[y], before[x]));
            } else if a == i {
                assert(after[b] == before[y]);
                assert(row_before(t, before[y]));
                row_before_total(t, before[y]);
            } else {
                assert(after[a] == before[a]);
                assert(!row_before(t, before[i - 1]));
                if a < i - 1 && row_before(t, before[a]) {
                    assert(!row_before(before[i - 1], before[a]));
                    row_before_total(before[a], before[i - 1]);
                    if before[a] != before[i - 1] {
                        row_before_transitive(t, before[a], before[i - 1]);
                    }
                }
            }
        }
    }
}

/// Puts some networks in order.
pub fn sort_rows(v: Vec<NetRow>) -> (out: Vec<NetRow>)
    ensures
        rows_sorted(rows(out@)),
        rows(out@).to_multiset() == rows(v@).to_multiset(),
{
    let mut v = v;
    let mut out: Vec<NetRow> = Vec::new();
    let ghost all = rows(v@);
    assert(rows(out@).to_multiset() =~= vstd::multiset::Multiset::<Row>::empty()) by {
        rows(out@).to_multiset_ensures();
        assert(rows(out@).len() == 0);
        assert(rows(out@) =~= seq![]);
    }
    assert(rows(out@).to_multiset().add(rows(v@).to_multiset()) =~= all.to_multiset());
    while v.len() > 0
        invariant
            rows_sorted(rows(out@)),
            rows(out@).to_multiset().add(rows(v@).to_multiset()) == all.to_multiset(),
        decreases v@.len(),
    {
        let ghost before = rows(v@);
        let ghost placed = rows(out@).to_multiset();
        let n: usize = v.len() - 1;
        let r = v.remove(n);
        proof {
            assert(rows(v@) =~= before.drop_last());
            assert(before =~= before.drop_last().push(r@));
            before.drop_last().to_multiset_ensures();
            assert(before.to_multiset() =~= before.drop_last().to_multiset().insert(r@));
        }
        insert_row(&mut out, r);
        proof {
            assert(placed.insert(r@).add(rows(v@).to_multiset()) =~= placed.add(
                before.to_multiset(),
            ));
        }
    }
    proof {
        assert(rows(v@) =~= seq![]);
        rows(v@).to_multiset_ensures();
        assert(rows(v@).to_multiset() =~= vstd::multiset::Multiset::<Row>::empty());
        assert(rows(out@).to_multiset().add(rows(v@).to_multiset()) =~= rows(out@).to_multiset());
    }
    out
}

/// Blanks.
pub open spec fn blanks(n: int) -> Seq<char>
    decreases n,
{
    if n <= 0 {
        seq![]
    } else {
        blanks(n - 1).push(' ')
    }
}

/// A text with blanks behind it, six characters wide at least.
pub open spec fn padded(s: Seq<char>) -> Seq<char> {
    s + blanks(6 - s.len())
}

/// Adds a text with blanks behind it.
fn push_padded(out: &mut String, s: &str)
    ensures
        final(out)@ == old(out)@ + padded(s@),
{
    let ghost head = out@ + s@;
    out.append(s);
    let n: usize = s.unicode_len();
    let mut i: usize = n;
    assert(out@ =~= head + blanks(0));
    while i < 6
        invariant
            n == s@.len(),
            n <= i,
            n <= 6 ==> i <= 6,
            n > 6 ==> i == n,
            out@ == head + blanks(i - n),
        decreases 6 - i,
    {
        out.push(' ');
        assert(out@ =~= head + blanks(i + 1 - n));
        i += 1;
    }
    assert(n > 6 ==> blanks(6 - n) =~= seq![]);
    assert(out@ =~= old(out)@ + padded(s@));
}

/// The line for a network.
pub open spec fn row_text(r: Row) -> Seq<char> {
    padded(r.tun) + " "@ + padded(
        if r.up {
            "up"@
        } else {
            "down"@
        },
    ) + " "@ + r.control_server
}

/// The line for a network: its interface, its state and its control server.
pub fn row_line(r: &NetRow) -> (s: String)
    ensures
        s@ == row_text(r@),
{
    let mut s = String::new();
    push_padded(&mut s, r.tun.as_str());
    s.append(" ");
    if r.up {
        push_padded(&mut s, "up");
    } else {
        push_padded(&mut s, "down");
    }
    s.append(" ");
    s.append(r.control_server.as_str());
    assert(s@ =~= row_text(r@));
    s
}

/// A moment that was is told in seconds for a minute, in minutes for an hour, and in hours from
/// then on, in whole ones; one alone is told without the ending.
pub proof fn moments_are_told(unix: u64, now: u64)
    ensures
        ago_text(0, now) == "never"@,
        unix > 0 && now <= unix ==> ago_text(unix, now) == dec(0) + " seconds ago"@,
        unix > 0 && now == unix + 1 ==> ago_text(unix, now) == dec(1) + " second ago"@,
        unix > 0 && 2 <= now - unix < 60 ==> ago_text(unix, now) == dec((now - unix) as nat)
            + " seconds ago"@,
        unix > 0 && 60 <= now - unix < 120 ==> ago_text(unix, now) == dec(1) + " minute ago"@,
        unix > 0 && 120 <= now - unix < 3600 ==> ago_text(unix, now) == dec(
            ((now - unix) / 60) as nat,
        ) + " minutes ago"@,
        unix > 0 && 3600 <= now - unix < 7200 ==> ago_text(unix, now) == dec(1) + " hour ago"@,
        unix > 0 && 7200 <= now - unix ==> ago_text(unix, now) == dec(
            ((now - unix) / 3600) as nat,
        ) + " hours ago"@,
{
    reveal_strlit("");
    reveal_strlit("s");
    reveal_strlit(" ago");
    reveal_strlit(" second");
    reveal_strlit(" minute");
    reveal_strlit(" hour");
    reveal_strlit(" second ago");
    reveal_strlit(" seconds ago");
    reveal_strlit(" minute ago");
    reveal_strlit(" minutes ago");
    reveal_strlit(" hour ago");
    reveal_strlit(" hours ago");
    let d = if now > unix {
        now - unix
    } else {
        0
    };
    let n = dec(d as nat);
    let m = dec((d / 60) as nat);
    let h = dec((d / 3600) as nat);
    assert(n + " second"@ + ""@ + " ago"@ =~= n + " second ago"@);
    assert(n + " second"@ + "s"@ + " ago"@ =~= n + " seconds ago"@);
    assert(m + " minute"@ + ""@ + " ago"@ =~= m + " minute ago"@);
    assert(m + " minute"@ + "s"@ + " ago"@ =~= m + " minutes ago"@);
    assert(h + " hour"@ + ""@ + " ago"@ =~= h + " hour ago"@);
    assert(h + " hour"@ + "s"@ + " ago"@ =~= h + " hours ago"@);
}

/// Networks are told in the order of their interfaces, then of their servers.
pub proof fn rows_go_by_interface(a: Row, b: Row)
    ensures
        a.tun != b.tun ==> row_before(a, b) == precedes(a.tun, b.tun),
        a.tun == b.tun && a.control_server != b.control_server ==> row_before(a, b) == precedes(
            a.control_server,
            b.control_server,
        ),
        a == b ==> !row_before(a, b),
        row_before(a, b) ==> !row_before(b, a),
{
    crate::node::sorted::precedes_total(a.tun, b.tun);
    crate::node::sorted::precedes_total(a.control_server, b.control_server);
}

/// A row begins with the interface, padded to six, says whether the network is up, and ends with
/// the server.
pub proof fn rows_tell_whether_up(r: Row)
    requires
        r.tun.len() <= 6,
    ensures
        row_text(r).take(r.tun.len() as int) == r.tun,
        r.up ==> row_text(r).subrange(7, 9) == "up"@,
        !r.up ==> row_text(r).subrange(7, 11) == "down"@,
        row_text(r).skip(14) == r.control_server,
{
    reveal_strlit("up");
    reveal_strlit("down");
    reveal_strlit(" ");
    blanks_are_so_many(6 - r.tun.len());
    blanks_are_so_many(4);
    blanks_are_so_many(2);
    let s = row_text(r);
    assert(s.take(r.tun.len() as int) =~= r.tun);
    if r.up {
        assert(s.subrange(7, 9) =~= "up"@);
    } else {
        assert(s.subrange(7, 11) =~= "down"@);
    }
    assert(s.skip(14) =~= r.control_server);
}

/// So many blanks are that many.
proof fn blanks_are_so_many(n: int)
    requires
        n >= 0,
    ensures
        blanks(n).len() == n,
        forall|i: int| 0 <= i < n ==> #[trigger] blanks(n)[i] == ' ',
    decreases n,
{
    if n > 0 {
        blanks_are_so_many(n - 1);
    }
}

/// A peer's lines name its key, its address with the path, and what it received before what it
/// sent.
pub proof fn peers_are_told(p: Json, now: u64)
    ensures
        ({
            let l = peer_shown(p, now);
            &&& p.text_at("public_key"@) matches Some(k) ==> l[1] == Shown::Text("peer: "@ + k)
            &&& p.text_at("endpoint"@) matches Some(e) ==> (p.text_at("transport"@) matches Some(t)
                ==> l[2] == Shown::Text("  endpoint: "@ + e + "  ("@ + t + ")"@))
            &&& p.u64_at("rx_bytes"@) matches Some(rx) ==> (p.u64_at("tx_bytes"@) matches Some(tx)
                ==> l[5] == Shown::Transfer(rx, tx))
            &&& p.u64_at("last_handshake_unix"@) matches Some(u) ==> l[4] == Shown::Text(
                "  latest handshake: "@ + ago_text(u, now),
            )
            &&& p.u64_at("last_handshake_unix"@) is None ==> l[4] == Shown::Text(
                "  latest handshake: "@ + "never"@,
            )
            &&& l.len() == 7 <==> (p.field("rtt_ms"@) matches Some(Json::Number(n)))
        }),
{
}

/// A node's lines name its interface, its key and its port; its address and its server where it has
/// them.
pub proof fn nodes_are_told(i: Json)
    ensures
        ({
            let l = node_lines(i);
            &&& l.len() >= 3
            &&& i.text_at("name"@) matches Some(n) ==> l[0] == Shown::Text("interface: "@ + n)
            &&& i.text_at("public_key"@) matches Some(k) ==> l[1] == Shown::Text(
                "  public key: "@ + k,
            )
            &&& i.u64_at("listen_port"@) matches Some(p) ==> l[2] == Shown::Text(
                "  listening port: "@ + dec(p as nat),
            )
            &&& i.text_at("address"@) matches Some(a) ==> l[3] == Shown::Text("  address: "@ + a)
            &&& i.text_at("control_server"@) matches Some(c) ==> l.last() == Shown::Text(
                "  control: "@ + c,
            )
            &&& i.text_at("address"@) is None && i.text_at("control_server"@) is None ==> l.len()
                == 3
        }),
{
}

/// The status is told with the node first and then each peer.
pub proof fn peers_follow_the_node(v: Json, now: u64, peers: Seq<Json>, p: Json)
    ensures
        v.items_at("peers"@).len() == 0 ==> status_lines(v, now) == node_lines(node_part(v)),
        status_lines(v, now).take(node_lines(node_part(v)).len() as int) == node_lines(
            node_part(v),
        ),
        status_lines(v, now).skip(node_lines(node_part(v)).len() as int) == peers_shown(
            v.items_at("peers"@),
            now,
        ),
        peers_shown(peers.push(p), now) == peers_shown(peers, now) + peer_shown(p, now),
        v.field("interface"@) matches Some(i) ==> node_part(v) == i,
{
    assert(peers.push(p).drop_last() =~= peers);
    let n = node_lines(node_part(v));
    let all = status_lines(v, now);
    assert(all.take(n.len() as int) =~= n);
    assert(all.skip(n.len() as int) =~= peers_shown(v.items_at("peers"@), now));
    if v.items_at("peers"@).len() == 0 {
        assert(all =~= n);
    }
}

/// Networks of a peer are told with a comma between two.
pub proof fn networks_are_joined(v: Seq<Seq<char>>, s: Seq<char>)
    ensures
        joined(seq![s]) == s,
        v.len() > 0 ==> joined(v.push(s)) == joined(v) + ", "@ + s,
{
    assert(v.push(s).drop_last() =~= v);
    assert(seq![s][0] == s);
}

/// Sorted rows go by interface: of two neighbours the second never comes before the first.
pub proof fn sorted_rows_go_up(v: Seq<Row>, i: int)
    requires
        rows_sorted(v),
        0 <= i < v.len() - 1,
    ensures
        v[i].tun == v[i + 1].tun || precedes(v[i].tun, v[i + 1].tun),
{
    crate::node::sorted::precedes_total(v[i].tun, v[i + 1].tun);
    assert(!row_before(v[i + 1], v[i]));
}

} // verus!
