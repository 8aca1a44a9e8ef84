//! A node's status: what `wg` reads from a tunnel, and a document with what `wg` does not know.

use crate::assoc::Assoc;
use crate::digest::{hex_encode, hex_text};
use crate::ipv4::{ipv4_text, ipv4_to_text};
use crate::json::{docs, Doc, Json, Num, Number};
use crate::mesh::status::{transport_name, transport_text, PeerStat};
use crate::net::SocketAddr;
use crate::node::dns::opt_text;
use crate::node::host::Os;
use crate::text::{copy_texts, dec, push_dec};
use vstd::prelude::*;
use vstd::string::StringExecFns;

verus! {

/// A peer's status at some moment.
#[derive(Debug)]
pub struct PeerSnapshot {
    pub pubkey: [u8; 32],
    pub endpoint: Option<SocketAddr>,
    pub transport: u8,
    pub allowed_ips: Vec<String>,
    pub last_handshake_unix: u64,
    pub rtt_us: u64,
    pub rx_bytes: u64,
    pub tx_bytes: u64,
}

/// The status of a peer with this key.
pub open spec fn taken(key: [u8; 32], s: PeerStat, p: PeerSnapshot) -> bool {
    &&& p.pubkey == key
    &&& p.endpoint == s.endpoint
    &&& p.transport == s.transport
    &&& crate::text::texts(p.allowed_ips@) == crate::text::texts(s.allowed_ips@)
    &&& p.last_handshake_unix == s.last_handshake_unix
    &&& p.rtt_us == s.rtt_us
    &&& p.rx_bytes == s.rx_bytes
    &&& p.tx_bytes == s.tx_bytes
}

/// The status of every peer.
pub fn snapshot(reg: &Assoc<[u8; 32], PeerStat>) -> (out: Vec<PeerSnapshot>)
    ensures
        out@.len() == reg.entries@.len(),
        forall|i: int|
            0 <= i < out@.len() ==> taken(
                reg.entries@[i].0,
                reg.entries@[i].1,
                #[trigger] out@[i],
            ),
{
    let mut out: Vec<PeerSnapshot> = Vec::new();
    let mut i: usize = 0;
    while i < reg.entries.len()
        invariant
            i <= reg.entries@.len(),
            out@.len() == i,
            forall|j: int|
                0 <= j < i ==> taken(reg.entries@[j].0, reg.entries@[j].1, #[trigger] out@[j]),
        decreases reg.entries@.len() - i,
    {
        let s = &reg.entries[i].1;
        out.push(
            PeerSnapshot {
                pubkey: reg.entries[i].0,
                endpoint: s.endpoint,
                transport: s.transport,
                allowed_ips: copy_texts(&s.allowed_ips),
                last_handshake_unix: s.last_handshake_unix,
                rtt_us: s.rtt_us,
                rx_bytes: s.rx_bytes,
                tx_bytes: s.tx_bytes,
            },
        );
        i += 1;
    }
    out
}

/// The bytes that were received from some peers.
pub open spec fn received_from(v: Seq<PeerSnapshot>) -> int
    decreases v.len(),
{
    if v.len() == 0 {
        0
    } else {
        received_from(v.drop_last()) + v.last().rx_bytes
    }
}

/// The bytes that were sent to some peers.
pub open spec fn sent_to(v: Seq<PeerSnapshot>) -> int
    decreases v.len(),
{
    if v.len() == 0 {
        0
    } else {
        sent_to(v.drop_last()) + v.last().tx_bytes
    }
}

/// More peers, no fewer bytes.
proof fn totals_grow(v: Seq<PeerSnapshot>, i: int)
    requires
        0 <= i <= v.len(),
    ensures
        0 <= received_from(v.take(i)) <= received_from(v),
        0 <= sent_to(v.take(i)) <= sent_to(v),
    decreases v.len(),
{
    if i < v.len() {
        totals_grow(v.drop_last(), i);
        assert(v.drop_last().take(i) =~= v.take(i));
    } else {
        assert(v.take(i) =~= v);
        if v.len() > 0 {
            totals_grow(v.drop_last(), v.len() - 1);
        }
    }
}

/// The bytes that were received from all peers, and those that were sent to them.
pub fn traffic(v: &Vec<PeerSnapshot>) -> (r: (u64, u64))
    requires
        received_from(v@) <= u64::MAX,
        sent_to(v@) <= u64::MAX,
    ensures
        r.0 == received_from(v@),
        r.1 == sent_to(v@),
{
    let mut rx: u64 = 0;
    let mut tx: u64 = 0;
    let mut i: usize = 0;
    while i < v.len()
        invariant
            i <= v@.len(),
            rx == received_from(v@.take(i as int)),
            tx == sent_to(v@.take(i as int)),
            received_from(v@) <= u64::MAX,
            sent_to(v@) <= u64::MAX,
        decreases v@.len() - i,
    {
        proof {
            assert(v@.take(i + 1).drop_last() =~= v@.take(i as int));
            totals_grow(v@, i + 1);
        }
        rx = rx + v[i].rx_bytes;
        tx = tx + v[i].tx_bytes;
        i += 1;
    }
    assert(v@.take(v@.len() as int) =~= v@);
    (rx, tx)
}

/// What is reported of a peer.
pub open spec fn report_of(p: PeerSnapshot) -> Doc {
    Doc::Object(
        seq![
            ("public_key"@, Doc::Text(hex_text(p.pubkey@))),
            ("rx_bytes"@, Doc::Number(Num::Unsigned(p.rx_bytes))),
            ("tx_bytes"@, Doc::Number(Num::Unsigned(p.tx_bytes))),
            ("transport"@, Doc::Text(transport_text(p.transport))),
            ("last_handshake_unix"@, Doc::Number(Num::Unsigned(p.last_handshake_unix))),
        ],
    )
}

/// What is reported of some peers.
pub open spec fn reports_of(v: Seq<PeerSnapshot>) -> Seq<Doc> {
    v.map_values(|p: PeerSnapshot| report_of(p))
}

/// What is reported to the control server of each peer.
pub fn report(v: &Vec<PeerSnapshot>) -> (r: Json)
    ensures
        r.doc() == Doc::Array(reports_of(v@)),
{
    let mut out: Vec<Json> = Vec::new();
    let mut i: usize = 0;
    assert(docs(out@) =~= reports_of(v@.take(0)));
    while i < v.len()
        invariant
            i <= v@.len(),
            docs(out@) == reports_of(v@.take(i as int)),
        decreases v@.len() - i,
    {
        let p = &v[i];
        let j = Json::empty().with(
            "public_key",
            Json::Text(hex_encode(p.pubkey.as_slice())),
        ).with("rx_bytes", Json::from_u64(p.rx_bytes)).with(
            "tx_bytes",
            Json::from_u64(p.tx_bytes),
        ).with("transport", Json::from_text(transport_name(p.transport))).with(
            "last_handshake_unix",
            Json::from_u64(p.last_handshake_unix),
        );
        proof {
            assert(j.doc()->Object_0 =~= report_of(*p)->Object_0);
            assert(out@.push(j).drop_last() =~= out@);
            assert(reports_of(v@.take(i + 1)) =~= reports_of(v@.take(i as int)).push(
                report_of(*p),
            ));
        }
        out.push(j);
        i += 1;
    }
    assert(v@.take(v@.len() as int) =~= v@);
    Json::Array(out)
}

/// The lines for some networks.
pub open spec fn allowed_lines(ips: Seq<Seq<char>>) -> Seq<char>
    decreases ips.len(),
{
    if ips.len() == 0 {
        seq![]
    } else {
        allowed_lines(ips.drop_last()) + "allowed_ip="@ + ips.last() + "\n"@
    }
}

/// The lines for a peer, with its address as it reads.
pub open spec fn peer_lines(p: PeerSnapshot, endpoint: Option<Seq<char>>) -> Seq<char> {
    let address = match endpoint {
        Some(e) => "endpoint="@ + e + "\n"@,
        None => seq![],
    };
    "public_key="@ + hex_text(p.pubkey@) + "\n"@ + address + allowed_lines(
        crate::text::texts(p.allowed_ips@),
    ) + "last_handshake_time_sec="@ + dec(p.last_handshake_unix as nat)
        + "\nlast_handshake_time_nsec=0\nrx_bytes="@ + dec(p.rx_bytes as nat) + "\ntx_bytes="@
        + dec(p.tx_bytes as nat) + "\npersistent_keepalive_interval=0\n"@
}

/// The lines for some peers.
pub open spec fn all_lines(v: Seq<PeerSnapshot>, endpoints: Seq<Option<Seq<char>>>) -> Seq<char>
    decreases v.len(),
{
    if v.len() == 0 {
        seq![]
    } else {
        all_lines(v.drop_last(), endpoints) + peer_lines(v.last(), endpoints[v.len() - 1])
    }
}

/// Some addresses as values.
pub open spec fn opt_texts(v: Seq<Option<String>>) -> Seq<Option<Seq<char>>> {
    v.map_values(|s: Option<String>| opt_text(s))
}

/// Adds the lines for a peer.
fn push_peer(out: &mut String, p: &PeerSnapshot, endpoint: &Option<String>)
    ensures
        final(out)@ == old(out)@ + peer_lines(*p, opt_text(*endpoint)),
{
    let ghost head = out@;
    out.append("public_key=");
    out.append(hex_encode(p.pubkey.as_slice()).as_str());
    out.append("\n");
    match endpoint {
        Some(e) => {
            out.append("endpoint=");
            out.append(e.as_str());
            out.append("\n");
        },
        None => {},
    }
    let ghost front = out@;
    let ghost ips = crate::text::texts(p.allowed_ips@);
    let mut i: usize = 0;
    assert(front =~= front + allowed_lines(ips.take(0)));
    while i < p.allowed_ips.len()
        invariant
            i <= p.allowed_ips@.len(),
            ips == crate::text::texts(p.allowed_ips@),
            out@ == front + allowed_lines(ips.take(i as int)),
        decreases p.allowed_ips@.len() - i,
    {
        out.append("allowed_ip=");
        out.append(p.allowed_ips[i].as_str());
        out.append("\n");
        proof {
            assert(ips.take(i + 1).drop_last() =~= ips.take(i as int));
            assert(ips.take(i + 1).last() == p.allowed_ips@[i as int]@);
            assert(out@ =~= front + allowed_lines(ips.take(i + 1)));
        }
        i += 1;
    }
    assert(ips.take(ips.len() as int) =~= ips);
    out.append("last_handshake_time_sec=");
    push_dec(out, p.last_handshake_unix);
    out.append("\nlast_handshake_time_nsec=0\nrx_bytes=");
    push_dec(out, p.rx_bytes);
    out.append("\ntx_bytes=");
    push_dec(out, p.tx_bytes);
    out.append("\npersistent_keepalive_interval=0\n");
    assert(out@ =~= head + peer_lines(*p, opt_text(*endpoint)));
}

/// The whole answer.
pub open spec fn uapi_text(
    v: Seq<PeerSnapshot>,
    endpoints: Seq<Option<Seq<char>>>,
    own_priv_hex: Seq<char>,
    listen_port: u16,
) -> Seq<char> {
    "private_key="@ + own_priv_hex + "\nlisten_port="@ + dec(listen_port as nat) + "\nfwmark=0\n"@
        + all_lines(v, endpoints) + "errno=0\n\n"@
}

/// What `wg` is answered: one line for each value, hexadecimal keys, and `errno=0` at the end.
/// `endpoints` are the peers' addresses as they read.
pub fn wg_uapi_get(
    v: &Vec<PeerSnapshot>,
    endpoints: &Vec<Option<String>>,
    own_priv_hex: &str,
    listen_port: u16,
) -> (s: String)
    requires
        v@.len() == endpoints@.len(),
    ensures
        s@ == uapi_text(v@, opt_texts(endpoints@), own_priv_hex@, listen_port),
{
    let mut s = String::from_str("private_key=");
    s.append(own_priv_hex);
    s.append("\nlisten_port=");
    push_dec(&mut s, listen_port as u64);
    s.append("\nfwmark=0\n");
    let ghost head = s@;
    let ghost es = opt_texts(endpoints@);
    let mut i: usize = 0;
    assert(s@ =~= head + all_lines(v@.take(0), es));
    while i < v.len()
        invariant
            i <= v@.len() == endpoints@.len(),
            es == opt_texts(endpoints@),
            s@ == head + all_lines(v@.take(i as int), es),
        decreases v@.len() - i,
    {
        push_peer(&mut s, &v[i], &endpoints[i]);
        proof {
            assert(v@.take(i + 1).drop_last() =~= v@.take(i as int));
            assert(es[i as int] == opt_text(endpoints@[i as int]));
            assert(s@ =~= head + all_lines(v@.take(i + 1), es));
        }
        i += 1;
    }
    assert(v@.take(v@.len() as int) =~= v@);
    s.append("errno=0\n\n");
    s
}

/// Some texts as documents.
pub open spec fn text_docs(v: Seq<Seq<char>>) -> Seq<Doc> {
    v.map_values(|s: Seq<char>| Doc::Text(s))
}

/// Some texts as a document.
pub fn texts_doc(v: &Vec<String>) -> (j: Json)
    ensures
        j.doc() == Doc::Array(text_docs(crate::text::texts(v@))),
{
    let mut out: Vec<Json> = Vec::new();
    let ghost all = crate::text::texts(v@);
    let mut i: usize = 0;
    assert(docs(out@) =~= text_docs(all.take(0)));
    while i < v.len()
        invariant
            i <= v@.len(),
            all == crate::text::texts(v@),
            docs(out@) == text_docs(all.take(i as int)),
        decreases v@.len() - i,
    {
        let j = Json::Text(v[i].clone());
        proof {
            assert(j.doc() == Doc::Text(v@[i as int]@));
            assert(out@.push(j).drop_last() =~= out@);
            assert(text_docs(all.take(i + 1)) =~= text_docs(all.take(i as int)).push(
                Doc::Text(v@[i as int]@),
            ));
        }
        out.push(j);
        i += 1;
    }
    assert(all.take(all.len() as int) =~= all);
    Json::Array(out)
}

/// The status of a peer as a document, with its address as it reads.
pub open spec fn peer_doc(p: PeerSnapshot, endpoint: Option<Seq<char>>) -> Doc {
    Doc::Object(
        seq![
            ("public_key"@, Doc::Text(hex_text(p.pubkey@))),
            (
                "endpoint"@,
                match endpoint {
                    Some(e) => Doc::Text(e),
                    None => Doc::Null,
                },
            ),
            ("transport"@, Doc::Text(transport_text(p.transport))),
            ("allowed_ips"@, Doc::Array(text_docs(crate::text::texts(p.allowed_ips@)))),
            ("last_handshake_unix"@, Doc::Number(Num::Unsigned(p.last_handshake_unix))),
            (
                "rtt_ms"@,
                if p.rtt_us == 0 {
                    Doc::Null
                } else {
                    Doc::Number(Num::Thousandths(p.rtt_us))
                },
            ),
            ("rx_bytes"@, Doc::Number(Num::Unsigned(p.rx_bytes))),
            ("tx_bytes"@, Doc::Number(Num::Unsigned(p.tx_bytes))),
        ],
    )
}

/// The status of a peer as a document.
fn peer_json(p: &PeerSnapshot, endpoint: &Option<String>) -> (j: Json)
    ensures
        j.doc() == peer_doc(*p, opt_text(*endpoint)),
{
    let e = match endpoint {
        Some(s) => Json::Text(s.clone()),
        None => Json::Null,
    };
    let rtt = if p.rtt_us == 0 {
        Json::Null
    } else {
        Json::Number(Number::Thousandths(p.rtt_us))
    };
    let j = Json::empty().with("public_key", Json::Text(hex_encode(p.pubkey.as_slice()))).with(
        "endpoint",
        e,
    ).with("transport", Json::from_text(transport_name(p.transport))).with(
        "allowed_ips",
        texts_doc(&p.allowed_ips),
    ).with("last_handshake_unix", Json::from_u64(p.last_handshake_unix)).with("rtt_ms", rtt).with(
        "rx_bytes",
        Json::from_u64(p.rx_bytes),
    ).with("tx_bytes", Json::from_u64(p.tx_bytes));
    assert(j.doc()->Object_0 =~= peer_doc(*p, opt_text(*endpoint))->Object_0);
    j
}

/// The status of some peers as documents.
pub open spec fn peer_docs(v: Seq<PeerSnapshot>, endpoints: Seq<Option<Seq<char>>>) -> Seq<Doc>
    decreases v.len(),
{
    if v.len() == 0 {
        seq![]
    } else {
        peer_docs(v.drop_last(), endpoints).push(peer_doc(v.last(), endpoints[v.len() - 1]))
    }
}

/// A node's own part of its status.
#[derive(Debug)]
pub struct NodeStatus {
    pub iface: String,
    pub public_key: String,
    pub listen_port: u16,
    pub address: u32,
    pub control_server: String,
}

/// The status of a node as a document.
pub open spec fn status_doc(
    n: NodeStatus,
    v: Seq<PeerSnapshot>,
    endpoints: Seq<Option<Seq<char>>>,
) -> Doc {
    Doc::Object(
        seq![
            (
                "interface"@,
                Doc::Object(
                    seq![
                        ("name"@, Doc::Text(n.iface@)),
                        ("public_key"@, Doc::Text(n.public_key@)),
                        ("listen_port"@, Doc::Number(Num::Unsigned(n.listen_port as u64))),
                        ("address"@, Doc::Text(ipv4_text(n.address))),
                        ("control_server"@, Doc::Text(n.control_server@)),
                        ("peers"@, Doc::Number(Num::Unsigned(v.len() as u64))),
                    ],
                ),
            ),
            ("peers"@, Doc::Array(peer_docs(v, endpoints))),
        ],
    )
}

/// The status of a node and of its peers as a document. `endpoints` are the peers' addresses as
/// they read.
pub fn json_status(n: &NodeStatus, v: &Vec<PeerSnapshot>, endpoints: &Vec<Option<String>>) -> (j:
    Json)
    requires
        v@.len() == endpoints@.len(),
    ensures
        j.doc() == status_doc(*n, v@, opt_texts(endpoints@)),
{
    let ghost es = opt_texts(endpoints@);
    let mut out: Vec<Json> = Vec::new();
    let mut i: usize = 0;
    assert(docs(out@) =~= peer_docs(v@.take(0), es));
    while i < v.len()
        invariant
            i <= v@.len() == endpoints@.len(),
            es == opt_texts(endpoints@),
            docs(out@) == peer_docs(v@.take(i as int), es),
        decreases v@.len() - i,
    {
        let p = peer_json(&v[i], &endpoints[i]);
        proof {
            assert(out@.push(p).drop_last() =~= out@);
            assert(v@.take(i + 1).drop_last() =~= v@.take(i as int));
            assert(es[i as int] == opt_text(endpoints@[i as int]));
        }
        out.push(p);
        i += 1;
    }
    assert(v@.take(v@.len() as int) =~= v@);
    let own = Json::empty().with("name", Json::Text(n.iface.clone())).with(
        "public_key",
        Json::Text(n.public_key.clone()),
    ).with("listen_port", Json::from_u64(n.listen_port as u64)).with(
        "address",
        Json::Text(ipv4_to_text(n.address)),
    ).with("control_server", Json::Text(n.control_server.clone())).with(
        "peers",
        Json::from_u64(v.len() as u64),
    );
    let ghost expected = status_doc(*n, v@, es);
    assert(own.doc()->Object_0 =~= expected->Object_0[0].1->Object_0);
    let j = Json::empty().with("interface", own).with("peers", Json::Array(out));
    assert(j.doc()->Object_0 =~= expected->Object_0);
    j
}

/// Whether a request to the status socket is one of `wg`: it begins with `get=`.
pub fn asks_uapi(request: &[u8]) -> (r: bool)
    ensures
        r == (request@.len() >= 4 && request@[0] == 0x67 && request@[1] == 0x65 && request@[2]
            == 0x74 && request@[3] == 0x3d),
{
    request.len() >= 4 && request[0] == 0x67 && request[1] == 0x65 && request[2] == 0x74
        && request[3] == 0x3d
}

/// Where the status sockets lie. `run` is whether the host has `/run`; `local` is the directory
/// for a user's data on Windows.
pub fn status_dir(os: Os, run: bool, local: &str) -> (s: String)
    ensures
        s@ == if os == Os::Windows {
            local@ + "\\fluxpeer"@
        } else if run {
            "/run/fluxpeer"@
        } else {
            "/tmp/fluxpeer"@
        },
{
    if os == Os::Windows {
        crate::node::host::join2(local, "\\fluxpeer")
    } else if run {
        String::from_str("/run/fluxpeer")
    } else {
        String::from_str("/tmp/fluxpeer")
    }
}

/// The name of a network's status socket: on Windows that of the file that holds its port.
pub fn socket_name(os: Os, iface: &str) -> (s: String)
    ensures
        s@ == iface@ + if os == Os::Windows {
            ".port"@
        } else {
            ".sock"@
        },
{
    if os == Os::Windows {
        crate::node::host::join2(iface, ".port")
    } else {
        crate::node::host::join2(iface, ".sock")
    }
}

/// One more peer adds what it received and what it sent, and nothing else.
pub proof fn traffic_adds_up(v: Seq<PeerSnapshot>, p: PeerSnapshot)
    ensures
        received_from(seq![]) == 0,
        sent_to(seq![]) == 0,
        received_from(v.push(p)) == received_from(v) + p.rx_bytes,
        sent_to(v.push(p)) == sent_to(v) + p.tx_bytes,
{
    assert(v.push(p).drop_last() =~= v);
}

/// The names of what is shown of a peer differ.
proof fn shown_names_differ()
    ensures
        "public_key"@.len() == 10,
        "endpoint"@.len() == 8,
        "transport"@.len() == 9,
        "allowed_ips"@.len() == 11,
        "last_handshake_unix"@.len() == 19,
        "rtt_ms"@.len() == 6,
        "rx_bytes"@.len() == 8,
        "tx_bytes"@.len() == 8,
        "rx_bytes"@[0] == 'r',
        "tx_bytes"@[0] == 't',
        "endpoint"@[0] == 'e',
{
    reveal_strlit("public_key");
    reveal_strlit("endpoint");
    reveal_strlit("transport");
    reveal_strlit("allowed_ips");
    reveal_strlit("last_handshake_unix");
    reveal_strlit("rtt_ms");
    reveal_strlit("rx_bytes");
    reveal_strlit("tx_bytes");
}

/// A report names the peer by its key in hexadecimal and tells what was received and sent apart.
pub proof fn reports_tell_the_traffic(p: PeerSnapshot)
    ensures
        ({
            let d = report_of(p);
            &&& d.text_at("public_key"@) == Some(hex_text(p.pubkey@))
            &&& d.u64_at("rx_bytes"@) == Some(p.rx_bytes)
            &&& d.u64_at("tx_bytes"@) == Some(p.tx_bytes)
            &&& d.u64_at("last_handshake_unix"@) == Some(p.last_handshake_unix)
            &&& p.transport == 1 ==> d.text_at("transport"@) == Some("udp-direct"@)
            &&& p.transport == 2 ==> d.text_at("transport"@) == Some("tcp-direct"@)
            &&& p.transport == 3 ==> d.text_at("transport"@) == Some("relay"@)
        }),
{
    shown_names_differ();
    let f = report_of(p)->Object_0;
    crate::json::fields_are_found(f, "public_key"@, 0);
    crate::json::fields_are_found(f, "rx_bytes"@, 1);
    crate::json::fields_are_found(f, "tx_bytes"@, 2);
    crate::json::fields_are_found(f, "transport"@, 3);
    crate::json::fields_are_found(f, "last_handshake_unix"@, 4);
}

/// A peer is shown with all that is known of it; a round trip only once there was one, in
/// thousandths of a millisecond.
pub proof fn peers_are_shown(p: PeerSnapshot, endpoint: Option<Seq<char>>)
    ensures
        ({
            let d = peer_doc(p, endpoint);
            &&& d.text_at("public_key"@) == Some(hex_text(p.pubkey@))
            &&& d.text_at("endpoint"@) == endpoint
            &&& d.u64_at("rx_bytes"@) == Some(p.rx_bytes)
            &&& d.u64_at("tx_bytes"@) == Some(p.tx_bytes)
            &&& d.u64_at("last_handshake_unix"@) == Some(p.last_handshake_unix)
            &&& p.rtt_us == 0 ==> d.field("rtt_ms"@) == Some(Doc::Null)
            &&& p.rtt_us > 0 ==> d.field("rtt_ms"@) == Some(
                Doc::Number(Num::Thousandths(p.rtt_us)),
            )
            &&& p.transport == 1 ==> d.text_at("transport"@) == Some("udp-direct"@)
            &&& p.transport == 2 ==> d.text_at("transport"@) == Some("tcp-direct"@)
            &&& p.transport == 3 ==> d.text_at("transport"@) == Some("relay"@)
        }),
{
    shown_names_differ();
    let f = peer_doc(p, endpoint)->Object_0;
    crate::json::fields_are_found(f, "public_key"@, 0);
    crate::json::fields_are_found(f, "endpoint"@, 1);
    crate::json::fields_are_found(f, "transport"@, 2);
    crate::json::fields_are_found(f, "allowed_ips"@, 3);
    crate::json::fields_are_found(f, "last_handshake_unix"@, 4);
    crate::json::fields_are_found(f, "rtt_ms"@, 5);
    crate::json::fields_are_found(f, "rx_bytes"@, 6);
    crate::json::fields_are_found(f, "tx_bytes"@, 7);
}

/// Every peer is shown, in order, with its own address.
pub proof fn every_peer_is_shown(
    v: Seq<PeerSnapshot>,
    endpoints: Seq<Option<Seq<char>>>,
    i: int,
)
    requires
        0 <= i < v.len(),
    ensures
        peer_docs(v, endpoints).len() == v.len(),
        peer_docs(v, endpoints)[i] == peer_doc(v[i], endpoints[i]),
    decreases v.len(),
{
    let front = v.drop_last();
    if i < front.len() {
        every_peer_is_shown(front, endpoints, i);
    } else if front.len() > 0 {
        every_peer_is_shown(front, endpoints, 0);
    } else {
        assert(peer_docs(front, endpoints) =~= seq![]);
    }
}

/// The text for WireGuard's tools begins with the node's own key and port, and has the lines of
/// every peer.
#[verifier::spinoff_prover]
pub proof fn tools_see_every_peer(
    v: Seq<PeerSnapshot>,
    endpoints: Seq<Option<Seq<char>>>,
    own_priv_hex: Seq<char>,
    listen_port: u16,
    i: int,
)
    requires
        0 <= i < v.len(),
    ensures
        crate::words::has_part(
            uapi_text(v, endpoints, own_priv_hex, listen_port),
            peer_lines(v[i], endpoints[i]),
        ),
        crate::words::has_prefix(
            uapi_text(v, endpoints, own_priv_hex, listen_port),
            "private_key="@ + own_priv_hex + "\nlisten_port="@ + dec(listen_port as nat),
        ),
{
    let head = "private_key="@ + own_priv_hex + "\nlisten_port="@ + dec(listen_port as nat);
    let front = head + "\nfwmark=0\n"@;
    let lines = all_lines(v, endpoints);
    let end = "errno=0\n\n"@;
    let part = peer_lines(v[i], endpoints[i]);
    lines_hold_each(v, endpoints, i);
    part_of_the_middle(front, lines, end, part);
    crate::words::parts_are_found(seq![], head, "\nfwmark=0\n"@ + lines + end);
    assert(head + ("\nfwmark=0\n"@ + lines + end) =~= front + lines + end);
}

/// What is part of the middle of a text is part of the text.
proof fn part_of_the_middle(a: Seq<char>, b: Seq<char>, c: Seq<char>, part: Seq<char>)
    requires
        crate::words::has_part(b, part),
    ensures
        crate::words::has_part(a + b + c, part),
{
    let k = crate::words::found_parts_are_there(b, part);
    let before = a + b.take(k);
    let after = b.skip(k + part.len()) + c;
    crate::words::parts_are_found(before, part, after);
    assert(a + b + c =~= a + (b.take(k) + part + b.skip(k + part.len())) + c);
    assert(a + (b.take(k) + part + b.skip(k + part.len())) + c =~= before + part + after);
}

/// The lines of a peer begin with its key and tell what it received before what it sent.
#[verifier::spinoff_prover]
pub proof fn tools_see_the_traffic(p: PeerSnapshot, endpoint: Option<Seq<char>>)
    ensures
        crate::words::has_prefix(
            peer_lines(p, endpoint),
            "public_key="@ + hex_text(p.pubkey@) + "\n"@,
        ),
        crate::words::has_part(
            peer_lines(p, endpoint),
            "rx_bytes="@ + dec(p.rx_bytes as nat) + "\ntx_bytes="@ + dec(p.tx_bytes as nat),
        ),
        endpoint matches Some(e) ==> crate::words::has_part(
            peer_lines(p, endpoint),
            "endpoint="@ + e + "\n"@,
        ),
{
    let key = "public_key="@ + hex_text(p.pubkey@) + "\n"@;
    let address = match endpoint {
        Some(e) => "endpoint="@ + e + "\n"@,
        None => seq![],
    };
    let k2 = key + address;
    let k3 = k2 + allowed_lines(crate::text::texts(p.allowed_ips@));
    let k4 = k3 + "last_handshake_time_sec="@;
    let k5 = k4 + dec(p.last_handshake_unix as nat);
    let k6 = k5 + "\nlast_handshake_time_nsec=0\nrx_bytes="@;
    let rx = dec(p.rx_bytes as nat);
    let tx = dec(p.tx_bytes as nat);
    let k7 = k6 + rx;
    let k8 = k7 + "\ntx_bytes="@;
    let k9 = k8 + tx;
    let end = "\npersistent_keepalive_interval=0\n"@;
    assert(peer_lines(p, endpoint) == k9 + end);
    crate::words::parts_are_found(seq![], key, seq![]);
    crate::words::parts_are_found(key, address, seq![]);
    longer_text_has(key, address, key);
    longer_text_has(k2, allowed_lines(crate::text::texts(p.allowed_ips@)), key);
    longer_text_has(k3, "last_handshake_time_sec="@, key);
    longer_text_has(k4, dec(p.last_handshake_unix as nat), key);
    longer_text_has(k5, "\nlast_handshake_time_nsec=0\nrx_bytes="@, key);
    longer_text_has(k6, rx, key);
    longer_text_has(k7, "\ntx_bytes="@, key);
    longer_text_has(k8, tx, key);
    longer_text_has(k9, end, key);
    longer_text_has(k2, allowed_lines(crate::text::texts(p.allowed_ips@)), address);
    longer_text_has(k3, "last_handshake_time_sec="@, address);
    longer_text_has(k4, dec(p.last_handshake_unix as nat), address);
    longer_text_has(k5, "\nlast_handshake_time_nsec=0\nrx_bytes="@, address);
    longer_text_has(k6, rx, address);
    longer_text_has(k7, "\ntx_bytes="@, address);
    longer_text_has(k8, tx, address);
    longer_text_has(k9, end, address);
    traffic_is_a_part(k5, rx, tx);
    longer_text_has(
        k9,
        end,
        "rx_bytes="@ + dec(p.rx_bytes as nat) + "\ntx_bytes="@ + dec(p.tx_bytes as nat),
    );
}

/// What begins a text or is part of it begins a longer one or is part of it.
proof fn longer_text_has(a: Seq<char>, b: Seq<char>, part: Seq<char>)
    ensures
        crate::words::has_prefix(a, part) ==> crate::words::has_prefix(a + b, part),
        crate::words::has_part(a, part) ==> crate::words::has_part(a + b, part),
{
    if crate::words::has_prefix(a, part) {
        assert((a + b).take(part.len() as int) =~= a.take(part.len() as int));
    }
    if crate::words::has_part(a, part) {
        part_of_the_middle(seq![], a, b, part);
        assert(seq![] + a + b =~= a + b);
    }
}

/// The traffic of a peer is a part of its lines.
proof fn traffic_is_a_part(front: Seq<char>, rx: Seq<char>, tx: Seq<char>)
    ensures
        crate::words::has_part(
            front + "\nlast_handshake_time_nsec=0\nrx_bytes="@ + rx + "\ntx_bytes="@ + tx,
            "rx_bytes="@ + rx + "\ntx_bytes="@ + tx,
        ),
{
    reveal_strlit("\nlast_handshake_time_nsec=0\nrx_bytes=");
    reveal_strlit("\nlast_handshake_time_nsec=0\n");
    reveal_strlit("rx_bytes=");
    let nsec = "\nlast_handshake_time_nsec=0\n"@;
    let both = "\nlast_handshake_time_nsec=0\nrx_bytes="@;
    assert(both =~= nsec + "rx_bytes="@);
    let x = front + nsec;
    assert(front + both =~= x + "rx_bytes="@);
    four_in_a_row(x, "rx_bytes="@, rx, "\ntx_bytes="@, tx);
    crate::words::parts_are_found(x, "rx_bytes="@ + rx + "\ntx_bytes="@ + tx, seq![]);
}

/// It does not matter in which order texts are put together.
proof fn four_in_a_row(x: Seq<char>, a: Seq<char>, b: Seq<char>, c: Seq<char>, d: Seq<char>)
    ensures
        x + a + b + c + d == x + (a + b + c + d),
{
    assert(x + a + b + c + d =~= x + (a + b + c + d));
}

/// The lines of each peer are among those of all.
proof fn lines_hold_each(v: Seq<PeerSnapshot>, endpoints: Seq<Option<Seq<char>>>, i: int)
    requires
        0 <= i < v.len(),
    ensures
        crate::words::has_part(all_lines(v, endpoints), peer_lines(v[i], endpoints[i])),
    decreases v.len(),
{
    let front = all_lines(v.drop_last(), endpoints);
    let part = peer_lines(v[i], endpoints[i]);
    let all = all_lines(v, endpoints);
    if i == v.len() - 1 {
        assert(all.subrange(front.len() as int, front.len() + part.len() as int) =~= part);
        assert(crate::words::has_part_at(all, part, front.len() as int));
    } else {
        lines_hold_each(v.drop_last(), endpoints, i);
        let k = choose|k: int| crate::words::has_part_at(front, part, k);
        assert(all.subrange(k, k + part.len() as int) =~= front.subrange(k, k + part.len() as int));
        assert(crate::words::has_part_at(all, part, k));
    }
}

/// The status of a node tells its interface, its own address as dotted text, how many peers there
/// are, and each of them.
pub proof fn status_is_told(n: NodeStatus, v: Seq<PeerSnapshot>, endpoints: Seq<Option<Seq<char>>>)
    requires
        v.len() <= u64::MAX,
    ensures
        ({
            let d = status_doc(n, v, endpoints);
            &&& d.field("peers"@) == Some(Doc::Array(peer_docs(v, endpoints)))
            &&& d.field("interface"@) matches Some(i) && {
                &&& i.text_at("name"@) == Some(n.iface@)
                &&& i.text_at("public_key"@) == Some(n.public_key@)
                &&& i.u64_at("listen_port"@) == Some(n.listen_port as u64)
                &&& i.text_at("address"@) == Some(ipv4_text(n.address))
                &&& i.text_at("control_server"@) == Some(n.control_server@)
                &&& i.u64_at("peers"@) == Some(v.len() as u64)
            }
        }),
{
    reveal_strlit("interface");
    reveal_strlit("peers");
    reveal_strlit("name");
    reveal_strlit("public_key");
    reveal_strlit("listen_port");
    reveal_strlit("address");
    reveal_strlit("control_server");
    assert("interface"@.len() == 9 && "peers"@.len() == 5 && "name"@.len() == 4
        && "public_key"@.len() == 10 && "listen_port"@.len() == 11 && "address"@.len() == 7
        && "control_server"@.len() == 14);
    let f = status_doc(n, v, endpoints)->Object_0;
    crate::json::fields_are_found(f, "interface"@, 0);
    crate::json::fields_are_found(f, "peers"@, 1);
    let g = f[0].1->Object_0;
    crate::json::fields_are_found(g, "name"@, 0);
    crate::json::fields_are_found(g, "public_key"@, 1);
    crate::json::fields_are_found(g, "listen_port"@, 2);
    crate::json::fields_are_found(g, "address"@, 3);
    crate::json::fields_are_found(g, "control_server"@, 4);
    crate::json::fields_are_found(g, "peers"@, 5);
}

/// Each network of a peer has a line of its own.
pub proof fn networks_have_lines(ips: Seq<Seq<char>>, ip: Seq<char>)
    ensures
        allowed_lines(seq![]).len() == 0,
        allowed_lines(ips.push(ip)) == allowed_lines(ips) + ("allowed_ip="@ + ip + "\n"@),
{
    assert(ips.push(ip).drop_last() =~= ips);
    assert(allowed_lines(ips.push(ip)) =~= allowed_lines(ips) + ("allowed_ip="@ + ip + "\n"@));
}

/// A report has as many entries as there are peers, each about its own.
pub proof fn every_peer_is_reported(v: Seq<PeerSnapshot>, i: int)
    requires
        0 <= i < v.len(),
    ensures
        reports_of(v).len() == v.len(),
        reports_of(v)[i] == report_of(v[i]),
{
}

} // verus!
