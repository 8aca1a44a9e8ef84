//! What the control server says: the node's settings, its peers and the relays.

use crate::digest::{hex32, parse_hex32};
use crate::ipv4::parse_ipv4;
use crate::json::{texts_at, Json};
use crate::mesh::disco::Disco;
use crate::mesh::reconcile::PeerInfo;
use crate::net::SocketAddr;
use crate::node::host::join2;
use vstd::prelude::*;
use vstd::string::StringExecFns;

verus! {

/// The MTU that a document sets, kept to 32 bits.
pub open spec fn mtu_of(conf: Json) -> Option<i32> {
    match conf.i64_at("mtu"@) {
        Some(m) => Some(m as i32),
        None => None,
    }
}

/// Reads the settings that the network's administrator made: the MTU and the name servers.
pub fn parse_settings(conf: &Json) -> (r: (Option<i32>, Vec<String>))
    ensures
        r.0 == mtu_of(*conf),
        crate::text::texts(r.1@) == crate::json::texts_among(conf.items_at("dns"@)),
{
    let mtu: Option<i32> = match conf.get_i64("mtu") {
        Some(m) => Some(
            #[verifier::truncate]
            (m as i32),
        ),
        None => None,
    };
    (mtu, texts_at(conf, "dns"))
}

/// A relay in the directory. Addresses are texts.
#[derive(Debug)]
pub struct RelayDir {
    pub url: String,
    pub anytls: bool,
    pub node_id: String,
    pub stun: Option<String>,
}

/// A relay as a value.
pub struct RelayEntry {
    pub url: Seq<char>,
    pub anytls: bool,
    pub node_id: Seq<char>,
    pub stun: Option<Seq<char>>,
}

impl RelayDir {
    /// The relay as a value.
    pub open spec fn view(&self) -> RelayEntry {
        RelayEntry {
            url: self.url@,
            anytls: self.anytls,
            node_id: self.node_id@,
            stun: match self.stun {
                Some(s) => Some(s@),
                None => None,
            },
        }
    }
}

/// The relay that a document describes; none where it has no address.
pub open spec fn relay_of(r: Json) -> Option<RelayEntry> {
    match r.text_at("url"@) {
        Some(url) => Some(
            RelayEntry {
                url,
                anytls: r.bool_at("anytls"@) == Some(true),
                node_id: match r.text_at("id"@) {
                    Some(id) => id,
                    None => "fluxpeer-relay"@,
                },
                stun: r.text_at("stun_url"@),
            },
        ),
        None => None,
    }
}

/// The relays among some documents.
pub open spec fn relays_among(items: Seq<Json>) -> Seq<RelayEntry>
    decreases items.len(),
{
    if items.len() == 0 {
        seq![]
    } else {
        let before = relays_among(items.drop_last());
        match relay_of(items.last()) {
            Some(r) => before.push(r),
            None => before,
        }
    }
}

/// Some relays as values.
pub open spec fn relay_entries(v: Seq<RelayDir>) -> Seq<RelayEntry> {
    v.map_values(|r: RelayDir| r@)
}

/// Copies an optional text.
fn copy_text(s: Option<&str>) -> (r: Option<String>)
    ensures
        s is Some <==> r is Some,
        s matches Some(t) ==> r matches Some(u) && u@ == t@,
{
    match s {
        Some(t) => Some(String::from_str(t)),
        None => None,
    }
}

/// Reads a relay.
fn parse_relay(r: &Json) -> (out: Option<RelayDir>)
    ensures
        out is Some <==> relay_of(*r) is Some,
        out matches Some(d) ==> relay_of(*r) == Some(d@),
{
    match r.str_at("url") {
        Some(url) => {
            let node_id = match r.str_at("id") {
                Some(id) => String::from_str(id),
                None => String::from_str("fluxpeer-relay"),
            };
            let anytls: bool = match r.get_bool("anytls") {
                Some(b) => b,
                None => false,
            };
            Some(
                RelayDir {
                    url: String::from_str(url),
                    anytls,
                    node_id,
                    stun: copy_text(r.str_at("stun_url")),
                },
            )
        },
        None => None,
    }
}

/// Reads the directory of relays; none where there is none.
pub fn parse_relays(conf: &Json) -> (out: Vec<RelayDir>)
    ensures
        relay_entries(out@) == relays_among(conf.items_at("relays"@)),
{
    let mut out: Vec<RelayDir> = Vec::new();
    assert(relay_entries(out@) =~= seq![]);
    match conf.array_at("relays") {
        Some(items) => {
            let mut i: usize = 0;
            assert(items@.take(0) =~= seq![]);
            while i < items.len()
                invariant
                    i <= items@.len(),
                    relay_entries(out@) == relays_among(items@.take(i as int)),
                decreases items@.len() - i,
            {
                assert(items@.take(i + 1).drop_last() =~= items@.take(i as int));
                match parse_relay(&items[i]) {
                    Some(d) => {
                        let ghost before = out@;
                        out.push(d);
                        assert(relay_entries(out@) =~= relay_entries(before).push(d@));
                    },
                    None => {},
                }
                i += 1;
            }
            assert(items@.take(items@.len() as int) =~= items@);
        },
        None => {},
    }
    out
}

/// A peer as the control server describes it. Addresses are texts.
#[derive(Debug)]
pub struct PeerRecord {
    pub pubkey: [u8; 32],
    pub endpoints: Vec<String>,
    pub allowed_ips: Vec<String>,
    pub overlay: Option<u32>,
}

/// A peer as a value.
pub struct Listed {
    pub pubkey: Seq<u8>,
    pub endpoints: Seq<Seq<char>>,
    pub allowed: Seq<Seq<char>>,
    pub overlay: Option<u32>,
}

impl PeerRecord {
    /// The peer as a value.
    pub open spec fn view(&self) -> Listed {
        Listed {
            pubkey: self.pubkey@,
            endpoints: crate::text::texts(self.endpoints@),
            allowed: crate::text::texts(self.allowed_ips@),
            overlay: self.overlay,
        }
    }
}

/// The peer that a document describes; none where it has no key.
pub open spec fn peer_of(p: Json) -> Option<Listed> {
    match p.text_at("wg_public_key"@) {
        Some(pk) => Some(
            Listed {
                pubkey: crate::digest::hex_bytes(pk),
                endpoints: crate::json::texts_among(p.items_at("endpoints"@)),
                allowed: crate::json::texts_among(p.items_at("allowed_ips"@)),
                overlay: match p.text_at("address_v4"@) {
                    Some(a) => crate::ipv4::ipv4_of(a),
                    None => None,
                },
            },
        ),
        None => None,
    }
}

/// Whether a peer's key, where it has one, is a key.
pub open spec fn key_valid(p: Json) -> bool {
    p.text_at("wg_public_key"@) matches Some(pk) ==> crate::digest::is_hex(pk) && pk.len() == 64
}

/// Whether every peer's key is a key.
pub open spec fn keys_valid(conf: Json) -> bool {
    forall|i: int|
        0 <= i < conf.items_at("peers"@).len() ==> key_valid(#[trigger] conf.items_at("peers"@)[i])
}

/// Checks that every peer's key is a key.
pub fn check_keys(conf: &Json) -> (r: bool)
    ensures
        r == keys_valid(*conf),
{
    match conf.array_at("peers") {
        Some(items) => {
            let mut i: usize = 0;
            while i < items.len()
                invariant
                    i <= items@.len(),
                    items@ == conf.items_at("peers"@),
                    forall|j: int| 0 <= j < i ==> key_valid(#[trigger] items@[j]),
                decreases items@.len() - i,
            {
                match items[i].str_at("wg_public_key") {
                    Some(pk) => {
                        if parse_hex32(pk).is_none() {
                            assert(!key_valid(items@[i as int]));
                            return false;
                        }
                    },
                    None => {},
                }
                i += 1;
            }
            true
        },
        None => true,
    }
}

/// The peers among some documents.
pub open spec fn peers_among(items: Seq<Json>) -> Seq<Listed>
    decreases items.len(),
{
    if items.len() == 0 {
        seq![]
    } else {
        let before = peers_among(items.drop_last());
        match peer_of(items.last()) {
            Some(p) => before.push(p),
            None => before,
        }
    }
}

/// Some peers as values.
pub open spec fn listed(v: Seq<PeerRecord>) -> Seq<Listed> {
    v.map_values(|p: PeerRecord| p@)
}

/// Reads a peer.
fn parse_peer(p: &Json) -> (out: Option<PeerRecord>)
    requires
        key_valid(*p),
    ensures
        out is Some <==> peer_of(*p) is Some,
        out matches Some(d) ==> peer_of(*p) == Some(d@),
{
    match p.str_at("wg_public_key") {
        Some(pk) => {
            let overlay: Option<u32> = match p.str_at("address_v4") {
                Some(a) => parse_ipv4(a),
                None => None,
            };
            Some(
                PeerRecord {
                    pubkey: hex32(pk),
                    endpoints: texts_at(p, "endpoints"),
                    allowed_ips: texts_at(p, "allowed_ips"),
                    overlay,
                },
            )
        },
        None => None,
    }
}

/// Reads the peers of the node.
pub fn parse_peers(conf: &Json) -> (out: Vec<PeerRecord>)
    requires
        keys_valid(*conf),
    ensures
        listed(out@) == peers_among(conf.items_at("peers"@)),
{
    let mut out: Vec<PeerRecord> = Vec::new();
    assert(listed(out@) =~= seq![]);
    match conf.array_at("peers") {
        Some(items) => {
            let mut i: usize = 0;
            assert(items@.take(0) =~= seq![]);
            while i < items.len()
                invariant
                    i <= items@.len(),
                    keys_valid(*conf),
                    items@ == conf.items_at("peers"@),
                    listed(out@) == peers_among(items@.take(i as int)),
                decreases items@.len() - i,
            {
                assert(items@.take(i + 1).drop_last() =~= items@.take(i as int));
                match parse_peer(&items[i]) {
                    Some(d) => {
                        let ghost before = out@;
                        out.push(d);
                        assert(listed(out@) =~= listed(before).push(d@));
                    },
                    None => {},
                }
                i += 1;
            }
            assert(items@.take(items@.len() as int) =~= items@);
        },
        None => {},
    }
    out
}

/// The addresses that were read, in order.
pub open spec fn present(v: Seq<Option<SocketAddr>>) -> Seq<SocketAddr>
    decreases v.len(),
{
    if v.len() == 0 {
        seq![]
    } else {
        let before = present(v.drop_last());
        match v.last() {
            Some(a) => before.push(a),
            None => before,
        }
    }
}

/// A peer with its addresses read: `addrs` has what each endpoint's text stands for, and texts that
/// are no addresses are left out.
pub fn with_addresses(record: PeerRecord, addrs: &Vec<Option<SocketAddr>>) -> (p: PeerInfo)
    ensures
        p.pubkey == record.pubkey,
        p.allowed_ips == record.allowed_ips,
        p.overlay == record.overlay,
        p.candidates@ == present(addrs@),
{
    let mut candidates: Vec<SocketAddr> = Vec::new();
    let mut i: usize = 0;
    assert(addrs@.take(0) =~= seq![]);
    while i < addrs.len()
        invariant
            i <= addrs@.len(),
            candidates@ == present(addrs@.take(i as int)),
        decreases addrs@.len() - i,
    {
        assert(addrs@.take(i + 1).drop_last() =~= addrs@.take(i as int));
        match addrs[i] {
            Some(a) => candidates.push(a),
            None => {},
        }
        i += 1;
    }
    assert(addrs@.take(addrs@.len() as int) =~= addrs@);
    PeerInfo {
        pubkey: record.pubkey,
        candidates,
        allowed_ips: record.allowed_ips,
        overlay: record.overlay,
    }
}

/// The generation of a configuration, zero where it has none.
pub open spec fn epoch_of(conf: Json) -> u64 {
    match conf.u64_at("config_epoch"@) {
        Some(n) => n,
        None => 0,
    }
}

/// Reads the generation of a configuration.
pub fn config_epoch(conf: &Json) -> (n: u64)
    ensures
        n == epoch_of(*conf),
{
    match conf.get_u64("config_epoch") {
        Some(n) => n,
        None => 0,
    }
}

/// Whether a configuration is of another generation than the last one; it is the last one from
/// then on.
pub fn config_changed(conf: &Json, last_epoch: &mut u64) -> (changed: bool)
    ensures
        changed == (epoch_of(*conf) != *old(last_epoch)),
        *final(last_epoch) == epoch_of(*conf),
{
    let epoch: u64 = config_epoch(conf);
    if epoch == *last_epoch {
        return false;
    }
    *last_epoch = epoch;
    true
}

/// How many times the node asks for its address before it gives up.
pub const RESOLVE_ATTEMPTS: u32 = 15;

/// The node's attempts to learn its own address.
#[derive(Debug)]
pub struct Resolving {
    pub attempt: u32,
    pub last_err: Option<String>,
}

/// What came of asking.
#[derive(Debug)]
pub enum Reply {
    /// A configuration.
    Config(Json),
    /// An error, as text.
    Failed(String),
}

/// What the node does next.
#[derive(Debug)]
pub enum ResolveStep {
    /// It has its address.
    Done(u32),
    /// It rests for so many milliseconds and asks again.
    Rest(u64),
    /// It rests for so many milliseconds and gives up, for this reason.
    GiveUp(u64, String),
}

/// The address that a configuration assigns to the node.
pub open spec fn own_address(conf: Json) -> Option<u32> {
    match conf.text_at("address_v4"@) {
        Some(a) => crate::ipv4::ipv4_of(a),
        None => None,
    }
}

/// How long the node rests after an attempt.
pub open spec fn rest_after(attempt: u32) -> u64 {
    if attempt < 4 {
        200
    } else {
        500
    }
}

/// Why the node gave up.
pub open spec fn no_address_text(last_err: Option<Seq<char>>) -> Seq<char> {
    match last_err {
        Some(e) => "control-server gave no own address: "@ + e,
        None => "control-server gave no own address"@,
    }
}

impl Resolving {
    /// The last error as a value.
    pub open spec fn error(self) -> Option<Seq<char>> {
        match self.last_err {
            Some(e) => Some(e@),
            None => None,
        }
    }

    /// The error once a reply was taken in.
    pub open spec fn error_after(self, reply: Reply) -> Option<Seq<char>> {
        match reply {
            Reply::Failed(e) => Some(e@),
            Reply::Config(_) => self.error(),
        }
    }

    /// Nothing was asked yet.
    pub fn new() -> (r: Resolving)
        ensures
            r.attempt == 0,
            r.last_err is None,
    {
        Resolving { attempt: 0, last_err: None }
    }

    /// Takes in a reply. The node needs its own address only; peers without addresses are found
    /// later.
    pub fn step(&mut self, reply: &Reply) -> (s: ResolveStep)
        requires
            old(self).attempt < RESOLVE_ATTEMPTS,
        ensures
            ({
                let found = match *reply {
                    Reply::Config(conf) => own_address(conf),
                    Reply::Failed(_) => None,
                };
                match found {
                    Some(a) => {
                        &&& s == ResolveStep::Done(a)
                        &&& final(self).attempt == old(self).attempt
                        &&& final(self).error() == old(self).error()
                    },
                    None => {
                        &&& final(self).attempt == old(self).attempt + 1
                        &&& final(self).error() == old(self).error_after(*reply)
                        &&& if old(self).attempt + 1 < RESOLVE_ATTEMPTS {
                            s == ResolveStep::Rest(rest_after(old(self).attempt))
                        } else {
                            &&& s matches ResolveStep::GiveUp(ms, why)
                            &&& ms == rest_after(old(self).attempt)
                            &&& why@ == no_address_text(old(self).error_after(*reply))
                        }
                    },
                }
            }),
    {
        match reply {
            Reply::Config(conf) => {
                match conf.str_at("address_v4") {
                    Some(a) => match parse_ipv4(a) {
                        Some(ip) => {
                            return ResolveStep::Done(ip);
                        },
                        None => {},
                    },
                    None => {},
                }
            },
            Reply::Failed(e) => {
                self.last_err = Some(e.clone());
            },
        }
        let ms: u64 = if self.attempt < 4 {
            200
        } else {
            500
        };
        self.attempt = self.attempt + 1;
        if self.attempt < RESOLVE_ATTEMPTS {
            ResolveStep::Rest(ms)
        } else {
            let why = match &self.last_err {
                Some(e) => join2("control-server gave no own address: ", e.as_str()),
                None => String::from_str("control-server gave no own address"),
            };
            ResolveStep::GiveUp(ms, why)
        }
    }
}

/// How many times the node asks a STUN server.
pub const STUN_ATTEMPTS: u32 = 5;

/// The node's public address, if a datagram from `from` is the answer to the query `tx_id` that was
/// sent to `stun`: it comes from there and echoes the query's id.
pub fn stun_answer(stun: SocketAddr, from: SocketAddr, tx_id: &[u8; 12], message: &Option<Disco>) -> (
    r: Option<SocketAddr>)
    ensures
        r == (match *message {
            Some(Disco::Pong { tx_id: echo, observed }) => if from == stun && echo@ == tx_id@ {
                Some(observed)
            } else {
                None
            },
            _ => None,
        }),
{
    match message {
        Some(Disco::Pong { tx_id: echo, observed }) => {
            if from == stun && crate::wire::bytes_eq(echo.as_slice(), tx_id.as_slice()) {
                Some(*observed)
            } else {
                None
            }
        },
        _ => None,
    }
}

/// Every listed relay that has an address is taken, with what the entry says of it; one without an
/// id is known under the common one.
pub proof fn relays_with_an_address_are_taken(items: Seq<Json>, i: int)
    requires
        0 <= i < items.len(),
        items[i].text_at("url"@) is Some,
    ensures
        exists|k: int|
            0 <= k < relays_among(items).len() && (#[trigger] relays_among(items)[k]).url
                == items[i].text_at("url"@)->Some_0 && relays_among(items)[k].anytls == (
            items[i].bool_at("anytls"@) == Some(true)) && relays_among(items)[k].stun
                == items[i].text_at("stun_url"@) && (items[i].text_at("id"@) matches Some(id)
                ==> relays_among(items)[k].node_id == id) && (items[i].text_at("id"@) is None
                ==> relays_among(items)[k].node_id == "fluxpeer-relay"@),
    decreases items.len(),
{
    let front = relays_among(items.drop_last());
    let all = relays_among(items);
    if i == items.len() - 1 {
        assert(all[front.len() as int] == relay_of(items[i])->Some_0);
    } else {
        relays_with_an_address_are_taken(items.drop_last(), i);
        let k = choose|k: int|
            0 <= k < front.len() && (#[trigger] front[k]).url == items[i].text_at("url"@)->Some_0
                && front[k].anytls == (items[i].bool_at("anytls"@) == Some(true)) && front[k].stun
                == items[i].text_at("stun_url"@) && (items[i].text_at("id"@) matches Some(id)
                ==> front[k].node_id == id) && (items[i].text_at("id"@) is None
                ==> front[k].node_id == "fluxpeer-relay"@);
        assert(all[k] == front[k]);
    }
}

/// Nothing is taken that is not listed with an address.
pub proof fn relays_are_listed(items: Seq<Json>)
    ensures
        relays_among(items).len() <= items.len(),
        (forall|i: int| 0 <= i < items.len() ==> (#[trigger] items[i]).text_at("url"@) is Some)
            ==> relays_among(items).len() == items.len(),
        (forall|i: int| 0 <= i < items.len() ==> (#[trigger] items[i]).text_at("url"@) is None)
            ==> relays_among(items).len() == 0,
    decreases items.len(),
{
    if items.len() > 0 {
        let front = items.drop_last();
        relays_are_listed(front);
        assert(items[items.len() - 1] == items.last());
        if forall|i: int| 0 <= i < items.len() ==> (#[trigger] items[i]).text_at("url"@) is Some {
            assert forall|i: int| 0 <= i < front.len() implies (#[trigger] front[i]).text_at(
                "url"@,
            ) is Some by {
                assert(front[i] == items[i]);
            }
        }
        if forall|i: int| 0 <= i < items.len() ==> (#[trigger] items[i]).text_at("url"@) is None {
            assert forall|i: int| 0 <= i < front.len() implies (#[trigger] front[i]).text_at(
                "url"@,
            ) is None by {
                assert(front[i] == items[i]);
            }
        }
    }
}

/// A member is read as it was written: its key from its hexadecimal text, its address from its
/// dotted text.
pub proof fn members_read_back(p: Json, key: Seq<u8>, address: u32)
    requires
        key.len() == 32,
        p.text_at("wg_public_key"@) == Some(crate::digest::hex_text(key)),
    ensures
        key_valid(p),
        peer_of(p) matches Some(m) && {
            &&& m.pubkey == key
            &&& p.text_at("address_v4"@) == Some(crate::ipv4::ipv4_text(address)) ==> m.overlay
                == Some(address)
            &&& p.text_at("address_v4"@) is None ==> m.overlay is None
            &&& m.endpoints == crate::json::texts_among(p.items_at("endpoints"@))
            &&& m.allowed == crate::json::texts_among(p.items_at("allowed_ips"@))
        },
{
    crate::digest::hex_round_trip(key);
    crate::ipv4::ipv4_round_trip(address);
}

/// Every listed member that has a key is taken, in the order of the list.
pub proof fn members_with_a_key_are_taken(items: Seq<Json>, i: int)
    requires
        0 <= i < items.len(),
        peer_of(items[i]) is Some,
    ensures
        peers_among(items).contains(peer_of(items[i])->Some_0),
        peers_among(items).len() <= items.len(),
    decreases items.len(),
{
    let front = peers_among(items.drop_last());
    let all = peers_among(items);
    members_at_most(items);
    if i == items.len() - 1 {
        assert(all[front.len() as int] == peer_of(items[i])->Some_0);
    } else {
        members_with_a_key_are_taken(items.drop_last(), i);
        let m = peer_of(items[i])->Some_0;
        let k = choose|k: int| 0 <= k < front.len() && front[k] == m;
        assert(all[k] == m);
    }
}

/// No more members are taken than are listed.
proof fn members_at_most(items: Seq<Json>)
    ensures
        peers_among(items).len() <= items.len(),
    decreases items.len(),
{
    if items.len() > 0 {
        members_at_most(items.drop_last());
    }
}

/// The addresses that were found are kept, and nothing else.
pub proof fn found_addresses_are_kept(v: Seq<Option<SocketAddr>>, a: SocketAddr)
    ensures
        present(v).contains(a) <==> v.contains(Some(a)),
        present(v).len() <= v.len(),
    decreases v.len(),
{
    if v.len() > 0 {
        let front = v.drop_last();
        let before = present(front);
        let all = present(v);
        found_addresses_are_kept(front, a);
        if v.contains(Some(a)) {
            let i = choose|i: int| 0 <= i < v.len() && v[i] == Some(a);
            if i == v.len() - 1 {
                assert(all[before.len() as int] == a);
            } else {
                assert(front[i] == Some(a));
                let k = choose|k: int| 0 <= k < before.len() && before[k] == a;
                assert(all[k] == a);
            }
        }
        if all.contains(a) {
            let k = choose|k: int| 0 <= k < all.len() && all[k] == a;
            if k < before.len() {
                assert(before[k] == a);
                let i = choose|i: int| 0 <= i < front.len() && front[i] == Some(a);
                assert(v[i] == Some(a));
            } else {
                assert(v[v.len() - 1] == Some(a));
            }
        }
    }
}

/// A node's own address is read back, its epoch is the one it was given, and it waits longer once it
/// has asked four times.
pub proof fn own_settings_are_read(conf: Json, address: u32, epoch: u64, attempt: u32)
    ensures
        conf.text_at("address_v4"@) == Some(crate::ipv4::ipv4_text(address)) ==> own_address(conf)
            == Some(address),
        conf.text_at("address_v4"@) is None ==> own_address(conf) is None,
        conf.u64_at("config_epoch"@) == Some(epoch) ==> epoch_of(conf) == epoch,
        conf.u64_at("config_epoch"@) is None ==> epoch_of(conf) == 0,
        attempt <= 3 ==> rest_after(attempt) == 200,
        attempt >= 4 ==> rest_after(attempt) == 500,
{
    crate::ipv4::ipv4_round_trip(address);
}

/// A node that gives up says why: the last error that the server answered with, where there was
/// one.
pub proof fn last_error_is_told(r: Resolving, e: String, conf: Json)
    ensures
        r.error_after(Reply::Failed(e)) == Some(e@),
        r.error_after(Reply::Config(conf)) == r.error(),
        no_address_text(Some(e@)).skip(no_address_text(Some(e@)).len() - e@.len()) == e@,
        crate::words::has_prefix(no_address_text(Some(e@)), "control-server gave no own address"@),
        no_address_text(None) == "control-server gave no own address"@,
{
    reveal_strlit("control-server gave no own address: ");
    reveal_strlit("control-server gave no own address");
    let t = no_address_text(Some(e@));
    assert(t.skip(t.len() - e@.len()) =~= e@);
    assert(t.take("control-server gave no own address"@.len() as int)
        =~= "control-server gave no own address"@);
}

/// A list is refused for one bad key: one that is no hexadecimal text of 32 bytes. A member without
/// a key does no harm.
pub proof fn bad_keys_are_refused(conf: Json, i: int)
    requires
        0 <= i < conf.items_at("peers"@).len(),
    ensures
        conf.items_at("peers"@)[i].text_at("wg_public_key"@) matches Some(pk) ==> (pk.len() != 64
            || !crate::digest::is_hex(pk) ==> !keys_valid(conf)),
        conf.items_at("peers"@).len() == 1 && conf.items_at("peers"@)[i].text_at(
            "wg_public_key"@,
        ) is None ==> keys_valid(conf),
        conf.items_at("peers"@)[i].text_at("wg_public_key"@) is None ==> peer_of(
            conf.items_at("peers"@)[i],
        ) is None,
{
    let p = conf.items_at("peers"@)[i];
    if !key_valid(p) {
        assert(!keys_valid(conf));
    }
}

/// The largest packet is the one that the settings give.
pub proof fn packet_size_is_as_set(conf: Json)
    ensures
        conf.i64_at("mtu"@) matches Some(m) ==> (0 <= m <= 65535 ==> mtu_of(conf) == Some(
            m as i32,
        )),
        conf.i64_at("mtu"@) is None ==> mtu_of(conf) is None,
        conf.u64_at("mtu"@) matches Some(m) ==> (m <= 65535 ==> mtu_of(conf) == Some(m as i32)),
{
}

/// A node asks fifteen times for its address, and five times how others see it.
pub proof fn attempts_are_limited()
    ensures
        RESOLVE_ATTEMPTS == 15,
        STUN_ATTEMPTS == 5,
{
}

} // verus!
