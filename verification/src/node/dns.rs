//! Where the host looks names up while everything goes into the tunnel: OpenWrt's dnsmasq,
//! systemd's resolver, or the plain resolver file.

use crate::node::host::{
    acts, cmd, join2, no_steps, push_run, push_step, run, strs, Act, Command, Step,
};
use crate::node::sorted::{
    entries, get_value, in_order, place, put, put_keeps_order, put_then_value, put_value,
    read_table, table_reads_back, table_text, take_lines, value_of, writable, write_table, Entry,
};
use crate::text::{has_text, same_text};
use crate::words::{split_words, trim_text};
use vstd::prelude::*;
use vstd::string::StringExecFns;

verus! {

/// What the host says of its resolver.
#[derive(Debug)]
pub struct DnsHost {
    /// The state file, where there is one.
    pub state: Option<String>,
    /// What `uci` prints of `dhcp.@dnsmasq[0].noresolv`, where it prints anything.
    pub noresolv: Option<String>,
    /// What `uci` prints of `dhcp.@dnsmasq[0].server`, where it prints anything.
    pub servers: Option<String>,
}

/// What the host says of its resolver, as a value.
pub struct DnsFacts {
    pub state: Option<Seq<char>>,
    pub noresolv: Option<Seq<char>>,
    pub servers: Option<Seq<char>>,
}

/// A text that may be missing, as a value.
pub open spec fn opt_text(s: Option<String>) -> Option<Seq<char>> {
    match s {
        Some(t) => Some(t@),
        None => None,
    }
}

impl DnsHost {
    /// What the host says, as a value.
    pub open spec fn view(&self) -> DnsFacts {
        DnsFacts {
            state: opt_text(self.state),
            noresolv: opt_text(self.noresolv),
            servers: opt_text(self.servers),
        }
    }
}

/// A way to tell the host where to look names up.
pub trait Dns {
    /// The name of the way.
    spec fn label(&self) -> Seq<char>;

    /// What sets the name server.
    spec fn set_acts(&self, dns: Seq<char>, host: DnsFacts) -> Seq<Act>;

    /// What undoes it.
    spec fn clear_acts(&self, host: DnsFacts) -> Seq<Act>;

    /// The name of the way.
    fn name(&self) -> (s: &'static str)
        ensures
            s@ == self.label(),
    ;

    /// Sets the name server.
    fn set(&self, dns: &str, host: &DnsHost) -> (out: Vec<Step>)
        ensures
            acts(out@) == self.set_acts(dns@, host@),
    ;

    /// Goes back to the name servers from before.
    fn clear(&self, host: &DnsHost) -> (out: Vec<Step>)
        ensures
            acts(out@) == self.clear_acts(host@),
    ;
}

/// The dnsmasq of OpenWrt.
#[derive(Debug)]
pub struct OpenWrtDnsmasq;

/// The resolver of systemd.
#[derive(Debug)]
pub struct Resolvectl {
    pub iface: Option<String>,
}

/// The resolver file.
#[derive(Debug)]
pub struct ResolvConf;

/// What `uci` printed, blanks aside, where that is anything.
pub open spec fn uci_value(printed: Option<Seq<char>>) -> Option<Seq<char>> {
    match printed {
        Some(s) if crate::words::trim(s).len() > 0 => Some(crate::words::trim(s)),
        _ => None,
    }
}

/// What `uci` printed, blanks aside, where that is anything.
fn uci_get(printed: &Option<String>) -> (r: Option<String>)
    ensures
        opt_text(r) == uci_value(opt_text(*printed)),
{
    match printed {
        Some(s) => {
            let t = trim_text(s.as_str());
            if t.as_str().is_empty() {
                None
            } else {
                Some(t)
            }
        },
        None => None,
    }
}

/// The table of a state file.
pub open spec fn state_of(raw: Option<Seq<char>>) -> Seq<Entry> {
    match raw {
        Some(s) => take_lines(crate::words::lines(s)),
        None => seq![],
    }
}

/// Reads the state file.
fn read_state(raw: &Option<String>) -> (v: Vec<(String, String)>)
    ensures
        entries(v@) == state_of(opt_text(*raw)),
{
    match raw {
        Some(s) => read_table(s.as_str()),
        None => {
            let v: Vec<(String, String)> = Vec::new();
            assert(entries(v@) =~= seq![]);
            v
        },
    }
}

/// What is remembered when a name server is set: the option from before, unless it is remembered
/// already, and the server.
pub open spec fn remembered(
    state: Seq<Entry>,
    dns: Seq<char>,
    noresolv: Option<Seq<char>>,
) -> Seq<Entry> {
    let s = if value_of(state, "had_noresolv"@) is Some {
        state
    } else {
        match noresolv {
            Some(v) => put(put(state, "had_noresolv"@, "1"@), "noresolv"@, v),
            None => put(state, "had_noresolv"@, "0"@),
        }
    };
    put(s, "dns"@, dns)
}

/// Writing the changed options out.
pub open spec fn commit_acts() -> Seq<Act> {
    seq![run("uci"@, seq!["commit"@, "dhcp"@]), run("/etc/init.d/dnsmasq"@, seq!["restart"@])]
}

/// What puts the option from before back.
pub open spec fn restore_acts(state: Seq<Entry>) -> Seq<Act> {
    match value_of(state, "had_noresolv"@) {
        Some(had) => if had == "1"@ {
            let value = match value_of(state, "noresolv"@) {
                Some(v) => v,
                None => "0"@,
            };
            seq![run("uci"@, seq!["set"@, "dhcp.@dnsmasq[0].noresolv="@ + value])]
        } else if had == "0"@ {
            seq![run("uci"@, seq!["delete"@, "dhcp.@dnsmasq[0].noresolv"@])]
        } else {
            seq![]
        },
        None => seq![],
    }
}

/// What takes the server out again.
pub open spec fn unlist_acts(state: Seq<Entry>) -> Seq<Act> {
    match value_of(state, "dns"@) {
        Some(dns) => seq![run("uci"@, seq!["del_list"@, "dhcp.@dnsmasq[0].server="@ + dns])],
        None => seq![],
    }
}

/// What adds the server, unless it is among those that are there.
pub open spec fn list_acts(dns: Seq<char>, servers: Option<Seq<char>>) -> Seq<Act> {
    let there = match uci_value(servers) {
        Some(s) => crate::words::words(s).contains(dns),
        None => false,
    };
    if there {
        seq![]
    } else {
        seq![run("uci"@, seq!["add_list"@, "dhcp.@dnsmasq[0].server="@ + dns])]
    }
}

/// Writes the changed options out.
fn commit(out: &mut Vec<Step>)
    ensures
        acts(final(out)@) == acts(old(out)@) + commit_acts(),
{
    let a = ["commit", "dhcp"];
    let b = ["restart"];
    push_run(out, "uci", a.as_slice());
    push_run(out, "/etc/init.d/dnsmasq", b.as_slice());
    assert(strs(a@) =~= seq!["commit"@, "dhcp"@]);
    assert(strs(b@) =~= seq!["restart"@]);
    assert(acts(out@) =~= acts(old(out)@) + commit_acts());
}

impl Dns for OpenWrtDnsmasq {
    open spec fn label(&self) -> Seq<char> {
        "openwrt-dnsmasq"@
    }

    open spec fn set_acts(&self, dns: Seq<char>, host: DnsFacts) -> Seq<Act> {
        seq![
            Act::Write(
                "/run/fluxpeer-dns.state"@,
                table_text(remembered(state_of(host.state), dns, uci_value(host.noresolv))),
            ),
            run("uci"@, seq!["set"@, "dhcp.@dnsmasq[0].noresolv=1"@]),
        ] + list_acts(dns, host.servers) + commit_acts()
    }

    open spec fn clear_acts(&self, host: DnsFacts) -> Seq<Act> {
        let state = state_of(host.state);
        unlist_acts(state) + restore_acts(state) + commit_acts() + seq![
            Act::Remove("/run/fluxpeer-dns.state"@),
        ]
    }

    /// The name of the way.
    fn name(&self) -> (s: &'static str) {
        "openwrt-dnsmasq"
    }

    /// Remembers what the options were, and has dnsmasq ask the server alone.
    fn set(&self, dns: &str, host: &DnsHost) -> (out: Vec<Step>) {
        let mut out = no_steps();
        let mut state = read_state(&host.state);
        let noresolv = uci_get(&host.noresolv);
        if get_value(&state, "had_noresolv").is_none() {
            match &noresolv {
                Some(value) => {
                    put_value(&mut state, "had_noresolv", "1");
                    put_value(&mut state, "noresolv", value.as_str());
                },
                None => {
                    put_value(&mut state, "had_noresolv", "0");
                },
            }
        }
        put_value(&mut state, "dns", dns);
        push_step(
            &mut out,
            Step::Write(String::from_str("/run/fluxpeer-dns.state"), write_table(&state)),
        );
        let a = ["set", "dhcp.@dnsmasq[0].noresolv=1"];
        push_run(&mut out, "uci", a.as_slice());
        assert(strs(a@) =~= seq!["set"@, "dhcp.@dnsmasq[0].noresolv=1"@]);
        let ghost head = acts(out@);
        let there = match uci_get(&host.servers) {
            Some(s) => has_text(&split_words(s.as_str()), dns),
            None => false,
        };
        if !there {
            let arg = join2("dhcp.@dnsmasq[0].server=", dns);
            let b = ["add_list", arg.as_str()];
            push_run(&mut out, "uci", b.as_slice());
            assert(strs(b@) =~= seq!["add_list"@, arg@]);
        }
        assert(acts(out@) =~= head + list_acts(dns@, host@.servers));
        commit(&mut out);
        assert(acts(out@) =~= self.set_acts(dns@, host@));
        out
    }

    /// Takes the server out and puts the options back as they were.
    fn clear(&self, host: &DnsHost) -> (out: Vec<Step>) {
        let mut out = no_steps();
        let state = read_state(&host.state);
        match get_value(&state, "dns") {
            Some(dns) => {
                let arg = join2("dhcp.@dnsmasq[0].server=", dns.as_str());
                let a = ["del_list", arg.as_str()];
                push_run(&mut out, "uci", a.as_slice());
                assert(strs(a@) =~= seq!["del_list"@, arg@]);
            },
            None => {},
        }
        assert(acts(out@) =~= unlist_acts(entries(state@)));
        match get_value(&state, "had_noresolv") {
            Some(had) => {
                if same_text(had.as_str(), "1") {
                    let value = match get_value(&state, "noresolv") {
                        Some(v) => v,
                        None => String::from_str("0"),
                    };
                    let arg = join2("dhcp.@dnsmasq[0].noresolv=", value.as_str());
                    let a = ["set", arg.as_str()];
                    push_run(&mut out, "uci", a.as_slice());
                    assert(strs(a@) =~= seq!["set"@, arg@]);
                } else if same_text(had.as_str(), "0") {
                    let a = ["delete", "dhcp.@dnsmasq[0].noresolv"];
                    push_run(&mut out, "uci", a.as_slice());
                    assert(strs(a@) =~= seq!["delete"@, "dhcp.@dnsmasq[0].noresolv"@]);
                }
            },
            None => {},
        }
        assert(acts(out@) =~= unlist_acts(entries(state@)) + restore_acts(entries(state@)));
        commit(&mut out);
        push_step(&mut out, Step::Remove(String::from_str("/run/fluxpeer-dns.state")));
        assert(acts(out@) =~= self.clear_acts(host@));
        out
    }
}

/// The resolver file with one name server.
pub open spec fn resolv_conf(dns: Seq<char>) -> Seq<char> {
    "# fluxpeer exit-node\nnameserver "@ + dns + "\n"@
}

/// The resolver file with one name server.
fn resolv_text(dns: &str) -> (s: String)
    ensures
        s@ == resolv_conf(dns@),
{
    let mut s = String::from_str("# fluxpeer exit-node\nnameserver ");
    s.append(dns);
    s.append("\n");
    s
}

impl Resolvectl {
    /// The interface that the servers are set for.
    pub open spec fn on(&self) -> Seq<char> {
        match self.iface {
            Some(i) => i@,
            None => "fluxpeer"@,
        }
    }

    /// For an interface, or for the usual one.
    pub fn new(iface: Option<&str>) -> (r: Resolvectl)
        ensures
            opt_text(r.iface) == match iface {
                Some(i) => Some(i@),
                None => None,
            },
    {
        match iface {
            Some(i) => Resolvectl { iface: Some(String::from_str(i)) },
            None => Resolvectl { iface: None },
        }
    }

    /// The interface that the servers are set for.
    fn iface(&self) -> (s: &str)
        ensures
            s@ == self.on(),
    {
        match &self.iface {
            Some(i) => i.as_str(),
            None => "fluxpeer",
        }
    }
}

impl Dns for Resolvectl {
    open spec fn label(&self) -> Seq<char> {
        "resolvectl"@
    }

    open spec fn set_acts(&self, dns: Seq<char>, host: DnsFacts) -> Seq<Act> {
        seq![
            Act::RunOrWrite(
                Command { program: "resolvectl"@, args: seq!["dns"@, self.on(), dns] },
                Command { program: "resolvectl"@, args: seq!["domain"@, self.on(), "~."@] },
                "/etc/resolv.conf"@,
                resolv_conf(dns),
            ),
        ]
    }

    open spec fn clear_acts(&self, host: DnsFacts) -> Seq<Act> {
        seq![run("resolvectl"@, seq!["revert"@, self.on()])]
    }

    /// The name of the way.
    fn name(&self) -> (s: &'static str) {
        "resolvectl"
    }

    /// Sets the server for all names; the resolver file where that fails.
    fn set(&self, dns: &str, host: &DnsHost) -> (out: Vec<Step>) {
        let iface = self.iface();
        let a = ["dns", iface, dns];
        let b = ["domain", iface, "~."];
        let mut out = no_steps();
        push_step(
            &mut out,
            Step::RunOrWrite(
                cmd("resolvectl", a.as_slice()),
                cmd("resolvectl", b.as_slice()),
                String::from_str("/etc/resolv.conf"),
                resolv_text(dns),
            ),
        );
        assert(strs(a@) =~= seq!["dns"@, self.on(), dns@]);
        assert(strs(b@) =~= seq!["domain"@, self.on(), "~."@]);
        assert(acts(out@) =~= self.set_acts(dns@, host@));
        out
    }

    /// Reverts what was set for the interface.
    fn clear(&self, host: &DnsHost) -> (out: Vec<Step>) {
        let a = ["revert", self.iface()];
        let mut out = no_steps();
        push_run(&mut out, "resolvectl", a.as_slice());
        assert(strs(a@) =~= seq!["revert"@, self.on()]);
        assert(acts(out@) =~= self.clear_acts(host@));
        out
    }
}

impl Dns for ResolvConf {
    open spec fn label(&self) -> Seq<char> {
        "resolv"@
    }

    open spec fn set_acts(&self, dns: Seq<char>, host: DnsFacts) -> Seq<Act> {
        seq![Act::Write("/etc/resolv.conf"@, resolv_conf(dns))]
    }

    open spec fn clear_acts(&self, host: DnsFacts) -> Seq<Act> {
        seq![]
    }

    /// The name of the way.
    fn name(&self) -> (s: &'static str) {
        "resolv"
    }

    /// Writes the resolver file.
    fn set(&self, dns: &str, host: &DnsHost) -> (out: Vec<Step>) {
        let mut out = no_steps();
        push_step(&mut out, Step::Write(String::from_str("/etc/resolv.conf"), resolv_text(dns)));
        assert(acts(out@) =~= self.set_acts(dns@, host@));
        out
    }

    /// Nothing: what stood in the file is not known.
    fn clear(&self, host: &DnsHost) -> (out: Vec<Step>) {
        no_steps()
    }
}

/// One of the ways.
#[derive(Debug)]
pub enum DnsBackend {
    OpenWrt(OpenWrtDnsmasq),
    Systemd(Resolvectl),
    Plain(ResolvConf),
}

impl Dns for DnsBackend {
    open spec fn label(&self) -> Seq<char> {
        match *self {
            DnsBackend::OpenWrt(b) => b.label(),
            DnsBackend::Systemd(b) => b.label(),
            DnsBackend::Plain(b) => b.label(),
        }
    }

    open spec fn set_acts(&self, dns: Seq<char>, host: DnsFacts) -> Seq<Act> {
        match *self {
            DnsBackend::OpenWrt(b) => b.set_acts(dns, host),
            DnsBackend::Systemd(b) => b.set_acts(dns, host),
            DnsBackend::Plain(b) => b.set_acts(dns, host),
        }
    }

    open spec fn clear_acts(&self, host: DnsFacts) -> Seq<Act> {
        match *self {
            DnsBackend::OpenWrt(b) => b.clear_acts(host),
            DnsBackend::Systemd(b) => b.clear_acts(host),
            DnsBackend::Plain(b) => b.clear_acts(host),
        }
    }

    /// The name of the way.
    fn name(&self) -> (s: &'static str) {
        match self {
            DnsBackend::OpenWrt(b) => b.name(),
            DnsBackend::Systemd(b) => b.name(),
            DnsBackend::Plain(b) => b.name(),
        }
    }

    /// Sets the name server.
    fn set(&self, dns: &str, host: &DnsHost) -> (out: Vec<Step>) {
        match self {
            DnsBackend::OpenWrt(b) => b.set(dns, host),
            DnsBackend::Systemd(b) => b.set(dns, host),
            DnsBackend::Plain(b) => b.set(dns, host),
        }
    }

    /// Goes back to the name servers from before.
    fn clear(&self, host: &DnsHost) -> (out: Vec<Step>) {
        match self {
            DnsBackend::OpenWrt(b) => b.clear(host),
            DnsBackend::Systemd(b) => b.clear(host),
            DnsBackend::Plain(b) => b.clear(host),
        }
    }
}

/// What decides about the way.
#[derive(Debug)]
pub struct DnsChoice {
    /// The environment's `FLUXPEER_DNS_BACKEND`.
    pub named: Option<String>,
    /// Whether the host has `uci`.
    pub uci: bool,
    /// Whether the host has `/etc/config/dhcp`.
    pub dhcp_config: bool,
    /// Whether the host has `resolvectl`.
    pub resolvectl: bool,
}

/// The ways, by name.
#[derive(Clone, Copy, Debug, PartialEq, Eq, Structural)]
pub enum DnsKind {
    OpenWrt,
    Systemd,
    Plain,
}

impl DnsChoice {
    /// The way: one that is named goes before all else, then what the host has.
    pub open spec fn kind(&self) -> DnsKind {
        let named = opt_text(self.named);
        if named == Some("openwrt"@) || named == Some("dnsmasq"@) || named == Some("uci"@) {
            DnsKind::OpenWrt
        } else if named == Some("resolvectl"@) {
            DnsKind::Systemd
        } else if named == Some("resolv"@) || named == Some("resolvconf"@) {
            DnsKind::Plain
        } else if self.uci && self.dhcp_config {
            DnsKind::OpenWrt
        } else if self.resolvectl {
            DnsKind::Systemd
        } else {
            DnsKind::Plain
        }
    }

    /// The way.
    fn pick(&self) -> (k: DnsKind)
        ensures
            k == self.kind(),
    {
        match &self.named {
            Some(n) => {
                let n = n.as_str();
                if same_text(n, "openwrt") || same_text(n, "dnsmasq") || same_text(n, "uci") {
                    return DnsKind::OpenWrt;
                }
                if same_text(n, "resolvectl") {
                    return DnsKind::Systemd;
                }
                if same_text(n, "resolv") || same_text(n, "resolvconf") {
                    return DnsKind::Plain;
                }
            },
            None => {},
        }
        if self.uci && self.dhcp_config {
            DnsKind::OpenWrt
        } else if self.resolvectl {
            DnsKind::Systemd
        } else {
            DnsKind::Plain
        }
    }
}

/// Picks a way for the usual interface.
pub fn detect(choice: &DnsChoice) -> (b: DnsBackend)
    ensures
        choice.kind() == DnsKind::OpenWrt ==> b is OpenWrt,
        choice.kind() == DnsKind::Systemd ==> (b matches DnsBackend::Systemd(r) && r.iface is None),
        choice.kind() == DnsKind::Plain ==> b is Plain,
{
    detect_for_iface(choice, None)
}

/// Picks a way for an interface.
pub fn detect_for_iface(choice: &DnsChoice, iface: Option<&str>) -> (b: DnsBackend)
    ensures
        choice.kind() == DnsKind::OpenWrt ==> b is OpenWrt,
        choice.kind() == DnsKind::Systemd ==> (b matches DnsBackend::Systemd(r) && opt_text(
            r.iface,
        ) == match iface {
            Some(i) => Some(i@),
            None => None,
        }),
        choice.kind() == DnsKind::Plain ==> b is Plain,
{
    match choice.pick() {
        DnsKind::OpenWrt => DnsBackend::OpenWrt(OpenWrtDnsmasq),
        DnsKind::Systemd => DnsBackend::Systemd(Resolvectl::new(iface)),
        DnsKind::Plain => DnsBackend::Plain(ResolvConf),
    }
}

/// What is read from a state file stands in order.
proof fn state_in_order(ls: Seq<Seq<char>>)
    ensures
        in_order(take_lines(ls)),
    decreases ls.len(),
{
    if ls.len() > 0 {
        state_in_order(ls.drop_last());
        let before = take_lines(ls.drop_last());
        let line = ls.last();
        let k = crate::text::first_of(line, '=');
        if k < line.len() {
            put_keeps_order(before, line.take(k), line.skip(k + 1));
        }
    }
}

/// Whether every entry can stand in a line.
pub open spec fn all_writable(v: Seq<Entry>) -> bool {
    forall|i: int| 0 <= i < v.len() ==> writable(#[trigger] v[i])
}

/// Entries that can stand in a line, and one more.
proof fn put_writable(v: Seq<Entry>, key: Seq<char>, value: Seq<char>)
    requires
        all_writable(v),
        writable(Entry { key, value }),
        in_order(v),
    ensures
        all_writable(put(v, key, value)),
{
    let w = put(v, key, value);
    let i = place(v, key);
    crate::node::sorted::place_has(v, key);
    assert forall|j: int| 0 <= j < w.len() implies writable(#[trigger] w[j]) by {
        if j != i {
            if j < i || w.len() == v.len() {
                assert(w[j] == v[j]);
            } else {
                assert(w[j] == v[j - 1]);
            }
        }
    }
}

/// A name server that is set a second time does not change what is remembered of the options from
/// before the first.
pub proof fn first_options_are_kept(
    state: Seq<Entry>,
    first: Seq<char>,
    noresolv: Option<Seq<char>>,
    second: Seq<char>,
    later: Option<Seq<char>>,
)
    requires
        in_order(state),
    ensures
        restore_acts(remembered(remembered(state, first, noresolv), second, later))
            == restore_acts(remembered(state, first, noresolv)),
        value_of(remembered(remembered(state, first, noresolv), second, later), "dns"@) == Some(
            second,
        ),
{
    remembered_values(state, first, noresolv);
    remembered_values(remembered(state, first, noresolv), second, later);
}

/// What is remembered.
proof fn remembered_values(state: Seq<Entry>, dns: Seq<char>, noresolv: Option<Seq<char>>)
    requires
        in_order(state),
    ensures
        in_order(remembered(state, dns, noresolv)),
        value_of(remembered(state, dns, noresolv), "dns"@) == Some(dns),
        value_of(remembered(state, dns, noresolv), "had_noresolv"@) == match value_of(
            state,
            "had_noresolv"@,
        ) {
            Some(h) => Some(h),
            None => Some(if noresolv is Some {
                "1"@
            } else {
                "0"@
            }),
        },
        value_of(remembered(state, dns, noresolv), "noresolv"@) == if value_of(
            state,
            "had_noresolv"@,
        ) is None && noresolv is Some {
            noresolv
        } else {
            value_of(state, "noresolv"@)
        },
{
    reveal_strlit("dns");
    reveal_strlit("had_noresolv");
    reveal_strlit("noresolv");
    let h = "had_noresolv"@;
    let n = "noresolv"@;
    let d = "dns"@;
    assert(d.len() == 3 && h.len() == 12 && n.len() == 8);
    let s = if value_of(state, h) is Some {
        state
    } else {
        match noresolv {
            Some(v) => {
                let t = put(state, h, "1"@);
                put_keeps_order(state, h, "1"@);
                put_then_value(state, h, "1"@, h);
                put_then_value(state, h, "1"@, n);
                put_keeps_order(t, n, v);
                put_then_value(t, n, v, h);
                put_then_value(t, n, v, n);
                put(t, n, v)
            },
            None => {
                put_keeps_order(state, h, "0"@);
                put_then_value(state, h, "0"@, h);
                put_then_value(state, h, "0"@, n);
                put(state, h, "0"@)
            },
        }
    };
    put_keeps_order(s, d, dns);
    put_then_value(s, d, dns, d);
    put_then_value(s, d, dns, h);
    put_then_value(s, d, dns, n);
}

/// What is remembered can be written, where what it is made of can.
proof fn remembered_writable(state: Seq<Entry>, dns: Seq<char>, noresolv: Option<Seq<char>>)
    requires
        in_order(state),
        all_writable(state),
        writable(Entry { key: "dns"@, value: dns }),
        noresolv matches Some(v) ==> writable(Entry { key: "noresolv"@, value: v }),
    ensures
        all_writable(remembered(state, dns, noresolv)),
{
    reveal_strlit("had_noresolv");
    reveal_strlit("1");
    reveal_strlit("0");
    let h = "had_noresolv"@;
    let s = if value_of(state, h) is Some {
        state
    } else {
        match noresolv {
            Some(v) => {
                put_keeps_order(state, h, "1"@);
                put_writable(state, h, "1"@);
                put_keeps_order(put(state, h, "1"@), "noresolv"@, v);
                put_writable(put(state, h, "1"@), "noresolv"@, v);
                put(put(state, h, "1"@), "noresolv"@, v)
            },
            None => {
                put_keeps_order(state, h, "0"@);
                put_writable(state, h, "0"@);
                put(state, h, "0"@)
            },
        }
    };
    put_writable(s, "dns"@, dns);
}

/// On OpenWrt the options are put back as they were: after a name server was set where none was,
/// clearing goes by the file that was written, takes that server out, and sets the option to the
/// value that it had or deletes it where it had none.
pub proof fn clearing_undoes_setting(host: DnsFacts, later: DnsFacts, dns: Seq<char>)
    requires
        value_of(state_of(host.state), "had_noresolv"@) is None,
        all_writable(state_of(host.state)),
        writable(Entry { key: "dns"@, value: dns }),
        uci_value(host.noresolv) matches Some(v) ==> writable(
            Entry { key: "noresolv"@, value: v },
        ),
        OpenWrtDnsmasq.set_acts(dns, host)[0] == Act::Write(
            "/run/fluxpeer-dns.state"@,
            later.state->Some_0,
        ),
        later.state is Some,
    ensures
        OpenWrtDnsmasq.clear_acts(later) == seq![
            run("uci"@, seq!["del_list"@, "dhcp.@dnsmasq[0].server="@ + dns]),
            match uci_value(host.noresolv) {
                Some(v) => run("uci"@, seq!["set"@, "dhcp.@dnsmasq[0].noresolv="@ + v]),
                None => run("uci"@, seq!["delete"@, "dhcp.@dnsmasq[0].noresolv"@]),
            },
        ] + commit_acts() + seq![Act::Remove("/run/fluxpeer-dns.state"@)],
{
    let state = state_of(host.state);
    let noresolv = uci_value(host.noresolv);
    match host.state {
        Some(s) => state_in_order(crate::words::lines(s)),
        None => {},
    }
    remembered_values(state, dns, noresolv);
    remembered_writable(state, dns, noresolv);
    let after = remembered(state, dns, noresolv);
    table_reads_back(after);
    let first = OpenWrtDnsmasq.set_acts(dns, host)[0];
    assert(first == Act::Write("/run/fluxpeer-dns.state"@, table_text(after)));
    assert(state_of(later.state) == after);
    reveal_strlit("1");
    reveal_strlit("0");
    assert("1"@[0] == '1' && "0"@[0] == '0');
    assert(OpenWrtDnsmasq.clear_acts(later) =~= seq![
        run("uci"@, seq!["del_list"@, "dhcp.@dnsmasq[0].server="@ + dns]),
        match uci_value(host.noresolv) {
            Some(v) => run("uci"@, seq!["set"@, "dhcp.@dnsmasq[0].noresolv="@ + v]),
            None => run("uci"@, seq!["delete"@, "dhcp.@dnsmasq[0].noresolv"@]),
        },
    ] + commit_acts() + seq![Act::Remove("/run/fluxpeer-dns.state"@)]);
}

/// On OpenWrt the server is listed, unless it is already, and takes precedence over what the host
/// was given; the change is committed and the resolver restarted, in that order, and last.
pub proof fn openwrt_lists_the_server(dns: Seq<char>, host: DnsFacts)
    ensures
        ({
            let v = OpenWrtDnsmasq.set_acts(dns, host);
            let n = v.len() as int;
            let listed = host.servers matches Some(s) && crate::words::trim(s).len() > 0
                && crate::words::words(crate::words::trim(s)).contains(dns);
            &&& v[0] is Write
            &&& v[1] == run("uci"@, seq!["set"@, "dhcp.@dnsmasq[0].noresolv=1"@])
            &&& !listed ==> n == 5 && v[2] == run(
                "uci"@,
                seq!["add_list"@, "dhcp.@dnsmasq[0].server="@ + dns],
            )
            &&& listed ==> n == 4
            &&& v[n - 2] == run("uci"@, seq!["commit"@, "dhcp"@])
            &&& v[n - 1] == run("/etc/init.d/dnsmasq"@, seq!["restart"@])
        }),
{
}

/// With systemd the tunnel's link gets the server, for every name, and is reverted afterwards; where
/// that fails the server is written down for the resolver instead.
pub proof fn systemd_sets_the_link(r: Resolvectl, dns: Seq<char>, host: DnsFacts)
    ensures
        ({
            let link = match r.iface {
                Some(i) => i@,
                None => "fluxpeer"@,
            };
            let v = r.set_acts(dns, host);
            &&& v.len() == 1
            &&& v[0] matches Act::RunOrWrite(first, second, path, text) && {
                &&& first.program == "resolvectl"@
                &&& first.args == seq!["dns"@, link, dns]
                &&& second.program == "resolvectl"@
                &&& second.args == seq!["domain"@, link, "~."@]
                &&& path == "/etc/resolv.conf"@
                &&& text == resolv_conf(dns)
            }
            &&& r.clear_acts(host) == seq![run("resolvectl"@, seq!["revert"@, link])]
        }),
{
}

/// A plain resolver gets a file that names the server.
pub proof fn resolver_file_names_the_server(dns: Seq<char>, host: DnsFacts)
    ensures
        ResolvConf.set_acts(dns, host) == seq![
            Act::Write("/etc/resolv.conf"@, resolv_conf(dns)),
        ],
        crate::words::has_part(resolv_conf(dns), "nameserver "@ + dns + "\n"@),
        ResolvConf.clear_acts(host).len() == 0,
{
    reveal_strlit("# fluxpeer exit-node\nnameserver ");
    reveal_strlit("nameserver ");
    let part = "nameserver "@ + dns + "\n"@;
    let k = 21;
    assert("# fluxpeer exit-node\nnameserver "@.len() == 32);
    assert("nameserver "@.len() == 11);
    assert(resolv_conf(dns).subrange(k, k + part.len() as int) =~= part);
    assert(crate::words::has_part_at(resolv_conf(dns), part, k));
}

/// A named way is taken; otherwise OpenWrt's where both its tool and its settings are there, then
/// systemd's, then the plain file.
pub proof fn the_resolver_is_chosen(c: DnsChoice)
    ensures
        opt_text(c.named) == Some("resolvectl"@) ==> c.kind() == DnsKind::Systemd,
        c.named is None && c.uci && c.dhcp_config ==> c.kind() == DnsKind::OpenWrt,
        c.named is None && !(c.uci && c.dhcp_config) && c.resolvectl ==> c.kind()
            == DnsKind::Systemd,
        c.named is None && !(c.uci && c.dhcp_config) && !c.resolvectl ==> c.kind()
            == DnsKind::Plain,
        opt_text(c.named) == Some("openwrt"@) || opt_text(c.named) == Some("dnsmasq"@) || opt_text(
            c.named,
        ) == Some("uci"@) ==> c.kind() == DnsKind::OpenWrt,
        opt_text(c.named) == Some("resolv"@) || opt_text(c.named) == Some("resolvconf"@)
            ==> c.kind() == DnsKind::Plain,
{
    reveal_strlit("openwrt");
    reveal_strlit("dnsmasq");
    reveal_strlit("uci");
    reveal_strlit("resolvectl");
    reveal_strlit("resolv");
    reveal_strlit("resolvconf");
    assert("openwrt"@.len() == 7 && "dnsmasq"@.len() == 7 && "uci"@.len() == 3);
    assert("resolvectl"@.len() == 10 && "resolv"@.len() == 6 && "resolvconf"@.len() == 10);
    assert("resolvectl"@[6] == 'e' && "resolvconf"@[6] == 'c');
}

/// A chosen way does what it does by itself.
pub proof fn chosen_resolver_is_itself(r: Resolvectl, dns: Seq<char>, host: DnsFacts)
    ensures
        DnsBackend::OpenWrt(OpenWrtDnsmasq).set_acts(dns, host) == OpenWrtDnsmasq.set_acts(
            dns,
            host,
        ),
        DnsBackend::OpenWrt(OpenWrtDnsmasq).clear_acts(host) == OpenWrtDnsmasq.clear_acts(host),
        DnsBackend::Systemd(r).set_acts(dns, host) == r.set_acts(dns, host),
        DnsBackend::Systemd(r).clear_acts(host) == r.clear_acts(host),
        DnsBackend::Plain(ResolvConf).set_acts(dns, host) == ResolvConf.set_acts(dns, host),
        DnsBackend::Plain(ResolvConf).clear_acts(host) == ResolvConf.clear_acts(host),
{
}

/// What was printed counts without the blanks around it, and as nothing where there are only
/// blanks.
pub proof fn printed_options_are_trimmed(s: Seq<char>)
    ensures
        s.len() > 0 && !crate::words::is_space(s[0]) && !crate::words::is_space(s.last())
            ==> uci_value(Some(s.push('\n'))) == Some(s),
        (forall|i: int| 0 <= i < s.len() ==> crate::words::is_space(#[trigger] s[i])) ==> uci_value(
            Some(s),
        ) is None,
        uci_value(None) is None,
{
    let end = seq!['\n'];
    let none = Seq::<char>::empty();
    crate::words::blanks_are_told_apart('a');
    if s.len() > 0 && !crate::words::is_space(s[0]) && !crate::words::is_space(s.last()) {
        crate::words::trimming_takes_blanks(none, s, end);
        assert(none + s + end =~= s.push('\n'));
    }
    if forall|i: int| 0 <= i < s.len() ==> crate::words::is_space(#[trigger] s[i]) {
        let word = seq!['a'];
        crate::words::trimming_takes_blanks(s, word, none);
    }
}

/// The option from before is put back: set to what it was, or taken away where there was none. The
/// server that was added is taken out.
pub proof fn options_are_put_back(dns: Seq<char>, v: Seq<char>)
    ensures
        restore_acts(remembered(seq![], dns, Some(v))) == seq![
            run("uci"@, seq!["set"@, "dhcp.@dnsmasq[0].noresolv="@ + v]),
        ],
        restore_acts(remembered(seq![], dns, None)) == seq![
            run("uci"@, seq!["delete"@, "dhcp.@dnsmasq[0].noresolv"@]),
        ],
        unlist_acts(remembered(seq![], dns, Some(v))) == seq![
            run("uci"@, seq!["del_list"@, "dhcp.@dnsmasq[0].server="@ + dns]),
        ],
        restore_acts(seq![]).len() == 0,
        unlist_acts(seq![]).len() == 0,
{
    reveal_strlit("had_noresolv");
    reveal_strlit("noresolv");
    reveal_strlit("dns");
    reveal_strlit("0");
    reveal_strlit("1");
    assert("had_noresolv"@.len() == 12 && "noresolv"@.len() == 8 && "dns"@.len() == 3);
    assert("0"@[0] == '0' && "1"@[0] == '1');
    let none = Seq::<Entry>::empty();
    let a = put(none, "had_noresolv"@, "1"@);
    let b = put(a, "noresolv"@, v);
    let c = put(none, "had_noresolv"@, "0"@);
    crate::node::sorted::put_keeps_order(none, "had_noresolv"@, "1"@);
    crate::node::sorted::put_keeps_order(none, "had_noresolv"@, "0"@);
    crate::node::sorted::put_keeps_order(a, "noresolv"@, v);
    crate::node::sorted::put_then_value(none, "had_noresolv"@, "1"@, "had_noresolv"@);
    crate::node::sorted::put_then_value(none, "had_noresolv"@, "0"@, "had_noresolv"@);
    crate::node::sorted::put_then_value(a, "noresolv"@, v, "had_noresolv"@);
    crate::node::sorted::put_then_value(a, "noresolv"@, v, "noresolv"@);
    crate::node::sorted::put_then_value(b, "dns"@, dns, "had_noresolv"@);
    crate::node::sorted::put_then_value(b, "dns"@, dns, "noresolv"@);
    crate::node::sorted::put_then_value(b, "dns"@, dns, "dns"@);
    crate::node::sorted::put_then_value(c, "dns"@, dns, "had_noresolv"@);
    assert(value_of(none, "had_noresolv"@) is None);
    assert(value_of(none, "dns"@) is None);
}

} // verus!
