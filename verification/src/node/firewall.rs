//! The host's packet filter, where the host carries others' traffic to the outside: nftables, with
//! a table of its own that goes as a whole, or iptables.

use crate::node::dns::opt_text;
use crate::node::host::{
    acts, cmd, cmd_with, join2, no_steps, push_run, push_step, run, strs, Act, Cmd, Command, Step,
};
use crate::text::same_text;
use crate::words::{contains, split_lines, split_words, strip_prefix, trim_text};
use vstd::prelude::*;
use vstd::string::StringExecFns;

verus! {

/// What is known of the host's forwarding from before this process changed it.
#[derive(Clone, Copy, Debug, PartialEq, Eq, Structural)]
pub struct Forwarding {
    /// Whether this process changed it.
    pub touched: bool,
    /// Whether IPv4 was forwarded.
    pub v4: bool,
    /// Whether IPv6 was forwarded.
    pub v6: bool,
}

/// What the host says of its forwarding.
#[derive(Debug)]
pub struct FwHost {
    /// `/proc/sys/net/ipv4/ip_forward`.
    pub v4: Option<String>,
    /// `/proc/sys/net/ipv6/conf/all/forwarding`.
    pub v6: Option<String>,
    /// The state file, where there is one.
    pub state: Option<String>,
}

/// What the host says of its forwarding, as a value.
pub struct FwFacts {
    pub v4: Option<Seq<char>>,
    pub v6: Option<Seq<char>>,
    pub state: Option<Seq<char>>,
}

impl FwHost {
    /// What the host says, as a value.
    pub open spec fn view(&self) -> FwFacts {
        FwFacts { v4: opt_text(self.v4), v6: opt_text(self.v6), state: opt_text(self.state) }
    }
}

/// Whether a switch of the kernel is on.
pub open spec fn on(value: Option<Seq<char>>) -> bool {
    value matches Some(s) && crate::words::trim(s) == "1"@
}

/// Whether a switch of the kernel is on.
fn sysctl_is_on(value: &Option<String>) -> (r: bool)
    ensures
        r == on(opt_text(*value)),
{
    match value {
        Some(s) => same_text(trim_text(s.as_str()).as_str(), "1"),
        None => false,
    }
}

/// A digit for yes or no.
pub open spec fn bit(b: bool) -> Seq<char> {
    if b {
        "1"@
    } else {
        "0"@
    }
}

/// A digit for yes or no.
fn bit_text(b: bool) -> (s: &'static str)
    ensures
        s@ == bit(b),
{
    if b {
        "1"
    } else {
        "0"
    }
}

/// The state file.
pub open spec fn state_text(v4: bool, v6: bool) -> Seq<char> {
    "v4="@ + bit(v4) + "\nv6="@ + bit(v6) + "\n"@
}

/// What sets a switch of the kernel.
pub open spec fn switch(key: Seq<char>, value: bool) -> Act {
    run("sysctl"@, seq!["-w"@, key + bit(value)])
}

/// Sets a switch of the kernel; the key ends in `=`.
fn sysctl_set(out: &mut Vec<Step>, key: &str, value: bool)
    ensures
        acts(final(out)@) == acts(old(out)@).push(switch(key@, value)),
{
    let arg = join2(key, bit_text(value));
    let a = ["-w", arg.as_str()];
    push_run(out, "sysctl", a.as_slice());
    assert(strs(a@) =~= seq!["-w"@, arg@]);
}

/// The forwarding from before, as it is found.
pub open spec fn found(host: FwFacts) -> Forwarding {
    Forwarding { touched: true, v4: on(host.v4), v6: on(host.v6) }
}

/// What turns forwarding on. What was found is kept in a file too, unless one is kept already.
pub open spec fn forwarding_up_acts(host: FwFacts) -> Seq<Act> {
    seq![
        Act::WriteNew(
            "/run/fluxpeer-firewall-forwarding.state"@,
            state_text(on(host.v4), on(host.v6)),
        ),
        switch("net.ipv4.ip_forward="@, true),
        switch("net.ipv6.conf.all.forwarding="@, true),
    ]
}

/// Turns forwarding on.
fn forwarding_up(fwd: &mut Forwarding, host: &FwHost, out: &mut Vec<Step>)
    ensures
        *final(fwd) == found(host@),
        acts(final(out)@) == acts(old(out)@) + forwarding_up_acts(host@),
{
    let v4 = sysctl_is_on(&host.v4);
    let v6 = sysctl_is_on(&host.v6);
    *fwd = Forwarding { touched: true, v4, v6 };
    let mut s = String::from_str("v4=");
    s.append(bit_text(v4));
    s.append("\nv6=");
    s.append(bit_text(v6));
    s.append("\n");
    push_step(
        out,
        Step::WriteNew(String::from_str("/run/fluxpeer-firewall-forwarding.state"), s),
    );
    sysctl_set(out, "net.ipv4.ip_forward=", true);
    sysctl_set(out, "net.ipv6.conf.all.forwarding=", true);
    assert(acts(out@) =~= acts(old(out)@) + forwarding_up_acts(host@));
}

/// What the last line with a label says.
pub open spec fn last_labelled(ls: Seq<Seq<char>>, label: Seq<char>) -> Option<bool>
    decreases ls.len(),
{
    if ls.len() == 0 {
        None
    } else if crate::words::has_prefix(ls.last(), label) {
        Some(ls.last().skip(label.len() as int) == "1"@)
    } else {
        last_labelled(ls.drop_last(), label)
    }
}

/// What a state file says: of both, or nothing.
pub open spec fn state_in(raw: Option<Seq<char>>) -> Option<(bool, bool)> {
    match raw {
        Some(s) => {
            let ls = crate::words::lines(s);
            match (last_labelled(ls, "v4="@), last_labelled(ls, "v6="@)) {
                (Some(a), Some(b)) => Some((a, b)),
                _ => None,
            }
        },
        None => None,
    }
}

/// A text has at most one of two labels of the same length.
proof fn labels_differ(s: Seq<char>)
    ensures
        !(crate::words::has_prefix(s, "v4="@) && crate::words::has_prefix(s, "v6="@)),
{
    reveal_strlit("v4=");
    reveal_strlit("v6=");
    if crate::words::has_prefix(s, "v4="@) && crate::words::has_prefix(s, "v6="@) {
        assert(s.take(3)[1] == '4');
        assert(s.take(3)[1] == '6');
    }
}

/// Reads a state file.
fn read_forwarding_state(raw: &Option<String>) -> (r: Option<(bool, bool)>)
    ensures
        r == state_in(opt_text(*raw)),
{
    match raw {
        Some(s) => {
            let ls = split_lines(s.as_str());
            let ghost all = crate::text::texts(ls@);
            let mut v4: Option<bool> = None;
            let mut v6: Option<bool> = None;
            let mut i: usize = 0;
            while i < ls.len()
                invariant
                    i <= ls@.len(),
                    all == crate::text::texts(ls@),
                    v4 == last_labelled(all.take(i as int), "v4="@),
                    v6 == last_labelled(all.take(i as int), "v6="@),
                decreases ls@.len() - i,
            {
                proof {
                    assert(all.take(i + 1).drop_last() =~= all.take(i as int));
                    assert(all.take(i + 1).last() == ls@[i as int]@);
                    labels_differ(ls@[i as int]@);
                }
                match strip_prefix(ls[i].as_str(), "v4=") {
                    Some(value) => {
                        v4 = Some(same_text(value.as_str(), "1"));
                    },
                    None => {
                        match strip_prefix(ls[i].as_str(), "v6=") {
                            Some(value) => {
                                v6 = Some(same_text(value.as_str(), "1"));
                            },
                            None => {},
                        }
                    },
                }
                i += 1;
            }
            assert(all.take(all.len() as int) =~= all);
            match (v4, v6) {
                (Some(a), Some(b)) => Some((a, b)),
                _ => None,
            }
        },
        None => None,
    }
}

/// What is known of the forwarding from before: what this process found, else what the file says.
pub open spec fn known(fwd: Forwarding, host: FwFacts) -> Option<(bool, bool)> {
    if fwd.touched {
        Some((fwd.v4, fwd.v6))
    } else {
        state_in(host.state)
    }
}

/// What turns the forwarding off that was off before.
pub open spec fn forwarding_down_acts(before: Option<(bool, bool)>) -> Seq<Act> {
    match before {
        Some((v4, v6)) => {
            let a = if v4 {
                seq![]
            } else {
                seq![switch("net.ipv4.ip_forward="@, false)]
            };
            let b = if v6 {
                seq![]
            } else {
                seq![switch("net.ipv6.conf.all.forwarding="@, false)]
            };
            a + b + seq![Act::Remove("/run/fluxpeer-firewall-forwarding.state"@)]
        },
        None => seq![],
    }
}

/// Turns the forwarding off that was off before.
fn forwarding_down(fwd: &Forwarding, host: &FwHost, out: &mut Vec<Step>)
    ensures
        acts(final(out)@) == acts(old(out)@) + forwarding_down_acts(known(*fwd, host@)),
{
    let before = if fwd.touched {
        Some((fwd.v4, fwd.v6))
    } else {
        read_forwarding_state(&host.state)
    };
    match before {
        Some((v4, v6)) => {
            if !v4 {
                sysctl_set(out, "net.ipv4.ip_forward=", false);
            }
            if !v6 {
                sysctl_set(out, "net.ipv6.conf.all.forwarding=", false);
            }
            push_step(
                out,
                Step::Remove(String::from_str("/run/fluxpeer-firewall-forwarding.state")),
            );
        },
        None => {},
    }
    assert(acts(out@) =~= acts(old(out)@) + forwarding_down_acts(known(*fwd, host@)));
}

/// A packet filter. `phys` is the interface to the outside, `tun` the tunnel.
pub trait Firewall {
    /// The filter's name.
    spec fn label(&self) -> Seq<char>;

    /// Whether the filter changes forwarding at all.
    spec fn forwards(&self) -> bool;

    /// What lets the tunnel's traffic out and hides where it comes from, forwarding aside.
    spec fn open_acts(&self, phys: Seq<char>, tun: Seq<char>) -> Seq<Act>;

    /// What undoes it, forwarding aside.
    spec fn close_acts(&self, phys: Seq<char>, tun: Seq<char>) -> Seq<Act>;

    /// What keeps everything but the tunnel's traffic from leaving.
    spec fn block_acts(&self, phys: Seq<char>, tun: Seq<char>) -> Seq<Act>;

    /// What undoes that.
    spec fn unblock_acts(&self, phys: Seq<char>, tun: Seq<char>) -> Seq<Act>;

    /// The filter's name.
    fn name(&self) -> (s: &'static str)
        ensures
            s@ == self.label(),
    ;

    /// Lets the tunnel's traffic out.
    fn up(&self, phys: &str, tun: &str, fwd: &mut Forwarding, host: &FwHost) -> (out: Vec<Step>)
        ensures
            *final(fwd) == if self.forwards() {
                found(host@)
            } else {
                *old(fwd)
            },
            acts(out@) == if self.forwards() {
                forwarding_up_acts(host@) + self.open_acts(phys@, tun@)
            } else {
                self.open_acts(phys@, tun@)
            },
    ;

    /// Stops letting it out.
    fn down(&self, phys: &str, tun: &str, fwd: &Forwarding, host: &FwHost) -> (out: Vec<Step>)
        ensures
            acts(out@) == if self.forwards() {
                self.close_acts(phys@, tun@) + forwarding_down_acts(known(*fwd, host@))
            } else {
                self.close_acts(phys@, tun@)
            },
    ;

    /// Keeps everything but the tunnel's traffic from leaving.
    fn killswitch_on(&self, phys: &str, tun: &str) -> (out: Vec<Step>)
        ensures
            acts(out@) == self.block_acts(phys@, tun@),
    ;

    /// Lets everything leave again.
    fn killswitch_off(&self, phys: &str, tun: &str) -> (out: Vec<Step>)
        ensures
            acts(out@) == self.unblock_acts(phys@, tun@),
    ;
}

/// nftables.
#[derive(Clone, Copy, Debug, PartialEq, Eq, Structural)]
pub struct Nft;

/// iptables.
#[derive(Clone, Copy, Debug, PartialEq, Eq, Structural)]
pub struct Iptables;

/// No filter.
#[derive(Clone, Copy, Debug, PartialEq, Eq, Structural)]
pub struct Noop;

/// The command that prints the rules for forwarded traffic, with their handles if asked.
pub open spec fn list_cmd(handles: bool) -> Command {
    Command {
        program: "nft"@,
        args: if handles {
            seq!["-a"@, "list"@, "chain"@, "inet"@, "fluxpeer"@, "forward"@]
        } else {
            seq!["list"@, "chain"@, "inet"@, "fluxpeer"@, "forward"@]
        },
    }
}

/// The command that prints the rules for forwarded traffic.
fn list_command(handles: bool) -> (c: Cmd)
    ensures
        c@ == list_cmd(handles),
{
    if handles {
        let a = ["-a", "list", "chain", "inet", "fluxpeer", "forward"];
        assert(strs(a@) =~= seq!["-a"@, "list"@, "chain"@, "inet"@, "fluxpeer"@, "forward"@]);
        cmd("nft", a.as_slice())
    } else {
        let a = ["list", "chain", "inet", "fluxpeer", "forward"];
        assert(strs(a@) =~= seq!["list"@, "chain"@, "inet"@, "fluxpeer"@, "forward"@]);
        cmd("nft", a.as_slice())
    }
}

/// A rule that accepts what comes from or goes to the tunnel, unless it is there.
pub open spec fn accept_once(side: Seq<char>, tun: Seq<char>) -> Act {
    Act::UnlessListed(
        list_cmd(false),
        seq![side, tun, "accept"@],
        Command {
            program: "nft"@,
            args: seq!["add"@, "rule"@, "inet"@, "fluxpeer"@, "forward"@, side, tun, "accept"@],
        },
    )
}

/// Adds a rule that accepts what comes from or goes to the tunnel, unless it is there.
fn push_accept_once(out: &mut Vec<Step>, side: &str, tun: &str)
    ensures
        acts(final(out)@) == acts(old(out)@).push(accept_once(side@, tun@)),
{
    let n = [side, tun, "accept"];
    let a = ["add", "rule", "inet", "fluxpeer", "forward", side, tun, "accept"];
    assert(strs(n@) =~= seq![side@, tun@, "accept"@]);
    assert(strs(a@) =~= seq![
        "add"@,
        "rule"@,
        "inet"@,
        "fluxpeer"@,
        "forward"@,
        side@,
        tun@,
        "accept"@,
    ]);
    let needles = cmd("", n.as_slice()).args;
    push_step(out, Step::UnlessListed(list_command(false), needles, cmd("nft", a.as_slice())));
}

impl Firewall for Nft {
    open spec fn label(&self) -> Seq<char> {
        "nft"@
    }

    open spec fn forwards(&self) -> bool {
        true
    }

    open spec fn open_acts(&self, phys: Seq<char>, tun: Seq<char>) -> Seq<Act> {
        seq![
            run("nft"@, seq!["delete"@, "table"@, "inet"@, "fluxpeer"@]),
            run("nft"@, seq!["add"@, "table"@, "inet"@, "fluxpeer"@]),
            run("nft"@, seq![
                "add"@, "chain"@, "inet"@, "fluxpeer"@, "postrouting"@, "{"@, "type"@, "nat"@,
                "hook"@, "postrouting"@, "priority"@, "srcnat"@, ";"@, "policy"@, "accept"@, ";"@,
                "}"@,
            ]),
            run("nft"@, seq![
                "add"@, "chain"@, "inet"@, "fluxpeer"@, "forward"@, "{"@, "type"@, "filter"@,
                "hook"@, "forward"@, "priority"@, "filter"@, ";"@, "policy"@, "accept"@, ";"@, "}"@,
            ]),
            run("nft"@, seq![
                "add"@, "rule"@, "inet"@, "fluxpeer"@, "postrouting"@, "oifname"@, phys,
                "masquerade"@,
            ]),
            run("nft"@, seq![
                "add"@, "rule"@, "inet"@, "fluxpeer"@, "forward"@, "iifname"@, tun, "accept"@,
            ]),
            run("nft"@, seq![
                "add"@, "rule"@, "inet"@, "fluxpeer"@, "forward"@, "oifname"@, tun, "accept"@,
            ]),
        ]
    }

    open spec fn close_acts(&self, phys: Seq<char>, tun: Seq<char>) -> Seq<Act> {
        seq![run("nft"@, seq!["delete"@, "table"@, "inet"@, "fluxpeer"@])]
    }

    open spec fn block_acts(&self, phys: Seq<char>, tun: Seq<char>) -> Seq<Act> {
        seq![
            run("nft"@, seq!["add"@, "table"@, "inet"@, "fluxpeer"@]),
            run("nft"@, seq![
                "add"@, "chain"@, "inet"@, "fluxpeer"@, "forward"@, "{"@, "type"@, "filter"@,
                "hook"@, "forward"@, "priority"@, "filter"@, ";"@, "policy"@, "accept"@, ";"@, "}"@,
            ]),
            accept_once("iifname"@, tun),
            accept_once("oifname"@, tun),
            Act::DeleteListed(list_cmd(true), phys, tun),
            run("nft"@, seq![
                "add"@, "rule"@, "inet"@, "fluxpeer"@, "forward"@, "oifname"@, phys, "iifname"@,
                "!="@, tun, "drop"@,
            ]),
        ]
    }

    open spec fn unblock_acts(&self, phys: Seq<char>, tun: Seq<char>) -> Seq<Act> {
        seq![Act::DeleteListed(list_cmd(true), phys, tun)]
    }

    /// The filter's name.
    fn name(&self) -> (s: &'static str) {
        "nft"
    }

    /// Builds the filter's own table anew, so that doing it twice changes nothing.
    fn up(&self, phys: &str, tun: &str, fwd: &mut Forwarding, host: &FwHost) -> (out: Vec<Step>) {
        let mut out = no_steps();
        forwarding_up(fwd, host, &mut out);
        let ghost head = acts(out@);
        let a = ["delete", "table", "inet", "fluxpeer"];
        push_run(&mut out, "nft", a.as_slice());
        assert(strs(a@) =~= seq!["delete"@, "table"@, "inet"@, "fluxpeer"@]);
        let b = ["add", "table", "inet", "fluxpeer"];
        push_run(&mut out, "nft", b.as_slice());
        assert(strs(b@) =~= seq!["add"@, "table"@, "inet"@, "fluxpeer"@]);
        let c = [
            "add", "chain", "inet", "fluxpeer", "postrouting", "{", "type", "nat", "hook",
            "postrouting", "priority", "srcnat", ";", "policy", "accept", ";", "}",
        ];
        push_run(&mut out, "nft", c.as_slice());
        assert(strs(c@) =~= seq![
            "add"@, "chain"@, "inet"@, "fluxpeer"@, "postrouting"@, "{"@, "type"@, "nat"@, "hook"@,
            "postrouting"@, "priority"@, "srcnat"@, ";"@, "policy"@, "accept"@, ";"@, "}"@,
        ]);
        let d = [
            "add", "chain", "inet", "fluxpeer", "forward", "{", "type", "filter", "hook", "forward",
            "priority", "filter", ";", "policy", "accept", ";", "}",
        ];
        push_run(&mut out, "nft", d.as_slice());
        assert(strs(d@) =~= seq![
            "add"@, "chain"@, "inet"@, "fluxpeer"@, "forward"@, "{"@, "type"@, "filter"@, "hook"@,
            "forward"@, "priority"@, "filter"@, ";"@, "policy"@, "accept"@, ";"@, "}"@,
        ]);
        let e = ["add", "rule", "inet", "fluxpeer", "postrouting", "oifname", phys, "masquerade"];
        push_run(&mut out, "nft", e.as_slice());
        assert(strs(e@) =~= seq![
            "add"@, "rule"@, "inet"@, "fluxpeer"@, "postrouting"@, "oifname"@, phys@, "masquerade"@,
        ]);
        let f = ["add", "rule", "inet", "fluxpeer", "forward", "iifname", tun, "accept"];
        push_run(&mut out, "nft", f.as_slice());
        assert(strs(f@) =~= seq![
            "add"@, "rule"@, "inet"@, "fluxpeer"@, "forward"@, "iifname"@, tun@, "accept"@,
        ]);
        let g = ["add", "rule", "inet", "fluxpeer", "forward", "oifname", tun, "accept"];
        push_run(&mut out, "nft", g.as_slice());
        assert(strs(g@) =~= seq![
            "add"@, "rule"@, "inet"@, "fluxpeer"@, "forward"@, "oifname"@, tun@, "accept"@,
        ]);
        assert(acts(out@) =~= head + self.open_acts(phys@, tun@));
        assert(head =~= forwarding_up_acts(host@));
        out
    }

    /// Deletes the filter's own table.
    fn down(&self, phys: &str, tun: &str, fwd: &Forwarding, host: &FwHost) -> (out: Vec<Step>) {
        let mut out = no_steps();
        let a = ["delete", "table", "inet", "fluxpeer"];
        push_run(&mut out, "nft", a.as_slice());
        assert(strs(a@) =~= seq!["delete"@, "table"@, "inet"@, "fluxpeer"@]);
        assert(acts(out@) =~= self.close_acts(phys@, tun@));
        forwarding_down(fwd, host, &mut out);
        out
    }

    /// Drops what leaves and does not come from the tunnel.
    fn killswitch_on(&self, phys: &str, tun: &str) -> (out: Vec<Step>) {
        let mut out = no_steps();
        let a = ["add", "table", "inet", "fluxpeer"];
        push_run(&mut out, "nft", a.as_slice());
        assert(strs(a@) =~= seq!["add"@, "table"@, "inet"@, "fluxpeer"@]);
        let b = [
            "add", "chain", "inet", "fluxpeer", "forward", "{", "type", "filter", "hook", "forward",
            "priority", "filter", ";", "policy", "accept", ";", "}",
        ];
        push_run(&mut out, "nft", b.as_slice());
        assert(strs(b@) =~= seq![
            "add"@, "chain"@, "inet"@, "fluxpeer"@, "forward"@, "{"@, "type"@, "filter"@, "hook"@,
            "forward"@, "priority"@, "filter"@, ";"@, "policy"@, "accept"@, ";"@, "}"@,
        ]);
        push_accept_once(&mut out, "iifname", tun);
        push_accept_once(&mut out, "oifname", tun);
        push_step(
            &mut out,
            Step::DeleteListed(list_command(true), String::from_str(phys), String::from_str(tun)),
        );
        let d = [
            "add", "rule", "inet", "fluxpeer", "forward", "oifname", phys, "iifname", "!=", tun,
            "drop",
        ];
        push_run(&mut out, "nft", d.as_slice());
        assert(strs(d@) =~= seq![
            "add"@, "rule"@, "inet"@, "fluxpeer"@, "forward"@, "oifname"@, phys@, "iifname"@, "!="@,
            tun@, "drop"@,
        ]);
        assert(acts(out@) =~= self.block_acts(phys@, tun@));
        out
    }

    /// Deletes the rules that drop it.
    fn killswitch_off(&self, phys: &str, tun: &str) -> (out: Vec<Step>) {
        let mut out = no_steps();
        push_step(
            &mut out,
            Step::DeleteListed(list_command(true), String::from_str(phys), String::from_str(tun)),
        );
        assert(acts(out@) =~= self.unblock_acts(phys@, tun@));
        out
    }
}

/// Whether a line has all of some texts.
pub open spec fn has_all(line: Seq<char>, needles: Seq<Seq<char>>) -> bool {
    forall|i: int| 0 <= i < needles.len() ==> crate::words::has_part(line, #[trigger] needles[i])
}

/// Whether some line of a text has all of some texts.
pub open spec fn some_line_has(printed: Seq<char>, needles: Seq<Seq<char>>) -> bool {
    exists|i: int|
        0 <= i < crate::words::lines(printed).len() && has_all(
            #[trigger] crate::words::lines(printed)[i],
            needles,
        )
}

/// Whether a line has all of some texts.
fn line_has_all(line: &str, needles: &Vec<String>) -> (r: bool)
    ensures
        r == has_all(line@, crate::text::texts(needles@)),
{
    let mut i: usize = 0;
    while i < needles.len()
        invariant
            i <= needles@.len(),
            forall|j: int|
                0 <= j < i ==> crate::words::has_part(
                    line@,
                    #[trigger] crate::text::texts(needles@)[j],
                ),
        decreases needles@.len() - i,
    {
        assert(crate::text::texts(needles@)[i as int] == needles@[i as int]@);
        if !contains(line, needles[i].as_str()) {
            return false;
        }
        i += 1;
    }
    true
}

/// Whether a rule with all of some texts is among those that were printed; nothing printed is no
/// rule.
pub fn nft_forward_has(printed: &Option<String>, needles: &Vec<String>) -> (r: bool)
    ensures
        r == match *printed {
            Some(s) => some_line_has(s@, crate::text::texts(needles@)),
            None => false,
        },
{
    match printed {
        Some(s) => {
            let ls = split_lines(s.as_str());
            let mut i: usize = 0;
            while i < ls.len()
                invariant
                    i <= ls@.len(),
                    *printed == Some(*s),
                    crate::text::texts(ls@) == crate::words::lines(s@),
                    forall|j: int|
                        0 <= j < i ==> !has_all(
                            #[trigger] crate::words::lines(s@)[j],
                            crate::text::texts(needles@),
                        ),
                decreases ls@.len() - i,
            {
                assert(crate::words::lines(s@)[i as int] == ls@[i as int]@);
                if line_has_all(ls[i].as_str(), needles) {
                    assert(has_all(
                        crate::words::lines(s@)[i as int],
                        crate::text::texts(needles@),
                    ));
                    return true;
                }
                i += 1;
            }
            false
        },
        None => false,
    }
}

/// The words that follow the word `handle`.
pub open spec fn handles_in(ws: Seq<Seq<char>>) -> Seq<Seq<char>>
    decreases ws.len(),
{
    if ws.len() < 2 {
        seq![]
    } else {
        let rest = handles_in(ws.skip(1));
        if ws[0] == "handle"@ {
            seq![ws[1]] + rest
        } else {
            rest
        }
    }
}

/// Whether a printed rule drops what leaves by one interface and does not come from the other.
pub open spec fn drops(line: Seq<char>, phys: Seq<char>, tun: Seq<char>) -> bool {
    &&& crate::words::has_part(line, "drop"@)
    &&& crate::words::has_part(line, "oifname"@)
    &&& crate::words::has_part(line, phys)
    &&& crate::words::has_part(line, "iifname"@)
    &&& crate::words::has_part(line, tun)
}

/// The handles of the rules that drop what leaves by one interface and does not come from the
/// other.
pub open spec fn dropping(ls: Seq<Seq<char>>, phys: Seq<char>, tun: Seq<char>) -> Seq<Seq<char>>
    decreases ls.len(),
{
    if ls.len() == 0 {
        seq![]
    } else {
        let before = dropping(ls.drop_last(), phys, tun);
        if drops(ls.last(), phys, tun) {
            before + handles_in(crate::words::words(ls.last()))
        } else {
            before
        }
    }
}

/// The command that deletes a rule.
pub open spec fn delete_cmd(handle: Seq<char>) -> Act {
    run(
        "nft"@,
        seq![
            "delete"@,
            "rule"@,
            "inet"@,
            "fluxpeer"@,
            "forward"@,
            "handle"@,
            handle,
        ],
    )
}

/// The commands that delete the rules.
pub open spec fn delete_cmds(handles: Seq<Seq<char>>) -> Seq<Act> {
    handles.map_values(|h: Seq<char>| delete_cmd(h))
}

/// Adds the commands that delete the rules of a line.
fn push_deletes(out: &mut Vec<Step>, line: &str)
    ensures
        acts(final(out)@) == acts(old(out)@) + delete_cmds(handles_in(crate::words::words(line@))),
{
    let ws = split_words(line);
    let ghost vs = crate::text::texts(ws@);
    let ghost head = acts(out@);
    let mut i: usize = 0;
    assert(vs.skip(0) =~= vs);
    assert(acts(out@) + delete_cmds(handles_in(vs)) =~= head + delete_cmds(handles_in(vs)));
    while i < ws.len() && i + 1 < ws.len()
        invariant
            i <= ws@.len(),
            vs == crate::text::texts(ws@),
            acts(out@) + delete_cmds(handles_in(vs.skip(i as int))) == head + delete_cmds(
                handles_in(vs),
            ),
        decreases ws@.len() - i,
    {
        let ghost before = acts(out@);
        let ghost here = vs.skip(i as int);
        assert(here.skip(1) =~= vs.skip(i + 1));
        assert(here[0] == ws@[i as int]@ && here[1] == ws@[i + 1]@);
        if same_text(ws[i].as_str(), "handle") {
            let a = [
                "delete",
                "rule",
                "inet",
                "fluxpeer",
                "forward",
                "handle",
                ws[i + 1].as_str(),
            ];
            push_run(out, "nft", a.as_slice());
            assert(strs(a@) =~= seq![
                "delete"@,
                "rule"@,
                "inet"@,
                "fluxpeer"@,
                "forward"@,
                "handle"@,
                here[1],
            ]);
            assert(acts(out@) + delete_cmds(handles_in(vs.skip(i + 1))) =~= before + delete_cmds(
                handles_in(here),
            ));
        }
        i += 1;
    }
    assert(delete_cmds(handles_in(vs.skip(i as int))) =~= seq![]);
    assert(acts(out@) =~= head + delete_cmds(handles_in(vs)));
}

/// What deletes the rules that drop, among those that were printed.
pub fn nft_killswitch_delete(printed: &Option<String>, phys: &str, tun: &str) -> (out: Vec<Step>)
    ensures
        acts(out@) == match *printed {
            Some(s) => delete_cmds(dropping(crate::words::lines(s@), phys@, tun@)),
            None => seq![],
        },
{
    let mut out = no_steps();
    match printed {
        Some(s) => {
            let ls = split_lines(s.as_str());
            let ghost all = crate::text::texts(ls@);
            let mut i: usize = 0;
            assert(acts(out@) =~= delete_cmds(dropping(all.take(0), phys@, tun@)));
            while i < ls.len()
                invariant
                    i <= ls@.len(),
                    all == crate::text::texts(ls@),
                    acts(out@) == delete_cmds(dropping(all.take(i as int), phys@, tun@)),
                decreases ls@.len() - i,
            {
                let line = ls[i].as_str();
                proof {
                    assert(all.take(i + 1).drop_last() =~= all.take(i as int));
                    assert(all.take(i + 1).last() == line@);
                }
                if contains(line, "drop") && contains(line, "oifname") && contains(line, phys)
                    && contains(line, "iifname") && contains(line, tun) {
                    push_deletes(&mut out, line);
                    assert(acts(out@) =~= delete_cmds(dropping(all.take(i + 1), phys@, tun@)));
                }
                i += 1;
            }
            assert(all.take(all.len() as int) =~= all);
        },
        None => {},
    }
    out
}

/// A rule of iptables: where it stands, how it is added, and the rule.
pub struct Rule {
    pub table: Seq<Seq<char>>,
    pub op: Seq<char>,
    pub rule: Seq<Seq<char>>,
}

/// The command that does something to a rule.
pub open spec fn rule_cmd(bin: Seq<char>, r: Rule, op: Seq<char>) -> Command {
    Command { program: bin, args: r.table.push(op) + r.rule }
}

/// What adds a rule, unless it is there.
pub open spec fn ensure_act(bin: Seq<char>, r: Rule) -> Act {
    Act::Ensure(rule_cmd(bin, r, "-C"@), rule_cmd(bin, r, r.op))
}

/// What deletes a rule as often as it is there.
pub open spec fn drain_act(bin: Seq<char>, r: Rule) -> Act {
    Act::Drain(rule_cmd(bin, r, "-D"@), 256)
}

/// The rule that hides where traffic comes from.
pub open spec fn masquerade(phys: Seq<char>) -> Rule {
    Rule {
        table: seq!["-t"@, "nat"@],
        op: "-A"@,
        rule: seq!["POSTROUTING"@, "-o"@, phys, "-j"@, "MASQUERADE"@],
    }
}

/// The rule that accepts what comes from the tunnel (`-i`) or goes to it (`-o`).
pub open spec fn accept(side: Seq<char>, tun: Seq<char>) -> Rule {
    Rule { table: seq![], op: "-I"@, rule: seq!["FORWARD"@, side, tun, "-j"@, "ACCEPT"@] }
}

/// The rule that drops what leaves and does not come from the tunnel.
pub open spec fn drop_rule(phys: Seq<char>, tun: Seq<char>) -> Rule {
    Rule {
        table: seq![],
        op: "-A"@,
        rule: seq!["FORWARD"@, "-o"@, phys, "!"@, "-i"@, tun, "-j"@, "DROP"@],
    }
}

/// The rules that let the tunnel's traffic out.
pub open spec fn open_rules(phys: Seq<char>, tun: Seq<char>) -> Seq<Rule> {
    seq![masquerade(phys), accept("-i"@, tun), accept("-o"@, tun)]
}

/// What adds some rules.
pub open spec fn ensure_all(bin: Seq<char>, rules: Seq<Rule>) -> Seq<Act> {
    rules.map_values(|r: Rule| ensure_act(bin, r))
}

/// What deletes some rules.
pub open spec fn drain_all(bin: Seq<char>, rules: Seq<Rule>) -> Seq<Act> {
    rules.map_values(|r: Rule| drain_act(bin, r))
}

/// What is done with a rule.
#[derive(Clone, Copy, Debug, PartialEq, Eq, Structural)]
enum Way {
    Ensure,
    Drain,
}

/// What is done with a rule.
spec fn way_act(way: Way, bin: Seq<char>, r: Rule) -> Act {
    match way {
        Way::Ensure => ensure_act(bin, r),
        Way::Drain => drain_act(bin, r),
    }
}

/// Adds a rule, or deletes it.
fn push_rule(out: &mut Vec<Step>, way: Way, bin: &str, table: &[&str], op: &str, rule: &[&str])
    ensures
        acts(final(out)@) == acts(old(out)@).push(
            way_act(way, bin@, Rule { table: strs(table@), op: op@, rule: strs(rule@) }),
        ),
{
    match way {
        Way::Ensure => {
            let c = cmd_with(bin, table, "-C", rule);
            let d = cmd_with(bin, table, op, rule);
            push_step(out, Step::Ensure(c, d));
        },
        Way::Drain => {
            push_step(out, Step::Drain(cmd_with(bin, table, "-D", rule), 256));
        },
    }
}

/// Adds the rules that let the tunnel's traffic out, or deletes them.
fn push_open_rules(out: &mut Vec<Step>, way: Way, bin: &str, phys: &str, tun: &str)
    ensures
        acts(final(out)@) == acts(old(out)@) + seq![
            way_act(way, bin@, masquerade(phys@)),
            way_act(way, bin@, accept("-i"@, tun@)),
            way_act(way, bin@, accept("-o"@, tun@)),
        ],
{
    let t = ["-t", "nat"];
    let none: [&str; 0] = [];
    let m = ["POSTROUTING", "-o", phys, "-j", "MASQUERADE"];
    let i = ["FORWARD", "-i", tun, "-j", "ACCEPT"];
    let o = ["FORWARD", "-o", tun, "-j", "ACCEPT"];
    push_rule(out, way, bin, t.as_slice(), "-A", m.as_slice());
    push_rule(out, way, bin, none.as_slice(), "-I", i.as_slice());
    push_rule(out, way, bin, none.as_slice(), "-I", o.as_slice());
    assert(strs(t@) =~= seq!["-t"@, "nat"@]);
    assert(strs(none@) =~= seq![]);
    assert(strs(m@) =~= seq!["POSTROUTING"@, "-o"@, phys@, "-j"@, "MASQUERADE"@]);
    assert(strs(i@) =~= seq!["FORWARD"@, "-i"@, tun@, "-j"@, "ACCEPT"@]);
    assert(strs(o@) =~= seq!["FORWARD"@, "-o"@, tun@, "-j"@, "ACCEPT"@]);
    assert(acts(out@) =~= acts(old(out)@) + seq![
        way_act(way, bin@, masquerade(phys@)),
        way_act(way, bin@, accept("-i"@, tun@)),
        way_act(way, bin@, accept("-o"@, tun@)),
    ]);
}

/// Adds the rule that drops, or deletes it.
fn push_drop_rule(out: &mut Vec<Step>, way: Way, bin: &str, phys: &str, tun: &str)
    ensures
        acts(final(out)@) == acts(old(out)@).push(way_act(way, bin@, drop_rule(phys@, tun@))),
{
    let none: [&str; 0] = [];
    let r = ["FORWARD", "-o", phys, "!", "-i", tun, "-j", "DROP"];
    push_rule(out, way, bin, none.as_slice(), "-A", r.as_slice());
    assert(strs(none@) =~= seq![]);
    assert(strs(r@) =~= seq![
        "FORWARD"@,
        "-o"@,
        phys@,
        "!"@,
        "-i"@,
        tun@,
        "-j"@,
        "DROP"@,
    ]);
}

impl Firewall for Iptables {
    open spec fn label(&self) -> Seq<char> {
        "iptables"@
    }

    open spec fn forwards(&self) -> bool {
        true
    }

    open spec fn open_acts(&self, phys: Seq<char>, tun: Seq<char>) -> Seq<Act> {
        ensure_all("iptables"@, open_rules(phys, tun)) + ensure_all(
            "ip6tables"@,
            open_rules(phys, tun),
        )
    }

    open spec fn close_acts(&self, phys: Seq<char>, tun: Seq<char>) -> Seq<Act> {
        drain_all("iptables"@, open_rules(phys, tun)) + drain_all(
            "ip6tables"@,
            open_rules(phys, tun),
        )
    }

    open spec fn block_acts(&self, phys: Seq<char>, tun: Seq<char>) -> Seq<Act> {
        seq![
            ensure_act("iptables"@, drop_rule(phys, tun)),
            ensure_act("ip6tables"@, drop_rule(phys, tun)),
        ]
    }

    open spec fn unblock_acts(&self, phys: Seq<char>, tun: Seq<char>) -> Seq<Act> {
        seq![
            drain_act("iptables"@, drop_rule(phys, tun)),
            drain_act("ip6tables"@, drop_rule(phys, tun)),
        ]
    }

    /// The filter's name.
    fn name(&self) -> (s: &'static str) {
        "iptables"
    }

    /// Adds the rules for both protocols, each unless it is there.
    fn up(&self, phys: &str, tun: &str, fwd: &mut Forwarding, host: &FwHost) -> (out: Vec<Step>) {
        let mut out = no_steps();
        forwarding_up(fwd, host, &mut out);
        let ghost head = acts(out@);
        push_open_rules(&mut out, Way::Ensure, "iptables", phys, tun);
        push_open_rules(&mut out, Way::Ensure, "ip6tables", phys, tun);
        assert(acts(out@) =~= head + self.open_acts(phys@, tun@));
        assert(head =~= forwarding_up_acts(host@));
        out
    }

    /// Deletes the rules for both protocols.
    fn down(&self, phys: &str, tun: &str, fwd: &Forwarding, host: &FwHost) -> (out: Vec<Step>) {
        let mut out = no_steps();
        push_open_rules(&mut out, Way::Drain, "iptables", phys, tun);
        push_open_rules(&mut out, Way::Drain, "ip6tables", phys, tun);
        assert(acts(out@) =~= self.close_acts(phys@, tun@));
        forwarding_down(fwd, host, &mut out);
        out
    }

    /// Drops what leaves and does not come from the tunnel.
    fn killswitch_on(&self, phys: &str, tun: &str) -> (out: Vec<Step>) {
        let mut out = no_steps();
        push_drop_rule(&mut out, Way::Ensure, "iptables", phys, tun);
        push_drop_rule(&mut out, Way::Ensure, "ip6tables", phys, tun);
        assert(acts(out@) =~= self.block_acts(phys@, tun@));
        out
    }

    /// Deletes the rules that drop it.
    fn killswitch_off(&self, phys: &str, tun: &str) -> (out: Vec<Step>) {
        let mut out = no_steps();
        push_drop_rule(&mut out, Way::Drain, "iptables", phys, tun);
        push_drop_rule(&mut out, Way::Drain, "ip6tables", phys, tun);
        assert(acts(out@) =~= self.unblock_acts(phys@, tun@));
        out
    }
}

impl Firewall for Noop {
    open spec fn label(&self) -> Seq<char> {
        "none"@
    }

    open spec fn forwards(&self) -> bool {
        false
    }

    open spec fn open_acts(&self, phys: Seq<char>, tun: Seq<char>) -> Seq<Act> {
        seq![]
    }

    open spec fn close_acts(&self, phys: Seq<char>, tun: Seq<char>) -> Seq<Act> {
        seq![]
    }

    open spec fn block_acts(&self, phys: Seq<char>, tun: Seq<char>) -> Seq<Act> {
        seq![]
    }

    open spec fn unblock_acts(&self, phys: Seq<char>, tun: Seq<char>) -> Seq<Act> {
        seq![]
    }

    /// The filter's name.
    fn name(&self) -> (s: &'static str) {
        "none"
    }

    /// Nothing.
    fn up(&self, phys: &str, tun: &str, fwd: &mut Forwarding, host: &FwHost) -> (out: Vec<Step>) {
        no_steps()
    }

    /// Nothing.
    fn down(&self, phys: &str, tun: &str, fwd: &Forwarding, host: &FwHost) -> (out: Vec<Step>) {
        no_steps()
    }

    /// Nothing.
    fn killswitch_on(&self, phys: &str, tun: &str) -> (out: Vec<Step>) {
        no_steps()
    }

    /// Nothing.
    fn killswitch_off(&self, phys: &str, tun: &str) -> (out: Vec<Step>) {
        no_steps()
    }
}

/// One of the filters.
#[derive(Clone, Copy, Debug, PartialEq, Eq, Structural)]
pub enum FwBackend {
    Nft(Nft),
    Iptables(Iptables),
    Noop(Noop),
}

/// The filter: one that is named goes before all else, then nftables, then iptables, where the host
/// has them.
pub open spec fn pick(named: Option<Seq<char>>, nft: bool, iptables: bool) -> FwBackend {
    if named == Some("nft"@) {
        FwBackend::Nft(Nft)
    } else if named == Some("iptables"@) {
        FwBackend::Iptables(Iptables)
    } else if nft {
        FwBackend::Nft(Nft)
    } else if iptables {
        FwBackend::Iptables(Iptables)
    } else {
        FwBackend::Noop(Noop)
    }
}

/// Picks a filter by the environment's `FLUXPEER_FW_BACKEND` and by which of them the host has.
pub fn detect(named: &Option<String>, nft: bool, iptables: bool) -> (b: FwBackend)
    ensures
        b == pick(opt_text(*named), nft, iptables),
{
    match named {
        Some(n) => {
            if same_text(n.as_str(), "nft") {
                return FwBackend::Nft(Nft);
            }
            if same_text(n.as_str(), "iptables") {
                return FwBackend::Iptables(Iptables);
            }
        },
        None => {},
    }
    if nft {
        FwBackend::Nft(Nft)
    } else if iptables {
        FwBackend::Iptables(Iptables)
    } else {
        FwBackend::Noop(Noop)
    }
}

impl Firewall for FwBackend {
    open spec fn label(&self) -> Seq<char> {
        match *self {
            FwBackend::Nft(b) => b.label(),
            FwBackend::Iptables(b) => b.label(),
            FwBackend::Noop(b) => b.label(),
        }
    }

    open spec fn forwards(&self) -> bool {
        match *self {
            FwBackend::Nft(b) => b.forwards(),
            FwBackend::Iptables(b) => b.forwards(),
            FwBackend::Noop(b) => b.forwards(),
        }
    }

    open spec fn open_acts(&self, phys: Seq<char>, tun: Seq<char>) -> Seq<Act> {
        match *self {
            FwBackend::Nft(b) => b.open_acts(phys, tun),
            FwBackend::Iptables(b) => b.open_acts(phys, tun),
            FwBackend::Noop(b) => b.open_acts(phys, tun),
        }
    }

    open spec fn close_acts(&self, phys: Seq<char>, tun: Seq<char>) -> Seq<Act> {
        match *self {
            FwBackend::Nft(b) => b.close_acts(phys, tun),
            FwBackend::Iptables(b) => b.close_acts(phys, tun),
            FwBackend::Noop(b) => b.close_acts(phys, tun),
        }
    }

    open spec fn block_acts(&self, phys: Seq<char>, tun: Seq<char>) -> Seq<Act> {
        match *self {
            FwBackend::Nft(b) => b.block_acts(phys, tun),
            FwBackend::Iptables(b) => b.block_acts(phys, tun),
            FwBackend::Noop(b) => b.block_acts(phys, tun),
        }
    }

    open spec fn unblock_acts(&self, phys: Seq<char>, tun: Seq<char>) -> Seq<Act> {
        match *self {
            FwBackend::Nft(b) => b.unblock_acts(phys, tun),
            FwBackend::Iptables(b) => b.unblock_acts(phys, tun),
            FwBackend::Noop(b) => b.unblock_acts(phys, tun),
        }
    }

    /// The filter's name.
    fn name(&self) -> (s: &'static str) {
        match self {
            FwBackend::Nft(b) => b.name(),
            FwBackend::Iptables(b) => b.name(),
            FwBackend::Noop(b) => b.name(),
        }
    }

    /// Lets the tunnel's traffic out.
    fn up(&self, phys: &str, tun: &str, fwd: &mut Forwarding, host: &FwHost) -> (out: Vec<Step>) {
        match self {
            FwBackend::Nft(b) => b.up(phys, tun, fwd, host),
            FwBackend::Iptables(b) => b.up(phys, tun, fwd, host),
            FwBackend::Noop(b) => b.up(phys, tun, fwd, host),
        }
    }

    /// Stops letting it out.
    fn down(&self, phys: &str, tun: &str, fwd: &Forwarding, host: &FwHost) -> (out: Vec<Step>) {
        match self {
            FwBackend::Nft(b) => b.down(phys, tun, fwd, host),
            FwBackend::Iptables(b) => b.down(phys, tun, fwd, host),
            FwBackend::Noop(b) => b.down(phys, tun, fwd, host),
        }
    }

    /// Keeps everything but the tunnel's traffic from leaving.
    fn killswitch_on(&self, phys: &str, tun: &str) -> (out: Vec<Step>) {
        match self {
            FwBackend::Nft(b) => b.killswitch_on(phys, tun),
            FwBackend::Iptables(b) => b.killswitch_on(phys, tun),
            FwBackend::Noop(b) => b.killswitch_on(phys, tun),
        }
    }

    /// Lets everything leave again.
    fn killswitch_off(&self, phys: &str, tun: &str) -> (out: Vec<Step>) {
        match self {
            FwBackend::Nft(b) => b.killswitch_off(phys, tun),
            FwBackend::Iptables(b) => b.killswitch_off(phys, tun),
            FwBackend::Noop(b) => b.killswitch_off(phys, tun),
        }
    }
}

/// Forwarding goes back to what it was: what was found on before stays on, what was off is turned
/// off again.
pub proof fn forwarding_is_restored(host: FwFacts, later: FwFacts)
    ensures
        forwarding_down_acts(known(found(host), later)).contains(
            switch("net.ipv4.ip_forward="@, false),
        ) <==> !on(host.v4),
        forwarding_down_acts(known(found(host), later)).contains(
            switch("net.ipv6.conf.all.forwarding="@, false),
        ) <==> !on(host.v6),
{
    let down = forwarding_down_acts(known(found(host), later));
    let v4 = switch("net.ipv4.ip_forward="@, false);
    let v6 = switch("net.ipv6.conf.all.forwarding="@, false);
    keys_differ();
    if !on(host.v4) {
        assert(down[0] == v4);
    }
    if !on(host.v6) {
        assert(down[if on(host.v4) { 0int } else { 1int }] == v6);
    }
}

/// The two switches are two.
proof fn keys_differ()
    ensures
        switch("net.ipv4.ip_forward="@, false) != switch(
            "net.ipv6.conf.all.forwarding="@,
            false,
        ),
{
    reveal_strlit("net.ipv4.ip_forward=");
    reveal_strlit("net.ipv6.conf.all.forwarding=");
    reveal_strlit("0");
    let a = "net.ipv4.ip_forward="@ + "0"@;
    let b = "net.ipv6.conf.all.forwarding="@ + "0"@;
    assert(a[7] == '4');
    assert(b[7] == '6');
    let x = seq!["-w"@, a];
    let y = seq!["-w"@, b];
    assert(x[1] != y[1]);
}

/// A process that finds the file of one that stopped knows what that one found.
pub proof fn state_reads_back(v4: bool, v6: bool)
    ensures
        state_in(Some(state_text(v4, v6))) == Some((v4, v6)),
{
    reveal_strlit("v4=");
    reveal_strlit("v6=");
    reveal_strlit("\nv6=");
    reveal_strlit("\n");
    reveal_strlit("1");
    reveal_strlit("0");
    let s = state_text(v4, v6);
    let a = "v4="@ + bit(v4);
    let b = "v6="@ + bit(v6);
    assert(s =~= a + seq!['\n'] + b + seq!['\n']);
    crate::text::first_of_is(s, '\n', 4);
    assert(s.take(4) =~= a);
    let rest = s.skip(5);
    assert(rest =~= b + seq!['\n']);
    crate::text::first_of_is(rest, '\n', 4);
    assert(rest.take(4) =~= b);
    let end = rest.skip(5);
    assert(end.len() == 0);
    crate::words::first_of_bounds(end, '\n');
    crate::words::first_of_bounds(rest, '\n');
    crate::words::first_of_bounds(s, '\n');
    let ls = crate::words::lines(s);
    assert(crate::words::lines(end) =~= seq![]);
    assert(crate::words::lines(rest) =~= seq![b]);
    assert(ls =~= seq![a, b]);
    assert(ls.drop_last() =~= seq![a]);
    labels_differ(a);
    labels_differ(b);
    assert(crate::words::has_prefix(a, "v4="@)) by {
        assert(a.take(3) =~= "v4="@);
    }
    assert(crate::words::has_prefix(b, "v6="@)) by {
        assert(b.take(3) =~= "v6="@);
    }
    assert(a.skip(3) =~= bit(v4));
    assert(b.skip(3) =~= bit(v6));
    assert("1"@[0] == '1' && "0"@[0] == '0');
    assert(ls.drop_last().last() == a);
    assert(last_labelled(ls.drop_last(), "v4="@) == Some(v4));
    assert(last_labelled(ls, "v4="@) == Some(v4));
}

/// Every rule that iptables is given to let traffic out is deleted again, as often as it is there.
pub proof fn opened_is_closed(phys: Seq<char>, tun: Seq<char>, r: Rule)
    requires
        open_rules(phys, tun).contains(r),
    ensures
        Iptables.close_acts(phys, tun).contains(drain_act("iptables"@, r)),
        Iptables.close_acts(phys, tun).contains(drain_act("ip6tables"@, r)),
{
    let rules = open_rules(phys, tun);
    let i = choose|i: int| 0 <= i < rules.len() && rules[i] == r;
    let all = Iptables.close_acts(phys, tun);
    assert(all[i] == drain_act("iptables"@, r));
    assert(all[i + 3] == drain_act("ip6tables"@, r));
}

/// What iptables is given to keep traffic from leaving is deleted again, as often as it is there.
pub proof fn blocked_is_unblocked(phys: Seq<char>, tun: Seq<char>, i: int)
    requires
        0 <= i < Iptables.block_acts(phys, tun).len(),
    ensures
        exists|bin: Seq<char>|
            {
                &&& #[trigger] ensure_act(bin, drop_rule(phys, tun)) == Iptables.block_acts(
                    phys,
                    tun,
                )[i]
                &&& Iptables.unblock_acts(phys, tun)[i] == drain_act(bin, drop_rule(phys, tun))
            },
{
    let bin = if i == 0 {
        "iptables"@
    } else {
        "ip6tables"@
    };
    assert(ensure_act(bin, drop_rule(phys, tun)) == Iptables.block_acts(phys, tun)[i]);
}

/// Letting traffic out twice is the same as once: nftables begins by deleting its table, so that
/// nothing is left of the first time.
pub proof fn opening_starts_over(phys: Seq<char>, tun: Seq<char>)
    ensures
        Nft.open_acts(phys, tun).take(1) == Nft.close_acts(phys, tun),
{
    assert(Nft.open_acts(phys, tun).take(1) =~= Nft.close_acts(phys, tun));
}

/// All that nftables is given stands in a table of its own, and that table is deleted as a whole.
pub proof fn own_table_goes(phys: Seq<char>, tun: Seq<char>, i: int)
    requires
        1 <= i < Nft.open_acts(phys, tun).len(),
    ensures
        Nft.open_acts(phys, tun)[i] matches Act::Run(c) && c.program == "nft"@ && c.args[0]
            == "add"@ && c.args[2] == "inet"@ && c.args[3] == "fluxpeer"@,
        Nft.close_acts(phys, tun) == seq![
            run("nft"@, seq!["delete"@, "table"@, "inet"@, "fluxpeer"@]),
        ],
{
}

/// The words of rules that have to be told apart.
proof fn words_differ()
    ensures
        "rule"@ != "chain"@,
        "rule"@ != "table"@,
        "chain"@ != "table"@,
        "forward"@ != "postrouting"@,
        "accept"@ != "drop"@,
        "masquerade"@ != "drop"@,
        "fluxpeer"@ != "drop"@,
        "}"@ != "drop"@,
        "ACCEPT"@ != "DROP"@,
        "MASQUERADE"@ != "DROP"@,
        "ACCEPT"@ != "MASQUERADE"@,
{
    reveal_strlit("rule");
    reveal_strlit("chain");
    reveal_strlit("table");
    reveal_strlit("forward");
    reveal_strlit("postrouting");
    reveal_strlit("accept");
    reveal_strlit("drop");
    reveal_strlit("masquerade");
    reveal_strlit("fluxpeer");
    reveal_strlit("}");
    reveal_strlit("ACCEPT");
    reveal_strlit("DROP");
    reveal_strlit("MASQUERADE");
    assert("rule"@.len() == 4 && "chain"@.len() == 5 && "table"@.len() == 5);
    assert("chain"@[0] == 'c' && "table"@[0] == 't');
    assert("forward"@.len() == 7 && "postrouting"@.len() == 11);
    assert("accept"@.len() == 6 && "drop"@.len() == 4 && "masquerade"@.len() == 10);
    assert("fluxpeer"@.len() == 8 && "}"@.len() == 1);
    assert("ACCEPT"@.len() == 6 && "DROP"@.len() == 4 && "MASQUERADE"@.len() == 10);
}

/// Whether a step adds a rule to a chain of the node's own table.
pub open spec fn adds_rule(a: Act, chain: Seq<char>) -> bool {
    a matches Act::Run(c) && c.program == "nft"@ && c.args.len() > 5 && c.args[0] == "add"@
        && c.args[1] == "rule"@ && c.args[4] == chain
}

/// Whether a step adds a chain to the node's own table.
pub open spec fn adds_chain(a: Act, chain: Seq<char>) -> bool {
    a matches Act::Run(c) && c.program == "nft"@ && c.args.len() > 5 && c.args[0] == "add"@
        && c.args[1] == "chain"@ && c.args[4] == chain
}

/// A gateway lets through what it is there to forward: every rule that opening adds to the forward
/// chain accepts, in both directions of the tunnel; what leaves by the outer interface is
/// masqueraded, and no rule drops anything.
pub proof fn gateway_lets_through(phys: Seq<char>, tun: Seq<char>)
    ensures
        ({
            let v = Nft.open_acts(phys, tun);
            &&& forall|i: int|
                0 <= i < v.len() && adds_rule(#[trigger] v[i], "forward"@) ==> v[i]->Run_0.args.last()
                    == "accept"@
            &&& forall|i: int|
                0 <= i < v.len() ==> !(#[trigger] v[i] matches Act::Run(c) && c.args.last()
                    == "drop"@)
            &&& exists|i: int|
                0 <= i < v.len() && adds_rule(#[trigger] v[i], "forward"@)
                    && v[i]->Run_0.args.subrange(5, 8) == seq!["iifname"@, tun, "accept"@]
            &&& exists|i: int|
                0 <= i < v.len() && adds_rule(#[trigger] v[i], "forward"@)
                    && v[i]->Run_0.args.subrange(5, 8) == seq!["oifname"@, tun, "accept"@]
            &&& exists|i: int|
                0 <= i < v.len() && adds_rule(#[trigger] v[i], "postrouting"@)
                    && v[i]->Run_0.args.subrange(5, 8) == seq!["oifname"@, phys, "masquerade"@]
        }),
{
    words_differ();
    let v = Nft.open_acts(phys, tun);
    assert(v.len() == 7);
    assert(v[5]->Run_0.args.subrange(5, 8) =~= seq!["iifname"@, tun, "accept"@]);
    assert(v[6]->Run_0.args.subrange(5, 8) =~= seq!["oifname"@, tun, "accept"@]);
    assert(v[4]->Run_0.args.subrange(5, 8) =~= seq!["oifname"@, phys, "masquerade"@]);
    assert(adds_rule(v[5], "forward"@) && adds_rule(v[6], "forward"@));
    assert(adds_rule(v[4], "postrouting"@));
}

/// Every chain that opening adds hangs on the hook of its own name and accepts what no rule is
/// about; rules come after the chain that they are added to.
pub proof fn chains_hang_on_their_hooks(phys: Seq<char>, tun: Seq<char>, chain: Seq<char>, i: int)
    requires
        0 <= i < Nft.open_acts(phys, tun).len(),
    ensures
        ({
            let v = Nft.open_acts(phys, tun);
            &&& adds_chain(v[i], chain) ==> {
                let a = v[i]->Run_0.args;
                &&& a.len() == 17
                &&& a[8] == "hook"@
                &&& a[9] == chain
                &&& a[13] == "policy"@
                &&& a[14] == "accept"@
                &&& chain == "forward"@ ==> a[7] == "filter"@
                &&& chain == "postrouting"@ ==> a[7] == "nat"@
            }
            &&& adds_rule(v[i], chain) ==> exists|k: int|
                0 <= k < i && adds_chain(#[trigger] v[k], chain)
        }),
{
    words_differ();
    let v = Nft.open_acts(phys, tun);
    assert(adds_chain(v[2], "postrouting"@));
    assert(adds_chain(v[3], "forward"@));
}

/// The kill switch drops what leaves by the outer interface without having come from the tunnel,
/// after the tunnel's own traffic was let through and an earlier such rule was taken away; taking it
/// away again is all that switching it off does.
pub proof fn kill_switch_drops_the_rest(phys: Seq<char>, tun: Seq<char>)
    ensures
        ({
            let v = Nft.block_acts(phys, tun);
            let n = v.len() as int;
            &&& adds_rule(v.last(), "forward"@)
            &&& v.last()->Run_0.args.skip(5) == seq![
                "oifname"@,
                phys,
                "iifname"@,
                "!="@,
                tun,
                "drop"@,
            ]
            &&& Nft.unblock_acts(phys, tun) == seq![v[n - 2]]
            &&& v[n - 2] is DeleteListed
            &&& v[n - 2]->DeleteListed_1 == phys
            &&& v[n - 2]->DeleteListed_2 == tun
            &&& forall|i: int|
                0 <= i < n - 1 ==> !(#[trigger] v[i] matches Act::Run(c) && c.args.last() == "drop"@)
            &&& exists|i: int|
                0 <= i < n - 2 && (#[trigger] v[i] matches Act::UnlessListed(l, words, add)
                    && add.args.skip(5) == seq!["iifname"@, tun, "accept"@] && words == add.args.skip(
                    5,
                ))
            &&& exists|i: int|
                0 <= i < n - 2 && (#[trigger] v[i] matches Act::UnlessListed(l, words, add)
                    && add.args.skip(5) == seq!["oifname"@, tun, "accept"@] && words == add.args.skip(
                    5,
                ))
        }),
{
    words_differ();
    let v = Nft.block_acts(phys, tun);
    assert(v.len() == 6);
    assert(v[5]->Run_0.args.skip(5) =~= seq!["oifname"@, phys, "iifname"@, "!="@, tun, "drop"@]);
    assert(v[2]->UnlessListed_2.args.skip(5) =~= seq!["iifname"@, tun, "accept"@]);
    assert(v[3]->UnlessListed_2.args.skip(5) =~= seq!["oifname"@, tun, "accept"@]);
    assert(Nft.unblock_acts(phys, tun) =~= seq![v[4]]);
}

/// The rules by which the kill switch is found again are those that it adds: a listed line that has
/// the words of the rule is deleted by the number behind `handle`.
pub proof fn listed_rule_is_deleted(
    line: Seq<char>,
    phys: Seq<char>,
    tun: Seq<char>,
    i: int,
    ls: Seq<Seq<char>>,
)
    requires
        crate::words::has_part(line, "drop"@),
        crate::words::has_part(line, "oifname"@),
        crate::words::has_part(line, "iifname"@),
        crate::words::has_part(line, phys),
        crate::words::has_part(line, tun),
        0 <= i,
        i + 1 < crate::words::words(line).len(),
        crate::words::words(line)[i] == "handle"@,
        ls.contains(line),
    ensures
        dropping(ls, phys, tun).contains(crate::words::words(line)[i + 1]),
        delete_cmds(dropping(ls, phys, tun)).contains(
            run(
                "nft"@,
                seq![
                    "delete"@,
                    "rule"@,
                    "inet"@,
                    "fluxpeer"@,
                    "forward"@,
                    "handle"@,
                    crate::words::words(line)[i + 1],
                ],
            ),
        ),
    decreases ls.len(),
{
    let ws = crate::words::words(line);
    let h = ws[i + 1];
    handle_is_found(ws, i);
    dropping_has(ls, phys, tun, line, h);
    let d = dropping(ls, phys, tun);
    let k = choose|k: int| 0 <= k < d.len() && d[k] == h;
    assert(delete_cmds(d)[k] == delete_cmd(h));
}

/// The word behind `handle` is found.
proof fn handle_is_found(ws: Seq<Seq<char>>, i: int)
    requires
        0 <= i,
        i + 1 < ws.len(),
        ws[i] == "handle"@,
    ensures
        handles_in(ws).contains(ws[i + 1]),
    decreases ws.len(),
{
    let rest = handles_in(ws.skip(1));
    if i == 0 {
        assert(handles_in(ws)[0] == ws[1]);
    } else {
        assert(ws.skip(1)[i - 1] == ws[i]);
        handle_is_found(ws.skip(1), i - 1);
        let k = choose|k: int| 0 <= k < rest.len() && rest[k] == ws.skip(1)[i];
        if ws[0] == "handle"@ {
            assert(handles_in(ws)[k + 1] == ws[i + 1]);
        } else {
            assert(handles_in(ws)[k] == ws[i + 1]);
        }
    }
}

/// The handles of a line that drops are among those of all lines.
proof fn dropping_has(
    ls: Seq<Seq<char>>,
    phys: Seq<char>,
    tun: Seq<char>,
    line: Seq<char>,
    h: Seq<char>,
)
    requires
        ls.contains(line),
        drops(line, phys, tun),
        handles_in(crate::words::words(line)).contains(h),
    ensures
        dropping(ls, phys, tun).contains(h),
    decreases ls.len(),
{
    let front = ls.drop_last();
    let before = dropping(front, phys, tun);
    let own = handles_in(crate::words::words(ls.last()));
    let d = dropping(ls, phys, tun);
    let j = choose|j: int| 0 <= j < ls.len() && ls[j] == line;
    if j == ls.len() - 1 {
        let k = choose|k: int| 0 <= k < own.len() && own[k] == h;
        assert(d[before.len() + k] == h);
    } else {
        assert(front[j] == line);
        dropping_has(front, phys, tun, line, h);
        let k = choose|k: int| 0 <= k < before.len() && before[k] == h;
        assert(d[k] == h);
    }
}

/// A line that lets something through is never deleted.
pub proof fn accepting_lines_stay(line: Seq<char>, phys: Seq<char>, tun: Seq<char>)
    requires
        !crate::words::has_part(line, "drop"@) || !crate::words::has_part(line, phys)
            || !crate::words::has_part(line, tun),
    ensures
        dropping(seq![line], phys, tun).len() == 0,
{
    assert(seq![line].drop_last() =~= seq![]);
    assert(dropping(seq![], phys, tun) =~= seq![]);
}

/// With iptables a gateway accepts what comes from the tunnel and what goes to it, and masquerades
/// what leaves by the outer interface, for both versions of IP; it drops nothing. A rule is added
/// only where the check for the very same rule fails.
pub proof fn iptables_lets_through(phys: Seq<char>, tun: Seq<char>, i: int)
    requires
        0 <= i < Iptables.open_acts(phys, tun).len(),
    ensures
        ({
            let v = Iptables.open_acts(phys, tun);
            &&& v.len() == 6
            &&& v[i] matches Act::Ensure(check, add) && {
                let k = add.args.len() - 1;
                &&& add.program == (if i < 3 {
                    "iptables"@
                } else {
                    "ip6tables"@
                })
                &&& check.program == add.program
                &&& check.args.len() == add.args.len()
                &&& add.args.last() != "DROP"@
                &&& i % 3 == 0 ==> {
                    &&& add.args == seq![
                        "-t"@,
                        "nat"@,
                        "-A"@,
                        "POSTROUTING"@,
                        "-o"@,
                        phys,
                        "-j"@,
                        "MASQUERADE"@,
                    ]
                    &&& check.args == add.args.update(2, "-C"@)
                }
                &&& i % 3 != 0 ==> {
                    &&& add.args.last() == "ACCEPT"@
                    &&& add.args[0] == "-I"@
                    &&& add.args[1] == "FORWARD"@
                    &&& add.args[2] == (if i % 3 == 1 {
                        "-i"@
                    } else {
                        "-o"@
                    })
                    &&& add.args[3] == tun
                    &&& check.args == add.args.update(0, "-C"@)
                }
            }
        }),
{
    words_differ();
    let v = Iptables.open_acts(phys, tun);
    let r = open_rules(phys, tun);
    assert(v[i]->Ensure_1.args =~= r[i % 3].table.push(r[i % 3].op) + r[i % 3].rule);
    assert(v[i]->Ensure_0.args =~= r[i % 3].table.push("-C"@) + r[i % 3].rule);
    if i % 3 == 0 {
        assert(v[i]->Ensure_1.args =~= seq![
            "-t"@, "nat"@, "-A"@, "POSTROUTING"@, "-o"@, phys, "-j"@, "MASQUERADE"@,
        ]);
        assert(v[i]->Ensure_0.args =~= v[i]->Ensure_1.args.update(2, "-C"@));
    } else {
        assert(v[i]->Ensure_0.args =~= v[i]->Ensure_1.args.update(0, "-C"@));
    }
}

/// Closing deletes exactly the rules that opening added, however often they are there; so does
/// switching the kill switch off.
pub proof fn iptables_takes_back(phys: Seq<char>, tun: Seq<char>, i: int)
    requires
        0 <= i < Iptables.open_acts(phys, tun).len(),
    ensures
        ({
            let o = Iptables.open_acts(phys, tun);
            let c = Iptables.close_acts(phys, tun);
            let at = if i % 3 == 0 {
                2int
            } else {
                0int
            };
            &&& c.len() == o.len()
            &&& c[i] matches Act::Drain(del, most) && {
                &&& most >= 1
                &&& del.program == o[i]->Ensure_1.program
                &&& del.args == o[i]->Ensure_1.args.update(at, "-D"@)
            }
        }),
{
    let o = Iptables.open_acts(phys, tun);
    let c = Iptables.close_acts(phys, tun);
    let r = open_rules(phys, tun)[i % 3];
    let at = if i % 3 == 0 {
        2int
    } else {
        0int
    };
    assert(c[i]->Drain_0.args =~= r.table.push("-D"@) + r.rule);
    assert(o[i]->Ensure_1.args =~= r.table.push(r.op) + r.rule);
    assert(c[i]->Drain_0.args =~= o[i]->Ensure_1.args.update(at, "-D"@));
}

/// With iptables the kill switch drops what leaves by the outer interface without having come from
/// the tunnel, for both versions of IP, behind what the gateway accepts.
pub proof fn iptables_kill_switch(phys: Seq<char>, tun: Seq<char>, i: int)
    requires
        0 <= i < Iptables.block_acts(phys, tun).len(),
    ensures
        ({
            let v = Iptables.block_acts(phys, tun);
            let u = Iptables.unblock_acts(phys, tun);
            &&& v.len() == 2
            &&& u.len() == 2
            &&& v[i] matches Act::Ensure(check, add) && {
                &&& add.program == (if i == 0 {
                    "iptables"@
                } else {
                    "ip6tables"@
                })
                &&& add.args == seq![
                    "-A"@,
                    "FORWARD"@,
                    "-o"@,
                    phys,
                    "!"@,
                    "-i"@,
                    tun,
                    "-j"@,
                    "DROP"@,
                ]
                &&& check.program == add.program
                &&& check.args == add.args.update(0, "-C"@)
                &&& u[i] matches Act::Drain(del, most) && del.program == add.program && del.args
                    == add.args.update(0, "-D"@) && most >= 1
            }
        }),
{
    let v = Iptables.block_acts(phys, tun);
    let u = Iptables.unblock_acts(phys, tun);
    let r = drop_rule(phys, tun);
    assert(v[i]->Ensure_1.args =~= r.table.push(r.op) + r.rule);
    assert(v[i]->Ensure_1.args =~= seq![
        "-A"@, "FORWARD"@, "-o"@, phys, "!"@, "-i"@, tun, "-j"@, "DROP"@,
    ]);
    assert(v[i]->Ensure_0.args =~= v[i]->Ensure_1.args.update(0, "-C"@));
    assert(u[i]->Drain_0.args =~= v[i]->Ensure_1.args.update(0, "-D"@));
}

/// A host that becomes a gateway forwards both versions of IP, and what it did before is written
/// down first, unless it was already.
pub proof fn forwarding_is_switched_on(host: FwFacts)
    ensures
        ({
            let v = forwarding_up_acts(host);
            &&& v.len() == 3
            &&& v[0] is WriteNew
            &&& state_in(Some(v[0]->WriteNew_1)) == Some((on(host.v4), on(host.v6)))
            &&& v[1] == run("sysctl"@, seq!["-w"@, "net.ipv4.ip_forward=1"@])
            &&& v[2] == run("sysctl"@, seq!["-w"@, "net.ipv6.conf.all.forwarding=1"@])
            &&& found(host).touched
            &&& known(found(host), host) == Some((on(host.v4), on(host.v6)))
        }),
{
    state_reads_back(on(host.v4), on(host.v6));
    reveal_strlit("net.ipv4.ip_forward=");
    reveal_strlit("net.ipv4.ip_forward=1");
    reveal_strlit("net.ipv6.conf.all.forwarding=");
    reveal_strlit("net.ipv6.conf.all.forwarding=1");
    reveal_strlit("1");
    assert("net.ipv4.ip_forward="@ + "1"@ =~= "net.ipv4.ip_forward=1"@);
    assert("net.ipv6.conf.all.forwarding="@ + "1"@ =~= "net.ipv6.conf.all.forwarding=1"@);
}

/// A host that forwarded nothing before forwards nothing afterwards, and one that did goes on; where
/// it is not known what it did, nothing is touched.
pub proof fn forwarding_is_put_back(v4: bool, v6: bool)
    ensures
        ({
            let v = forwarding_down_acts(Some((v4, v6)));
            let off4 = run("sysctl"@, seq!["-w"@, "net.ipv4.ip_forward=0"@]);
            let off6 = run("sysctl"@, seq!["-w"@, "net.ipv6.conf.all.forwarding=0"@]);
            &&& v == (if v4 {
                seq![]
            } else {
                seq![off4]
            }) + (if v6 {
                seq![]
            } else {
                seq![off6]
            }) + seq![v.last()]
            &&& v.last() is Remove
            &&& forwarding_down_acts(None).len() == 0
        }),
{
    reveal_strlit("net.ipv4.ip_forward=");
    reveal_strlit("net.ipv4.ip_forward=0");
    reveal_strlit("net.ipv6.conf.all.forwarding=");
    reveal_strlit("net.ipv6.conf.all.forwarding=0");
    reveal_strlit("0");
    assert("net.ipv4.ip_forward="@ + "0"@ =~= "net.ipv4.ip_forward=0"@);
    assert("net.ipv6.conf.all.forwarding="@ + "0"@ =~= "net.ipv6.conf.all.forwarding=0"@);
}

/// The file that is written is the one that is read and removed again.
pub proof fn one_state_file(host: FwFacts, v4: bool, v6: bool)
    ensures
        forwarding_down_acts(Some((v4, v6))).last() == Act::Remove(
            forwarding_up_acts(host)[0]->WriteNew_0,
        ),
{
}

/// A named way is taken; otherwise nftables if it works, then iptables, and none only where neither
/// does. Only a way that opens anything forwards.
pub proof fn the_way_is_chosen(named: Option<Seq<char>>, nft: bool, iptables: bool)
    ensures
        named == Some("nft"@) ==> pick(named, nft, iptables) is Nft,
        named == Some("iptables"@) ==> pick(named, nft, iptables) is Iptables,
        named is None && nft ==> pick(named, nft, iptables) is Nft,
        named is None && !nft && iptables ==> pick(named, nft, iptables) is Iptables,
        named is None && !nft && !iptables ==> pick(named, nft, iptables) is Noop,
        pick(named, nft, iptables).forwards() <==> !(pick(named, nft, iptables) is Noop),
{
    reveal_strlit("nft");
    reveal_strlit("iptables");
    assert("nft"@.len() == 3 && "iptables"@.len() == 8);
}

/// A chosen way does what it does by itself.
pub proof fn chosen_way_is_itself(phys: Seq<char>, tun: Seq<char>)
    ensures
        FwBackend::Nft(Nft).open_acts(phys, tun) == Nft.open_acts(phys, tun),
        FwBackend::Nft(Nft).close_acts(phys, tun) == Nft.close_acts(phys, tun),
        FwBackend::Nft(Nft).block_acts(phys, tun) == Nft.block_acts(phys, tun),
        FwBackend::Nft(Nft).unblock_acts(phys, tun) == Nft.unblock_acts(phys, tun),
        FwBackend::Iptables(Iptables).open_acts(phys, tun) == Iptables.open_acts(phys, tun),
        FwBackend::Iptables(Iptables).close_acts(phys, tun) == Iptables.close_acts(phys, tun),
        FwBackend::Iptables(Iptables).block_acts(phys, tun) == Iptables.block_acts(phys, tun),
        FwBackend::Iptables(Iptables).unblock_acts(phys, tun) == Iptables.unblock_acts(phys, tun),
        FwBackend::Noop(Noop).open_acts(phys, tun).len() == 0,
        FwBackend::Noop(Noop).close_acts(phys, tun).len() == 0,
        FwBackend::Noop(Noop).block_acts(phys, tun).len() == 0,
        FwBackend::Noop(Noop).unblock_acts(phys, tun).len() == 0,
{
}

/// A rule counts as listed only if one and the same line has every word of it.
pub proof fn listed_on_one_line(line: Seq<char>, rest: Seq<char>, a: Seq<char>, b: Seq<char>)
    requires
        !line.contains('\n'),
        line.len() > 0,
    ensures
        some_line_has(line, seq![a, b]) <==> crate::words::has_part(line, a)
            && crate::words::has_part(line, b),
        crate::words::has_part(line, a) && crate::words::has_part(line, b) && line.last() != '\r'
            ==> some_line_has(line + seq!['\n'] + rest, seq![a, b]),
        some_line_has(rest, seq![a, b]) && line.last() != '\r' ==> some_line_has(
            line + seq!['\n'] + rest,
            seq![a, b],
        ),
        !some_line_has(Seq::<char>::empty(), seq![a, b]),
{
    let n = seq![a, b];
    crate::words::lines_are_cut_at_ends(line, rest);
    assert(n[0] == a && n[1] == b);
    let one = crate::words::lines(line);
    assert(one[0] == line);
    if crate::words::has_part(line, a) && crate::words::has_part(line, b) {
        assert(has_all(line, n));
        assert(has_all(one[0], n));
    }
    if some_line_has(line, n) {
        let i = choose|i: int| 0 <= i < one.len() && has_all(#[trigger] one[i], n);
        assert(crate::words::has_part(line, n[0]) && crate::words::has_part(line, n[1]));
    }
    if line.last() != '\r' {
        let all = crate::words::lines(line + seq!['\n'] + rest);
        assert(all[0] == line);
        if some_line_has(rest, n) {
            let ls = crate::words::lines(rest);
            let i = choose|i: int| 0 <= i < ls.len() && has_all(#[trigger] ls[i], n);
            assert(all[i + 1] == ls[i]);
            assert(has_all(all[i + 1], n));
        }
        if crate::words::has_part(line, a) && crate::words::has_part(line, b) {
            assert(has_all(all[0], n));
        }
    }
}

/// Rules are looked for in the forward chain of the node's own table, with their handles where one
/// of them is to be deleted.
pub proof fn own_chain_is_listed(phys: Seq<char>, tun: Seq<char>)
    ensures
        ({
            let v = Nft.block_acts(phys, tun);
            let chain = seq!["list"@, "chain"@, "inet"@, "fluxpeer"@, "forward"@];
            &&& v[2] matches Act::UnlessListed(l, w, c) && l.program == "nft"@ && l.args == chain
                && c.program == "nft"@
            &&& v[3] matches Act::UnlessListed(l, w, c) && l.program == "nft"@ && l.args == chain
                && c.program == "nft"@
            &&& v[4] matches Act::DeleteListed(l, p, t) && l.program == "nft"@ && l.args == seq![
                "-a"@,
            ] + chain
        }),
{
    let v = Nft.block_acts(phys, tun);
    let chain = seq!["list"@, "chain"@, "inet"@, "fluxpeer"@, "forward"@];
    assert(seq!["-a"@] + chain =~= seq![
        "-a"@, "list"@, "chain"@, "inet"@, "fluxpeer"@, "forward"@,
    ]);
}

} // verus!
