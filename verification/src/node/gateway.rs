//! A host that carries others' traffic to the outside, and a host whose own traffic goes through
//! such a one.

use crate::node::dns::{opt_text, Dns, DnsBackend, DnsFacts, DnsHost};
use crate::node::firewall::{
    forwarding_down_acts, forwarding_up_acts, found, known, Firewall, Forwarding, FwBackend,
    FwFacts, FwHost,
};
use crate::node::host::{
    acts, cmd, no_steps, push_run, push_step, run, strs, Act, Command, Os, Step,
};
use crate::node::route::{
    default_gateway, exit_down, exit_down_acts, exit_up, exit_up_acts, interface_in, name_acts,
    needs_bypass, physical_iface,
};
use crate::node::sorted::{ascending, sorted_texts};
use crate::mesh::reconcile::PeerInfo;
use crate::text::{copy_texts, has_text};
use crate::words::contains;
use vstd::prelude::*;
use vstd::string::StringExecFns;

verus! {

/// A line for PowerShell.
pub open spec fn powershell(script: Seq<char>) -> Act {
    run("powershell"@, seq!["-NoProfile"@, "-Command"@, script])
}

/// Adds a line for PowerShell.
fn win_ps(out: &mut Vec<Step>, script: &str)
    ensures
        acts(final(out)@) == acts(old(out)@).push(powershell(script@)),
{
    let a = ["-NoProfile", "-Command", script];
    push_run(out, "powershell", a.as_slice());
    assert(strs(a@) =~= seq!["-NoProfile"@, "-Command"@, script@]);
}

/// A text between two others.
fn between(front: &str, middle: &str, back: &str) -> (s: String)
    ensures
        s@ == front@ + middle@ + back@,
{
    let mut s = String::from_str(front);
    s.append(middle);
    s.append(back);
    s
}

/// What a process changed of its host as a gateway.
#[derive(Clone, Copy, Debug, PartialEq, Eq, Structural)]
pub struct Gateway {
    /// The forwarding from before.
    pub fwd: Forwarding,
    /// Whether this process turned the packet filter of macOS on.
    pub pf_ours: bool,
}

/// The rule that hides where the network's traffic comes from, for the packet filter of macOS.
pub open spec fn pf_rule(phys: Seq<char>, overlay: Seq<char>) -> Seq<char> {
    "nat on "@ + phys + " from "@ + overlay + " to any -> ("@ + phys + ")\n"@
}

/// The rules that the packet filter of macOS is loaded with: the system's own and this one's.
pub open spec fn pf_rules() -> Seq<char> {
    "scrub-anchor \"com.apple/*\"\nnat-anchor \"com.apple/*\"\nnat-anchor \"fluxpeer-exit\"\nrdr-anchor \"com.apple/*\"\ndummynet-anchor \"com.apple/*\"\nanchor \"com.apple/*\"\nload anchor \"com.apple\" from \"/etc/pf.anchors/com.apple\"\nload anchor \"fluxpeer-exit\" from \"/etc/pf.anchors/fluxpeer-exit\"\n"@
}

/// What turns a host into a gateway, up to the loading of rules on macOS.
pub open spec fn gateway_acts(
    os: Os,
    fw: FwBackend,
    phys: Seq<char>,
    tun: Seq<char>,
    overlay: Seq<char>,
    host: FwFacts,
) -> Seq<Act> {
    match os {
        Os::Linux => if fw.forwards() {
            forwarding_up_acts(host) + fw.open_acts(phys, tun)
        } else {
            fw.open_acts(phys, tun)
        },
        Os::Windows => seq![
            powershell(
                "Set-NetIPInterface -InterfaceAlias '"@ + tun
                    + "' -Forwarding Enabled -ErrorAction SilentlyContinue"@,
            ),
            powershell(
                "Get-NetIPInterface -AddressFamily IPv4 | Set-NetIPInterface -Forwarding Enabled -ErrorAction SilentlyContinue"@,
            ),
            powershell("Start-Service winnat -ErrorAction SilentlyContinue"@),
            powershell(
                "Remove-NetNat -Name fluxpeer-exit -Confirm:$false -ErrorAction SilentlyContinue"@,
            ),
            powershell(
                "New-NetNat -Name fluxpeer-exit -InternalIPInterfaceAddressPrefix '"@ + overlay
                    + "' -ErrorAction SilentlyContinue"@,
            ),
        ],
        Os::Macos => seq![
            run("sysctl"@, seq!["-w"@, "net.inet.ip.forwarding=1"@]),
            Act::Write("/etc/pf.anchors/fluxpeer-exit"@, pf_rule(phys, overlay)),
        ],
        Os::Other => seq![],
    }
}

/// Turns a host into a gateway for the network `overlay`: forwards, and hides where traffic comes
/// from. On macOS `pf_load` goes on.
pub fn exit_gateway_up(
    os: Os,
    fw: &FwBackend,
    phys: &str,
    tun: &str,
    overlay: &str,
    gw: &mut Gateway,
    host: &FwHost,
) -> (out: Vec<Step>)
    ensures
        acts(out@) == gateway_acts(os, *fw, phys@, tun@, overlay@, host@),
        final(gw).pf_ours == old(gw).pf_ours,
        final(gw).fwd == if os == Os::Linux && fw.forwards() {
            found(host@)
        } else {
            old(gw).fwd
        },
{
    match os {
        Os::Linux => {
            let mut fwd = gw.fwd;
            let out = fw.up(phys, tun, &mut fwd, host);
            gw.fwd = fwd;
            out
        },
        Os::Windows => {
            let mut out = no_steps();
            let a = between(
                "Set-NetIPInterface -InterfaceAlias '",
                tun,
                "' -Forwarding Enabled -ErrorAction SilentlyContinue",
            );
            let b = between(
                "New-NetNat -Name fluxpeer-exit -InternalIPInterfaceAddressPrefix '",
                overlay,
                "' -ErrorAction SilentlyContinue",
            );
            win_ps(&mut out, a.as_str());
            win_ps(
                &mut out,
                "Get-NetIPInterface -AddressFamily IPv4 | Set-NetIPInterface -Forwarding Enabled -ErrorAction SilentlyContinue",
            );
            win_ps(&mut out, "Start-Service winnat -ErrorAction SilentlyContinue");
            win_ps(
                &mut out,
                "Remove-NetNat -Name fluxpeer-exit -Confirm:$false -ErrorAction SilentlyContinue",
            );
            win_ps(&mut out, b.as_str());
            assert(acts(out@) =~= gateway_acts(os, *fw, phys@, tun@, overlay@, host@));
            out
        },
        Os::Macos => {
            let mut out = no_steps();
            let a = ["-w", "net.inet.ip.forwarding=1"];
            push_run(&mut out, "sysctl", a.as_slice());
            assert(strs(a@) =~= seq!["-w"@, "net.inet.ip.forwarding=1"@]);
            let mut rule = between("nat on ", phys, " from ");
            rule.append(overlay);
            rule.append(" to any -> (");
            rule.append(phys);
            rule.append(")\n");
            push_step(
                &mut out,
                Step::Write(String::from_str("/etc/pf.anchors/fluxpeer-exit"), rule),
            );
            assert(acts(out@) =~= gateway_acts(os, *fw, phys@, tun@, overlay@, host@));
            out
        },
        Os::Other => no_steps(),
    }
}

/// Whether the packet filter of macOS says that it is on.
pub open spec fn pf_on(info: Option<Seq<char>>) -> bool {
    info matches Some(s) && crate::words::has_part(s, "Status: Enabled"@)
}

/// Loads the rules of macOS, once this one's file is written, and turns the filter on. `info` is
/// what the filter says of itself before that.
pub fn pf_load(written: bool, info: &Option<String>, gw: &mut Gateway) -> (out: Vec<Step>)
    ensures
        final(gw).fwd == old(gw).fwd,
        final(gw).pf_ours == (old(gw).pf_ours || written && !pf_on(opt_text(*info))),
        acts(out@) == if written {
            seq![
                Act::Feed(Command { program: "pfctl"@, args: seq!["-f"@, "-"@] }, pf_rules()),
                run("pfctl"@, seq!["-e"@]),
            ]
        } else {
            seq![]
        },
{
    let mut out = no_steps();
    if !written {
        return out;
    }
    let was_on = match info {
        Some(s) => contains(s.as_str(), "Status: Enabled"),
        None => false,
    };
    let a = ["-f", "-"];
    let b = ["-e"];
    push_step(
        &mut out,
        Step::Feed(
            cmd("pfctl", a.as_slice()),
            String::from_str(
                "scrub-anchor \"com.apple/*\"\nnat-anchor \"com.apple/*\"\nnat-anchor \"fluxpeer-exit\"\nrdr-anchor \"com.apple/*\"\ndummynet-anchor \"com.apple/*\"\nanchor \"com.apple/*\"\nload anchor \"com.apple\" from \"/etc/pf.anchors/com.apple\"\nload anchor \"fluxpeer-exit\" from \"/etc/pf.anchors/fluxpeer-exit\"\n",
            ),
        ),
    );
    push_run(&mut out, "pfctl", b.as_slice());
    if !was_on {
        gw.pf_ours = true;
    }
    assert(strs(a@) =~= seq!["-f"@, "-"@]);
    assert(strs(b@) =~= seq!["-e"@]);
    assert(acts(out@) =~= seq![
        Act::Feed(Command { program: "pfctl"@, args: seq!["-f"@, "-"@] }, pf_rules()),
        run("pfctl"@, seq!["-e"@]),
    ]);
    out
}

/// What turns a gateway back into a host.
pub open spec fn ungateway_acts(
    os: Os,
    fw: FwBackend,
    phys: Seq<char>,
    tun: Seq<char>,
    gw: Gateway,
    host: FwFacts,
) -> Seq<Act> {
    match os {
        Os::Linux => if fw.forwards() {
            fw.close_acts(phys, tun) + forwarding_down_acts(known(gw.fwd, host))
        } else {
            fw.close_acts(phys, tun)
        },
        Os::Windows => seq![
            powershell(
                "Remove-NetNat -Name fluxpeer-exit -Confirm:$false -ErrorAction SilentlyContinue"@,
            ),
        ],
        Os::Macos => {
            let s = seq![
                run("pfctl"@, seq!["-a"@, "fluxpeer-exit"@, "-F"@, "nat"@]),
                run("pfctl"@, seq!["-f"@, "/etc/pf.conf"@]),
                Act::Remove("/etc/pf.anchors/fluxpeer-exit"@),
            ];
            if gw.pf_ours {
                s.push(run("pfctl"@, seq!["-d"@]))
            } else {
                s
            }
        },
        Os::Other => seq![],
    }
}

/// Turns a gateway back into a host. On macOS the packet filter goes off only if it was this
/// process that turned it on.
pub fn exit_gateway_down(
    os: Os,
    fw: &FwBackend,
    phys: &str,
    tun: &str,
    gw: &mut Gateway,
    host: &FwHost,
) -> (out: Vec<Step>)
    ensures
        acts(out@) == ungateway_acts(os, *fw, phys@, tun@, *old(gw), host@),
        final(gw).fwd == old(gw).fwd,
        final(gw).pf_ours == (old(gw).pf_ours && os != Os::Macos),
{
    match os {
        Os::Linux => fw.down(phys, tun, &gw.fwd, host),
        Os::Windows => {
            let mut out = no_steps();
            win_ps(
                &mut out,
                "Remove-NetNat -Name fluxpeer-exit -Confirm:$false -ErrorAction SilentlyContinue",
            );
            assert(acts(out@) =~= ungateway_acts(os, *fw, phys@, tun@, *old(gw), host@));
            out
        },
        Os::Macos => {
            let mut out = no_steps();
            let a = ["-a", "fluxpeer-exit", "-F", "nat"];
            let b = ["-f", "/etc/pf.conf"];
            push_run(&mut out, "pfctl", a.as_slice());
            push_run(&mut out, "pfctl", b.as_slice());
            assert(strs(a@) =~= seq!["-a"@, "fluxpeer-exit"@, "-F"@, "nat"@]);
            assert(strs(b@) =~= seq!["-f"@, "/etc/pf.conf"@]);
            push_step(&mut out, Step::Remove(String::from_str("/etc/pf.anchors/fluxpeer-exit")));
            if gw.pf_ours {
                let c = ["-d"];
                push_run(&mut out, "pfctl", c.as_slice());
                assert(strs(c@) =~= seq!["-d"@]);
                gw.pf_ours = false;
            }
            assert(acts(out@) =~= ungateway_acts(os, *fw, phys@, tun@, *old(gw), host@));
            out
        },
        Os::Other => no_steps(),
    }
}

/// What points the host at a name server while its traffic goes through the tunnel.
pub open spec fn set_dns_acts(
    os: Os,
    backend: DnsBackend,
    dev: Seq<char>,
    dns: Seq<char>,
    host: DnsFacts,
) -> Seq<Act> {
    match os {
        Os::Macos => seq![
            Act::Feed(
                Command { program: "scutil"@, args: seq![] },
                "d.init\nd.add ServerAddresses * "@ + dns
                    + "\nset State:/Network/Service/fluxpeer-"@ + dev + "/DNS\nquit\n"@,
            ),
        ],
        Os::Windows => seq![
            powershell(
                "Set-DnsClientServerAddress -InterfaceAlias '"@ + dev + "' -ServerAddresses '"@
                    + dns + "' -ErrorAction SilentlyContinue"@,
            ),
        ],
        _ => backend.set_acts(dns, host),
    }
}

/// Points the host at a name server.
pub fn set_dns(os: Os, backend: &DnsBackend, dev: &str, dns: &str, host: &DnsHost) -> (out: Vec<
    Step,
>)
    ensures
        acts(out@) == set_dns_acts(os, *backend, dev@, dns@, host@),
{
    match os {
        Os::Macos => {
            let mut out = no_steps();
            let mut s = between(
                "d.init\nd.add ServerAddresses * ",
                dns,
                "\nset State:/Network/Service/fluxpeer-",
            );
            s.append(dev);
            s.append("/DNS\nquit\n");
            let none: [&str; 0] = [];
            assert(strs(none@) =~= seq![]);
            push_step(&mut out, Step::Feed(cmd("scutil", none.as_slice()), s));
            assert(acts(out@) =~= set_dns_acts(os, *backend, dev@, dns@, host@));
            out
        },
        Os::Windows => {
            let mut out = no_steps();
            let mut s = between(
                "Set-DnsClientServerAddress -InterfaceAlias '",
                dev,
                "' -ServerAddresses '",
            );
            s.append(dns);
            s.append("' -ErrorAction SilentlyContinue");
            win_ps(&mut out, s.as_str());
            assert(acts(out@) =~= set_dns_acts(os, *backend, dev@, dns@, host@));
            out
        },
        Os::Linux => backend.set(dns, host),
        Os::Other => backend.set(dns, host),
    }
}

/// What undoes it.
pub open spec fn reset_dns_acts(os: Os, backend: DnsBackend, dev: Seq<char>, host: DnsFacts) -> Seq<
    Act,
> {
    match os {
        Os::Macos => seq![
            Act::Feed(
                Command { program: "scutil"@, args: seq![] },
                "remove State:/Network/Service/fluxpeer-"@ + dev + "/DNS\nquit\n"@,
            ),
        ],
        Os::Windows => seq![
            powershell(
                "Set-DnsClientServerAddress -InterfaceAlias '"@ + dev
                    + "' -ResetServerAddresses -ErrorAction SilentlyContinue"@,
            ),
        ],
        _ => backend.clear_acts(host),
    }
}

/// Goes back to the name servers from before.
pub fn reset_dns(os: Os, backend: &DnsBackend, dev: &str, host: &DnsHost) -> (out: Vec<Step>)
    ensures
        acts(out@) == reset_dns_acts(os, *backend, dev@, host@),
{
    match os {
        Os::Macos => {
            let mut out = no_steps();
            let s = between("remove State:/Network/Service/fluxpeer-", dev, "/DNS\nquit\n");
            let none: [&str; 0] = [];
            assert(strs(none@) =~= seq![]);
            push_step(&mut out, Step::Feed(cmd("scutil", none.as_slice()), s));
            assert(acts(out@) =~= reset_dns_acts(os, *backend, dev@, host@));
            out
        },
        Os::Windows => {
            let mut out = no_steps();
            let s = between(
                "Set-DnsClientServerAddress -InterfaceAlias '",
                dev,
                "' -ResetServerAddresses -ErrorAction SilentlyContinue",
            );
            win_ps(&mut out, s.as_str());
            assert(acts(out@) =~= reset_dns_acts(os, *backend, dev@, host@));
            out
        },
        Os::Linux => backend.clear(host),
        Os::Other => backend.clear(host),
    }
}

/// Whether a member takes everything.
pub open spec fn is_exit(p: PeerInfo) -> bool {
    crate::text::texts(p.allowed_ips@).contains("0.0.0.0/0"@)
}

/// The first member that takes everything, the number of members where none does.
pub open spec fn first_exit(peers: Seq<PeerInfo>) -> int
    decreases peers.len(),
{
    if peers.len() == 0 || is_exit(peers[0]) {
        0
    } else {
        1 + first_exit(peers.skip(1))
    }
}

/// Finds the first member that takes everything.
pub fn exit_peer(peers: &Vec<PeerInfo>) -> (r: Option<usize>)
    ensures
        match r {
            Some(i) => i < peers@.len() && i == first_exit(peers@),
            None => first_exit(peers@) >= peers@.len(),
        },
{
    let mut i: usize = 0;
    assert(peers@.skip(0) =~= peers@);
    while i < peers.len()
        invariant
            i <= peers@.len(),
            i + first_exit(peers@.skip(i as int)) == first_exit(peers@),
        decreases peers@.len() - i,
    {
        assert(peers@.skip(i as int)[0] == peers@[i as int]);
        if has_text(&peers[i].allowed_ips, "0.0.0.0/0") {
            return Some(i);
        }
        assert(peers@.skip(i as int).skip(1) =~= peers@.skip(i + 1));
        i += 1;
    }
    None
}

/// All that may have to go around the tunnel.
pub open spec fn around(
    control_host: Seq<char>,
    relay_ips: Seq<Seq<char>>,
    exit_ips: Seq<Seq<char>>,
    exclude_routes: Seq<Seq<char>>,
) -> Seq<Seq<char>> {
    seq![control_host] + relay_ips + exit_ips + exclude_routes
}

/// Adds some texts to others.
fn push_texts(out: &mut Vec<String>, more: &Vec<String>)
    ensures
        crate::text::texts(final(out)@) == crate::text::texts(old(out)@) + crate::text::texts(
            more@,
        ),
{
    let mut copy = copy_texts(more);
    let ghost before = out@;
    let ghost tail = copy@;
    out.append(&mut copy);
    assert(crate::text::texts(out@) =~= crate::text::texts(before) + crate::text::texts(tail));
}

/// All that may have to go around the tunnel, in order and none of it twice: the control server,
/// the relays, the addresses of the member that takes everything, and what the user excludes.
pub fn bypass_candidates(
    control_host: &str,
    relay_ips: &Vec<String>,
    exit_ips: &Vec<String>,
    exclude_routes: &Vec<String>,
) -> (out: Vec<String>)
    ensures
        ascending(crate::text::texts(out@)),
        crate::text::texts(out@).to_set() == around(
            control_host@,
            crate::text::texts(relay_ips@),
            crate::text::texts(exit_ips@),
            crate::text::texts(exclude_routes@),
        ).to_set(),
{
    let mut all: Vec<String> = Vec::new();
    all.push(String::from_str(control_host));
    assert(crate::text::texts(all@) =~= seq![control_host@]);
    push_texts(&mut all, relay_ips);
    push_texts(&mut all, exit_ips);
    push_texts(&mut all, exclude_routes);
    sorted_texts(&all)
}

/// Whether a destination is reached by way of a gateway, as far as is known.
pub open spec fn remote(os: Os, answer: Option<Seq<char>>) -> bool {
    os == Os::Macos || match answer {
        Some(s) => crate::words::has_part(s, " via "@),
        None => true,
    }
}

/// The destinations that are reached by way of a gateway.
pub open spec fn remotes(
    os: Os,
    dsts: Seq<Seq<char>>,
    answers: Seq<Option<Seq<char>>>,
) -> Seq<Seq<char>>
    decreases dsts.len(),
{
    if dsts.len() == 0 {
        seq![]
    } else {
        let before = remotes(os, dsts.drop_last(), answers);
        if remote(os, answers[dsts.len() - 1]) {
            before.push(dsts.last())
        } else {
            before
        }
    }
}

/// Some answers as values.
pub open spec fn answers_of(v: Seq<Option<String>>) -> Seq<Option<Seq<char>>> {
    v.map_values(|a: Option<String>| opt_text(a))
}

/// Those of some destinations that have to go around the tunnel. `answers` is how each of them is
/// reached.
pub fn bypass_targets(os: Os, dsts: &Vec<String>, answers: &Vec<Option<String>>) -> (out: Vec<
    String,
>)
    requires
        dsts@.len() == answers@.len(),
    ensures
        crate::text::texts(out@) == remotes(os, crate::text::texts(dsts@), answers_of(answers@)),
{
    let mut out: Vec<String> = Vec::new();
    let ghost all = crate::text::texts(dsts@);
    let mut i: usize = 0;
    assert(crate::text::texts(out@) =~= remotes(os, all.take(0), answers_of(answers@)));
    while i < dsts.len()
        invariant
            i <= dsts@.len() == answers@.len(),
            all == crate::text::texts(dsts@),
            crate::text::texts(out@) == remotes(os, all.take(i as int), answers_of(answers@)),
        decreases dsts@.len() - i,
    {
        proof {
            assert(all.take(i + 1).drop_last() =~= all.take(i as int));
            assert(all.take(i + 1).last() == dsts@[i as int]@);
            assert(answers_of(answers@)[i as int] == opt_text(answers@[i as int]));
        }
        if needs_bypass(os, &answers[i]) {
            let d = dsts[i].clone();
            proof {
                crate::text::texts_push(out@, d);
            }
            out.push(d);
        }
        i += 1;
    }
    assert(all.take(all.len() as int) =~= all);
    out
}

/// The name server for a host whose traffic goes through a member: the first that is set, else the
/// member itself, as its address reads.
pub fn exit_dns(dns_override: &Vec<String>, overlay: &Option<String>) -> (r: Option<String>)
    ensures
        opt_text(r) == if dns_override@.len() > 0 {
            Some(dns_override@[0]@)
        } else {
            opt_text(*overlay)
        },
{
    if dns_override.len() > 0 {
        Some(dns_override[0].clone())
    } else {
        match overlay {
            Some(s) => Some(s.clone()),
            None => None,
        }
    }
}

/// What decides the host's name server while its traffic goes through a member.
#[derive(Debug)]
pub struct ExitNames {
    /// The name servers that are set.
    pub dns_override: Vec<String>,
    /// The member's own address, as it reads.
    pub overlay: Option<String>,
    pub backend: DnsBackend,
    pub host: DnsHost,
}

impl ExitNames {
    /// The name server, if there is one.
    pub open spec fn server(self) -> Option<Seq<char>> {
        if self.dns_override@.len() > 0 {
            Some(self.dns_override@[0]@)
        } else {
            opt_text(self.overlay)
        }
    }
}

/// What is undone when a host's traffic stops going through a member.
#[derive(Debug)]
pub struct ExitUp {
    pub dev: String,
    pub bypass: Vec<String>,
}

/// Sends a host's traffic through a member, and then points it at the name server: nothing, unless
/// the host's default route has both a gateway and an interface. `gateway` and `iface` are that route as the host prints it for either.
pub fn apply_exit(
    os: Os,
    dev: &str,
    gateway: &Option<String>,
    iface: &Option<String>,
    bypass: Vec<String>,
    names: &ExitNames,
) -> (r: Option<(ExitUp, Vec<Step>)>)
    ensures
        r is Some <==> gateway_in(os, opt_text(*gateway)) is Some && phys_in(os, opt_text(*iface))
            is Some,
        r matches Some((up, steps)) ==> {
            &&& up.dev@ == dev@
            &&& up.bypass == bypass
            &&& acts(steps@) == exit_up_acts(
                os,
                dev@,
                gateway_in(os, opt_text(*gateway))->Some_0,
                phys_in(os, opt_text(*iface))->Some_0,
                crate::text::texts(bypass@),
            ) + name_acts(os, names.backend, dev@, names.server(), names.host@)
        },
{
    let gw = match gateway {
        Some(s) => default_gateway(os, s.as_str()),
        None => None,
    };
    let phys = match iface {
        Some(s) => physical_iface(os, s.as_str()),
        None => None,
    };
    match (gw, phys) {
        (Some(g), Some(p)) => {
            let dns = exit_dns(&names.dns_override, &names.overlay);
            let steps = exit_up(
                os,
                dev,
                g.as_str(),
                p.as_str(),
                &bypass,
                &dns,
                &names.backend,
                &names.host,
            );
            Some((ExitUp { dev: String::from_str(dev), bypass }, steps))
        },
        _ => None,
    }
}

/// The gateway of a printed default route.
pub open spec fn gateway_in(os: Os, printed: Option<Seq<char>>) -> Option<Seq<char>> {
    match printed {
        Some(s) => if os == Os::Macos {
            crate::node::route::labelled(crate::words::lines(s), "gateway:"@)
        } else {
            crate::node::route::word_after(crate::words::words(s), "via"@)
        },
        None => None,
    }
}

/// The interface of a printed default route.
pub open spec fn phys_in(os: Os, printed: Option<Seq<char>>) -> Option<Seq<char>> {
    match printed {
        Some(s) => interface_in(os, s),
        None => None,
    }
}

/// What to do about the host's traffic.
#[derive(Clone, Copy, Debug, PartialEq, Eq, Structural)]
pub enum ExitMove {
    /// Send it through the member that takes everything.
    Up,
    /// Stop sending it.
    Down,
    /// Nothing.
    Stay,
}

/// What to do about the host's traffic where some members are listed: `up` is whether it goes
/// through one of them. On an `embedded` node the platform decides about it.
pub open spec fn exit_move(peers: Seq<PeerInfo>, up: bool, embedded: bool) -> ExitMove {
    let listed = first_exit(peers) < peers.len();
    if embedded {
        ExitMove::Stay
    } else if listed && !up {
        ExitMove::Up
    } else if !listed && up {
        ExitMove::Down
    } else {
        ExitMove::Stay
    }
}

/// What to do about the host's traffic, after the members were listed.
pub fn sync_exit(peers: &Vec<PeerInfo>, up: bool, embedded: bool) -> (m: ExitMove)
    ensures
        m == exit_move(peers@, up, embedded),
{
    if embedded {
        return ExitMove::Stay;
    }
    match exit_peer(peers) {
        Some(_) => if up {
            ExitMove::Stay
        } else {
            ExitMove::Up
        },
        None => if up {
            ExitMove::Down
        } else {
            ExitMove::Stay
        },
    }
}

/// Stops sending a host's traffic through a member.
pub fn drop_exit(os: Os, up: &ExitUp, backend: &DnsBackend, host: &DnsHost) -> (out: Vec<Step>)
    ensures
        acts(out@) == exit_down_acts(os, up.dev@, crate::text::texts(up.bypass@)) + reset_dns_acts(
            os,
            *backend,
            up.dev@,
            host@,
        ),
{
    exit_down(os, up.dev.as_str(), &up.bypass, backend, host)
}

/// The packet filter of macOS is left as it was found: it is turned off again if and only if it
/// was off and this process turned it on.
pub proof fn filter_is_left_as_found(info: Option<Seq<char>>, before: Gateway, after: Gateway)
    requires
        !before.pf_ours,
        after.pf_ours == (before.pf_ours || !pf_on(info)),
    ensures
        forall|fw: FwBackend, phys: Seq<char>, tun: Seq<char>, host: FwFacts|
            (#[trigger] ungateway_acts(Os::Macos, fw, phys, tun, after, host)).contains(
                run("pfctl"@, seq!["-d"@]),
            ) <==> !pf_on(info),
{
    assert forall|fw: FwBackend, phys: Seq<char>, tun: Seq<char>, host: FwFacts|
        (#[trigger] ungateway_acts(Os::Macos, fw, phys, tun, after, host)).contains(
            run("pfctl"@, seq!["-d"@]),
        ) <==> !pf_on(info) by {
        let all = ungateway_acts(Os::Macos, fw, phys, tun, after, host);
        let off = run("pfctl"@, seq!["-d"@]);
        let a = seq!["-a"@, "fluxpeer-exit"@, "-F"@, "nat"@];
        let b = seq!["-f"@, "/etc/pf.conf"@];
        let d = seq!["-d"@];
        assert(a.len() == 4 && b.len() == 2 && d.len() == 1);
        if after.pf_ours {
            assert(all[3] == off);
        } else {
            assert(all[0] != off && all[1] != off && all[2] != off);
        }
    }
}

/// On Linux a gateway forwards before anything is let through, and both are undone in the end.
pub proof fn linux_gateway_forwards_and_opens(
    fw: FwBackend,
    phys: Seq<char>,
    tun: Seq<char>,
    overlay: Seq<char>,
    host: FwFacts,
    gw: Gateway,
)
    ensures
        ({
            let up = gateway_acts(Os::Linux, fw, phys, tun, overlay, host);
            let down = ungateway_acts(Os::Linux, fw, phys, tun, gw, host);
            let n = fw.open_acts(phys, tun).len() as int;
            let m = fw.close_acts(phys, tun).len() as int;
            &&& up.skip(up.len() - n) == fw.open_acts(phys, tun)
            &&& down.take(m) == fw.close_acts(phys, tun)
            &&& !(fw is Noop) ==> up.take(up.len() - n) == forwarding_up_acts(host)
            &&& !(fw is Noop) ==> down.skip(m) == forwarding_down_acts(known(gw.fwd, host))
            &&& fw is Noop ==> up.len() == 0 && down.len() == 0
        }),
{
    let up = gateway_acts(Os::Linux, fw, phys, tun, overlay, host);
    let down = ungateway_acts(Os::Linux, fw, phys, tun, gw, host);
    let n = fw.open_acts(phys, tun).len() as int;
    let m = fw.close_acts(phys, tun).len() as int;
    assert(up.skip(up.len() - n) =~= fw.open_acts(phys, tun));
    assert(down.take(m) =~= fw.close_acts(phys, tun));
    if !(fw is Noop) {
        assert(up.take(up.len() - n) =~= forwarding_up_acts(host));
        assert(down.skip(m) =~= forwarding_down_acts(known(gw.fwd, host)));
    }
}

/// On macOS the gateway forwards and translates what comes from the network to the address of the
/// outer interface; the file with that rule is removed again, and the rules of the anchor are
/// flushed.
pub proof fn macos_gateway_translates(
    fw: FwBackend,
    phys: Seq<char>,
    tun: Seq<char>,
    overlay: Seq<char>,
    host: FwFacts,
    gw: Gateway,
)
    ensures
        ({
            let up = gateway_acts(Os::Macos, fw, phys, tun, overlay, host);
            let down = ungateway_acts(Os::Macos, fw, phys, tun, gw, host);
            &&& up.contains(run("sysctl"@, seq!["-w"@, "net.inet.ip.forwarding=1"@]))
            &&& up.last() is Write
            &&& up.last()->Write_1 == "nat on "@ + phys + " from "@ + overlay + " to any -> ("@ + phys
                + ")\n"@
            &&& down.contains(Act::Remove(up.last()->Write_0))
            &&& down[0] == run("pfctl"@, seq!["-a"@, "fluxpeer-exit"@, "-F"@, "nat"@])
        }),
{
    let up = gateway_acts(Os::Macos, fw, phys, tun, overlay, host);
    let down = ungateway_acts(Os::Macos, fw, phys, tun, gw, host);
    assert(up[0] == run("sysctl"@, seq!["-w"@, "net.inet.ip.forwarding=1"@]));
    assert(down[2] == Act::Remove(up.last()->Write_0));
}

/// On Windows a translation of the network is made after a stale one was removed, and the same one
/// is removed in the end.
pub proof fn windows_gateway_translates(
    fw: FwBackend,
    phys: Seq<char>,
    tun: Seq<char>,
    overlay: Seq<char>,
    host: FwFacts,
    gw: Gateway,
)
    ensures
        ({
            let up = gateway_acts(Os::Windows, fw, phys, tun, overlay, host);
            let down = ungateway_acts(Os::Windows, fw, phys, tun, gw, host);
            &&& up.len() == 5
            &&& down == seq![up[3]]
            &&& up[4] == powershell(
                "New-NetNat -Name fluxpeer-exit -InternalIPInterfaceAddressPrefix '"@ + overlay
                    + "' -ErrorAction SilentlyContinue"@,
            )
            &&& up[0] == powershell(
                "Set-NetIPInterface -InterfaceAlias '"@ + tun
                    + "' -Forwarding Enabled -ErrorAction SilentlyContinue"@,
            )
        }),
{
    let up = gateway_acts(Os::Windows, fw, phys, tun, overlay, host);
    assert(ungateway_acts(Os::Windows, fw, phys, tun, gw, host) =~= seq![up[3]]);
}

/// The host's traffic is sent through a member exactly when one of them takes all addresses and it
/// is not sent yet; it is taken back exactly when none does any more.
pub proof fn traffic_follows_the_members(peers: Seq<PeerInfo>, up: bool)
    ensures
        ({
            let some = exists|i: int, j: int|
                #![trigger peers[i].allowed_ips@[j]]
                0 <= i < peers.len() && 0 <= j < peers[i].allowed_ips@.len()
                    && peers[i].allowed_ips@[j]@ == "0.0.0.0/0"@;
            &&& exit_move(peers, up, false) == ExitMove::Up <==> some && !up
            &&& exit_move(peers, up, false) == ExitMove::Down <==> !some && up
            &&& exit_move(peers, up, true) == ExitMove::Stay
        }),
{
    first_exit_is(peers);
    let n = first_exit(peers);
    if n < peers.len() {
        let t = crate::text::texts(peers[n].allowed_ips@);
        let j = choose|j: int| 0 <= j < t.len() && t[j] == "0.0.0.0/0"@;
        assert(peers[n].allowed_ips@[j]@ == "0.0.0.0/0"@);
    } else if exists|i: int, j: int|
        #![trigger peers[i].allowed_ips@[j]]
        0 <= i < peers.len() && 0 <= j < peers[i].allowed_ips@.len() && peers[i].allowed_ips@[j]@
            == "0.0.0.0/0"@ {
        let (i, j) = choose|i: int, j: int|
            #![trigger peers[i].allowed_ips@[j]]
            0 <= i < peers.len() && 0 <= j < peers[i].allowed_ips@.len()
                && peers[i].allowed_ips@[j]@ == "0.0.0.0/0"@;
        assert(crate::text::texts(peers[i].allowed_ips@)[j] == "0.0.0.0/0"@);
        assert(is_exit(peers[i]));
    }
}

/// The member that is chosen is the first that takes all addresses.
pub proof fn first_exit_is(peers: Seq<PeerInfo>)
    ensures
        0 <= first_exit(peers) <= peers.len(),
        first_exit(peers) < peers.len() ==> is_exit(peers[first_exit(peers)]),
        forall|i: int| 0 <= i < first_exit(peers) ==> !is_exit(#[trigger] peers[i]),
    decreases peers.len(),
{
    if peers.len() > 0 && !is_exit(peers[0]) {
        let rest = peers.skip(1);
        first_exit_is(rest);
        assert forall|i: int| 0 <= i < first_exit(peers) implies !is_exit(#[trigger] peers[i]) by {
            if i > 0 {
                assert(rest[i - 1] == peers[i]);
            }
        }
    }
}

/// What carries the tunnel goes around it: the control server, the relays, the exit itself and what
/// is excluded are all candidates.
pub proof fn carriers_are_candidates(
    control: Seq<char>,
    relays: Seq<Seq<char>>,
    exits: Seq<Seq<char>>,
    excluded: Seq<Seq<char>>,
    x: Seq<char>,
)
    ensures
        around(control, relays, exits, excluded).contains(x) <==> x == control || relays.contains(x)
            || exits.contains(x) || excluded.contains(x),
{
    let all = around(control, relays, exits, excluded);
    if x == control {
        assert(all[0] == x);
    }
    if relays.contains(x) {
        let i = choose|i: int| 0 <= i < relays.len() && relays[i] == x;
        assert(all[1 + i] == x);
    }
    if exits.contains(x) {
        let i = choose|i: int| 0 <= i < exits.len() && exits[i] == x;
        assert(all[1 + relays.len() + i] == x);
    }
    if excluded.contains(x) {
        let i = choose|i: int| 0 <= i < excluded.len() && excluded[i] == x;
        assert(all[1 + relays.len() + exits.len() + i] == x);
    }
    if all.contains(x) {
        let i = choose|i: int| 0 <= i < all.len() && all[i] == x;
        if i == 0 {
        } else if i < 1 + relays.len() {
            assert(relays[i - 1] == x);
        } else if i < 1 + relays.len() + exits.len() {
            assert(exits[i - 1 - relays.len()] == x);
        } else {
            assert(excluded[i - 1 - relays.len() - exits.len()] == x);
        }
    }
}

/// A destination gets a way around the tunnel unless the host says that it is on a link of its own;
/// where the host says nothing it gets one.
pub proof fn remote_destinations_go_around(
    os: Os,
    dsts: Seq<Seq<char>>,
    answers: Seq<Option<Seq<char>>>,
    i: int,
)
    requires
        dsts.len() <= answers.len(),
        0 <= i < dsts.len(),
        os == Os::Macos || answers[i] is None || (answers[i] matches Some(s)
            && crate::words::has_part(s, " via "@)),
    ensures
        remotes(os, dsts, answers).contains(dsts[i]),
    decreases dsts.len(),
{
    let front = dsts.drop_last();
    let before = remotes(os, front, answers);
    let all = remotes(os, dsts, answers);
    if i == dsts.len() - 1 {
        assert(all[before.len() as int] == dsts[i]);
    } else {
        remote_destinations_go_around(os, front, answers, i);
        let k = choose|k: int| 0 <= k < before.len() && before[k] == front[i];
        assert(all[k] == dsts[i]);
    }
}

/// A destination on a link of the host's own gets none.
pub proof fn linked_destinations_do_not(
    os: Os,
    dsts: Seq<Seq<char>>,
    answers: Seq<Option<Seq<char>>>,
)
    requires
        os != Os::Macos,
        dsts.len() <= answers.len(),
        forall|i: int|
            0 <= i < dsts.len() ==> (#[trigger] answers[i] matches Some(s)
                && !crate::words::has_part(s, " via "@)),
    ensures
        remotes(os, dsts, answers).len() == 0,
    decreases dsts.len(),
{
    if dsts.len() > 0 {
        linked_destinations_do_not(os, dsts.drop_last(), answers);
        assert(answers[dsts.len() - 1] is Some);
    }
}

/// The name server that is set by hand goes before the member's own address.
pub proof fn set_server_goes_first(n: ExitNames)
    ensures
        n.dns_override@.len() > 0 ==> n.server() == Some(n.dns_override@[0]@),
        n.dns_override@.len() == 0 ==> n.server() == opt_text(n.overlay),
{
}

/// Pointing the host at a name server names that server and the tunnel, and resetting it names the
/// same tunnel.
pub proof fn name_server_of_the_tunnel(
    backend: DnsBackend,
    dev: Seq<char>,
    dns: Seq<char>,
    host: DnsFacts,
)
    ensures
        set_dns_acts(Os::Linux, backend, dev, dns, host) == backend.set_acts(dns, host),
        reset_dns_acts(Os::Linux, backend, dev, host) == backend.clear_acts(host),
        set_dns_acts(Os::Windows, backend, dev, dns, host) == seq![
            powershell(
                "Set-DnsClientServerAddress -InterfaceAlias '"@ + dev + "' -ServerAddresses '"@
                    + dns + "' -ErrorAction SilentlyContinue"@,
            ),
        ],
        reset_dns_acts(Os::Windows, backend, dev, host) == seq![
            powershell(
                "Set-DnsClientServerAddress -InterfaceAlias '"@ + dev
                    + "' -ResetServerAddresses -ErrorAction SilentlyContinue"@,
            ),
        ],
{
}

/// On Linux the gateway is the word behind `via`, on macOS what the line `gateway:` says; where
/// nothing was printed there is neither gateway nor interface.
pub proof fn gateway_is_read(s: Seq<char>, os: Os)
    ensures
        gateway_in(Os::Linux, Some(s)) == crate::node::route::word_after(
            crate::words::words(s),
            "via"@,
        ),
        gateway_in(Os::Macos, Some(s)) == crate::node::route::labelled(
            crate::words::lines(s),
            "gateway:"@,
        ),
        gateway_in(os, None) is None,
        phys_in(os, None) is None,
        phys_in(os, Some(s)) == interface_in(os, s),
{
}

/// The packet filter is told of the node's anchor, and loads it from the file that the rule is
/// written to.
pub proof fn anchor_is_loaded(
    fw: FwBackend,
    phys: Seq<char>,
    tun: Seq<char>,
    overlay: Seq<char>,
    host: FwFacts,
)
    ensures
        gateway_acts(Os::Macos, fw, phys, tun, overlay, host).last()->Write_0
            == "/etc/pf.anchors/fluxpeer-exit"@,
        crate::words::has_part(pf_rules(), "nat-anchor \"fluxpeer-exit\"\n"@),
        crate::words::has_part(
            pf_rules(),
            "load anchor \"fluxpeer-exit\" from \"/etc/pf.anchors/fluxpeer-exit\"\n"@,
        ),
{
    reveal_strlit(
        "scrub-anchor \"com.apple/*\"\nnat-anchor \"com.apple/*\"\nnat-anchor \"fluxpeer-exit\"\nrdr-anchor \"com.apple/*\"\ndummynet-anchor \"com.apple/*\"\nanchor \"com.apple/*\"\nload anchor \"com.apple\" from \"/etc/pf.anchors/com.apple\"\nload anchor \"fluxpeer-exit\" from \"/etc/pf.anchors/fluxpeer-exit\"\n",
    );
    reveal_strlit("nat-anchor \"fluxpeer-exit\"\n");
    reveal_strlit(
        "load anchor \"fluxpeer-exit\" from \"/etc/pf.anchors/fluxpeer-exit\"\n",
    );
    let a = "nat-anchor \"fluxpeer-exit\"\n"@;
    let b = "load anchor \"fluxpeer-exit\" from \"/etc/pf.anchors/fluxpeer-exit\"\n"@;
    assert(pf_rules().subrange(52, 79) =~= a);
    assert(crate::words::has_part_at(pf_rules(), a, 52));
    assert(pf_rules().subrange(212, 277) =~= b);
    assert(crate::words::has_part_at(pf_rules(), b, 212));
}

/// A script is run without the user's profile.
pub proof fn scripts_run_without_a_profile(script: Seq<char>)
    ensures
        powershell(script) == run("powershell"@, seq!["-NoProfile"@, "-Command"@, script]),
{
}

} // verus!
