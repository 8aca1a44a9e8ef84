//! The host's routes: networks into the tunnel, and around it where everything else goes into it.

use crate::node::dns::{opt_text, DnsBackend, DnsFacts, DnsHost};
use crate::node::gateway::{reset_dns, reset_dns_acts, set_dns, set_dns_acts};
use crate::node::host::{
    acts, append_steps, cmd, join2, no_steps, push_run, run, Act, Cmd, Os, Step,
};
use crate::text::{chars_of, find_char, same_text, text_of};
use crate::words::{contains, split_lines, split_words, strip_prefix, trim_text};
use vstd::prelude::*;
use vstd::string::StringExecFns;

verus! {

/// An address or a network as a network.
pub open spec fn network(s: Seq<char>) -> Seq<char> {
    if s.contains('/') {
        s
    } else if s.contains(':') {
        s + "/128"@
    } else {
        s + "/32"@
    }
}

/// Whether a text has a character.
fn has_char(s: &str, c: char) -> (r: bool)
    ensures
        r == s@.contains(c),
{
    let v = chars_of(s);
    let k: usize = find_char(v.as_slice(), 0, c);
    if k < v.len() {
        assert(s@[k as int] == c);
        true
    } else {
        false
    }
}

/// An address or a network as a network: an address stands for itself alone.
pub fn cidr(s: &str) -> (r: String)
    ensures
        r@ == network(s@),
{
    if has_char(s, '/') {
        String::from_str(s)
    } else if has_char(s, ':') {
        join2(s, "/128")
    } else {
        join2(s, "/32")
    }
}

/// Whether a network holds every address.
pub open spec fn is_default(net: Seq<char>) -> bool {
    net == "0.0.0.0/0"@ || net == "::/0"@
}

/// Whether a network holds every address.
fn default_net(net: &str) -> (r: bool)
    ensures
        r == is_default(net@),
{
    same_text(net, "0.0.0.0/0") || same_text(net, "::/0")
}

/// What routes a network into the tunnel. The network of all addresses is never routed as such: it
/// would take the place of the host's own default route.
pub open spec fn replace_acts(os: Os, net: Seq<char>, dev: Seq<char>) -> Seq<Act> {
    if is_default(net) {
        seq![]
    } else if os == Os::Macos {
        seq![
            run("route"@, seq!["-n"@, "delete"@, "-net"@, net]),
            run("route"@, seq!["-n"@, "add"@, "-net"@, net, "-interface"@, dev]),
        ]
    } else {
        seq![run("ip"@, seq!["route"@, "replace"@, net, "dev"@, dev])]
    }
}

/// What takes a network out of the tunnel again.
pub open spec fn del_acts(os: Os, net: Seq<char>, dev: Seq<char>) -> Seq<Act> {
    if is_default(net) {
        seq![]
    } else if os == Os::Macos {
        seq![run("route"@, seq!["-n"@, "delete"@, "-net"@, net])]
    } else {
        seq![run("ip"@, seq!["route"@, "del"@, net, "dev"@, dev])]
    }
}

/// Routes a network into the tunnel.
pub fn route_replace(os: Os, net: &str, dev: &str, out: &mut Vec<Step>)
    ensures
        acts(final(out)@) == acts(old(out)@) + replace_acts(os, net@, dev@),
{
    if default_net(net) {
        assert(acts(out@) =~= acts(old(out)@) + replace_acts(os, net@, dev@));
        return;
    }
    if os == Os::Macos {
        let del = ["-n", "delete", "-net", net];
        let add = ["-n", "add", "-net", net, "-interface", dev];
        push_run(out, "route", del.as_slice());
        push_run(out, "route", add.as_slice());
        assert(crate::node::host::strs(del@) =~= seq!["-n"@, "delete"@, "-net"@, net@]);
        assert(crate::node::host::strs(add@) =~= seq![
            "-n"@,
            "add"@,
            "-net"@,
            net@,
            "-interface"@,
            dev@,
        ]);
    } else {
        let args = ["route", "replace", net, "dev", dev];
        push_run(out, "ip", args.as_slice());
        assert(crate::node::host::strs(args@) =~= seq![
            "route"@,
            "replace"@,
            net@,
            "dev"@,
            dev@,
        ]);
    }
    assert(acts(out@) =~= acts(old(out)@) + replace_acts(os, net@, dev@));
}

/// Takes a network out of the tunnel.
pub fn route_del(os: Os, net: &str, dev: &str, out: &mut Vec<Step>)
    ensures
        acts(final(out)@) == acts(old(out)@) + del_acts(os, net@, dev@),
{
    if default_net(net) {
        assert(acts(out@) =~= acts(old(out)@) + del_acts(os, net@, dev@));
        return;
    }
    if os == Os::Macos {
        let args = ["-n", "delete", "-net", net];
        push_run(out, "route", args.as_slice());
        assert(crate::node::host::strs(args@) =~= seq!["-n"@, "delete"@, "-net"@, net@]);
    } else {
        let args = ["route", "del", net, "dev", dev];
        push_run(out, "ip", args.as_slice());
        assert(crate::node::host::strs(args@) =~= seq!["route"@, "del"@, net@, "dev"@, dev@]);
    }
    assert(acts(out@) =~= acts(old(out)@) + del_acts(os, net@, dev@));
}

/// What routes a destination around the tunnel, by the host's own gateway. The interface is named,
/// since the gateway itself would otherwise be looked for in the tunnel.
pub open spec fn bypass_acts(os: Os, dst: Seq<char>, gateway: Seq<char>, phys: Seq<char>) -> Seq<
    Act,
> {
    let net = network(dst);
    if os == Os::Macos {
        seq![
            run("route"@, seq!["-n"@, "delete"@, "-net"@, net]),
            run("route"@, seq!["-n"@, "add"@, "-net"@, net, gateway]),
        ]
    } else {
        seq![run("ip"@, seq!["route"@, "replace"@, net, "via"@, gateway, "dev"@, phys])]
    }
}

/// What takes such a route away again.
pub open spec fn unbypass_acts(os: Os, dst: Seq<char>) -> Seq<Act> {
    let net = network(dst);
    if os == Os::Macos {
        seq![run("route"@, seq!["-n"@, "delete"@, "-net"@, net])]
    } else {
        seq![run("ip"@, seq!["route"@, "del"@, net])]
    }
}

/// Routes a destination around the tunnel.
pub fn bypass_add(os: Os, dst: &str, gateway: &str, phys: &str, out: &mut Vec<Step>)
    ensures
        acts(final(out)@) == acts(old(out)@) + bypass_acts(os, dst@, gateway@, phys@),
{
    let d = cidr(dst);
    let net = d.as_str();
    if os == Os::Macos {
        let del = ["-n", "delete", "-net", net];
        let add = ["-n", "add", "-net", net, gateway];
        push_run(out, "route", del.as_slice());
        push_run(out, "route", add.as_slice());
        assert(crate::node::host::strs(del@) =~= seq!["-n"@, "delete"@, "-net"@, net@]);
        assert(crate::node::host::strs(add@) =~= seq!["-n"@, "add"@, "-net"@, net@, gateway@]);
    } else {
        let args = ["route", "replace", net, "via", gateway, "dev", phys];
        push_run(out, "ip", args.as_slice());
        assert(crate::node::host::strs(args@) =~= seq![
            "route"@,
            "replace"@,
            net@,
            "via"@,
            gateway@,
            "dev"@,
            phys@,
        ]);
    }
    assert(acts(out@) =~= acts(old(out)@) + bypass_acts(os, dst@, gateway@, phys@));
}

/// Takes the route of a destination around the tunnel away.
pub fn bypass_del(os: Os, dst: &str, out: &mut Vec<Step>)
    ensures
        acts(final(out)@) == acts(old(out)@) + unbypass_acts(os, dst@),
{
    let d = cidr(dst);
    let net = d.as_str();
    if os == Os::Macos {
        let args = ["-n", "delete", "-net", net];
        push_run(out, "route", args.as_slice());
        assert(crate::node::host::strs(args@) =~= seq!["-n"@, "delete"@, "-net"@, net@]);
    } else {
        let args = ["route", "del", net];
        push_run(out, "ip", args.as_slice());
        assert(crate::node::host::strs(args@) =~= seq!["route"@, "del"@, net@]);
    }
    assert(acts(out@) =~= acts(old(out)@) + unbypass_acts(os, dst@));
}

/// The first place of a word, the number of words where it does not occur.
pub open spec fn place_of(ws: Seq<Seq<char>>, word: Seq<char>) -> int
    decreases ws.len(),
{
    if ws.len() == 0 || ws[0] == word {
        0
    } else {
        1 + place_of(ws.skip(1), word)
    }
}

/// The word that follows the first occurrence of `word`.
pub open spec fn word_after(ws: Seq<Seq<char>>, word: Seq<char>) -> Option<Seq<char>> {
    let i = place_of(ws, word);
    if 0 <= i && i + 1 < ws.len() {
        Some(ws[i + 1])
    } else {
        None
    }
}

/// What `place_of` gives.
proof fn place_of_is(ws: Seq<Seq<char>>, word: Seq<char>, i: int)
    requires
        0 <= i <= ws.len(),
        forall|j: int| 0 <= j < i ==> #[trigger] ws[j] != word,
        i < ws.len() ==> ws[i] == word,
    ensures
        place_of(ws, word) == i,
    decreases i,
{
    if i > 0 {
        let rest = ws.skip(1);
        assert forall|j: int| 0 <= j < i - 1 implies #[trigger] rest[j] != word by {
            assert(ws[j + 1] != word);
        }
        assert(ws[0] != word);
        place_of_is(rest, word, i - 1);
    }
}

/// The word that follows the first occurrence of `word` in a text.
fn find_word_after(text: &str, word: &str) -> (r: Option<String>)
    ensures
        r is Some <==> word_after(crate::words::words(text@), word@) is Some,
        r matches Some(w) ==> word_after(crate::words::words(text@), word@) == Some(w@),
{
    let ws = split_words(text);
    let ghost vs = crate::text::texts(ws@);
    let mut i: usize = 0;
    while i < ws.len() && !same_text(ws[i].as_str(), word)
        invariant
            i <= ws@.len(),
            vs == crate::text::texts(ws@),
            forall|j: int| 0 <= j < i ==> #[trigger] vs[j] != word@,
        decreases ws@.len() - i,
    {
        i += 1;
    }
    proof {
        place_of_is(vs, word@, i as int);
    }
    if i < ws.len() && i + 1 < ws.len() {
        let w = ws[i + 1].clone();
        assert(vs[i + 1] == w@);
        Some(w)
    } else {
        None
    }
}

/// What follows a label in the first line that starts with it, blanks aside.
pub open spec fn labelled(ls: Seq<Seq<char>>, label: Seq<char>) -> Option<Seq<char>>
    decreases ls.len(),
{
    if ls.len() == 0 {
        None
    } else {
        let l = crate::words::trim(ls[0]);
        if crate::words::has_prefix(l, label) {
            Some(crate::words::trim(l.skip(label.len() as int)))
        } else {
            labelled(ls.skip(1), label)
        }
    }
}

/// What follows a label in the first line that starts with it.
fn find_labelled(text: &str, label: &str) -> (r: Option<String>)
    ensures
        r is Some <==> labelled(crate::words::lines(text@), label@) is Some,
        r matches Some(w) ==> labelled(crate::words::lines(text@), label@) == Some(w@),
{
    let ls = split_lines(text);
    let ghost vs = crate::text::texts(ls@);
    let mut i: usize = 0;
    assert(vs.skip(0) =~= vs);
    while i < ls.len()
        invariant
            i <= ls@.len(),
            vs == crate::text::texts(ls@),
            vs == crate::words::lines(text@),
            labelled(vs.skip(i as int), label@) == labelled(vs, label@),
        decreases ls@.len() - i,
    {
        let l = trim_text(ls[i].as_str());
        assert(vs.skip(i as int)[0] == ls@[i as int]@);
        match strip_prefix(l.as_str(), label) {
            Some(rest) => {
                return Some(trim_text(rest.as_str()));
            },
            None => {},
        }
        assert(vs.skip(i as int).skip(1) =~= vs.skip(i + 1));
        i += 1;
    }
    assert(vs.skip(i as int) =~= seq![]);
    None
}

/// The command that prints the host's default route.
pub fn default_route_query(os: Os) -> (c: Cmd)
    ensures
        os == Os::Macos ==> c@ == (crate::node::host::Command {
            program: "route"@,
            args: seq!["-n"@, "get"@, "default"@],
        }),
        os == Os::Windows ==> c@ == (crate::node::host::Command {
            program: "powershell"@,
            args: seq![
                "-NoProfile"@,
                "-Command"@,
                "(Get-NetRoute -DestinationPrefix 0.0.0.0/0 -ErrorAction SilentlyContinue | Sort-Object RouteMetric | Select-Object -First 1).InterfaceAlias"@,
            ],
        }),
        os != Os::Macos && os != Os::Windows ==> c@ == (crate::node::host::Command {
            program: "ip"@,
            args: seq!["route"@, "show"@, "default"@],
        }),
{
    if os == Os::Macos {
        let args = ["-n", "get", "default"];
        assert(crate::node::host::strs(args@) =~= seq!["-n"@, "get"@, "default"@]);
        cmd("route", args.as_slice())
    } else if os == Os::Windows {
        let args = [
            "-NoProfile",
            "-Command",
            "(Get-NetRoute -DestinationPrefix 0.0.0.0/0 -ErrorAction SilentlyContinue | Sort-Object RouteMetric | Select-Object -First 1).InterfaceAlias",
        ];
        assert(crate::node::host::strs(args@) =~= seq![
            "-NoProfile"@,
            "-Command"@,
            "(Get-NetRoute -DestinationPrefix 0.0.0.0/0 -ErrorAction SilentlyContinue | Sort-Object RouteMetric | Select-Object -First 1).InterfaceAlias"@,
        ]);
        cmd("powershell", args.as_slice())
    } else {
        let args = ["route", "show", "default"];
        assert(crate::node::host::strs(args@) =~= seq!["route"@, "show"@, "default"@]);
        cmd("ip", args.as_slice())
    }
}

/// The gateway that the host's default route goes by, as the route was printed by `ip` or, on
/// macOS, by `route`.
pub fn default_gateway(os: Os, printed: &str) -> (r: Option<String>)
    ensures
        ({
            let g = if os == Os::Macos {
                labelled(crate::words::lines(printed@), "gateway:"@)
            } else {
                word_after(crate::words::words(printed@), "via"@)
            };
            &&& r is Some <==> g is Some
            &&& r matches Some(w) ==> g == Some(w@)
        }),
{
    if os == Os::Macos {
        find_labelled(printed, "gateway:")
    } else {
        find_word_after(printed, "via")
    }
}

/// The interface of a printed default route. On Windows it is all that is printed.
pub open spec fn interface_in(os: Os, printed: Seq<char>) -> Option<Seq<char>> {
    match os {
        Os::Macos => labelled(crate::words::lines(printed), "interface:"@),
        Os::Windows => {
            let t = crate::words::trim(printed);
            if t.len() == 0 {
                None
            } else {
                Some(t)
            }
        },
        _ => word_after(crate::words::words(printed), "dev"@),
    }
}

/// The interface that the host's default route leaves by.
pub fn physical_iface(os: Os, printed: &str) -> (r: Option<String>)
    ensures
        r is Some <==> interface_in(os, printed@) is Some,
        r matches Some(w) ==> interface_in(os, printed@) == Some(w@),
{
    match os {
        Os::Macos => find_labelled(printed, "interface:"),
        Os::Windows => {
            let t = trim_text(printed);
            if t.as_str().is_empty() {
                None
            } else {
                Some(t)
            }
        },
        Os::Linux => find_word_after(printed, "dev"),
        Os::Other => find_word_after(printed, "dev"),
    }
}

/// The command that prints how a destination is reached.
pub fn bypass_query(dst: &str) -> (c: Cmd)
    ensures
        c@ == (crate::node::host::Command {
            program: "ip"@,
            args: seq!["route"@, "get"@, dst@.take(crate::text::first_of(dst@, '/'))],
        }),
{
    let v = chars_of(dst);
    let k: usize = find_char(v.as_slice(), 0, '/');
    assert(v@.skip(0) =~= v@);
    let ip = text_of(v.as_slice(), 0, k);
    assert(ip@ =~= dst@.take(k as int));
    let args = ["route", "get", ip.as_str()];
    assert(crate::node::host::strs(args@) =~= seq!["route"@, "get"@, ip@]);
    cmd("ip", args.as_slice())
}

/// Whether a destination has to be routed around the tunnel: only one that is reached by way of a
/// gateway. `printed` is how it is reached, where that is known.
pub fn needs_bypass(os: Os, printed: &Option<String>) -> (r: bool)
    ensures
        os == Os::Macos ==> r,
        os != Os::Macos ==> r == match *printed {
            Some(s) => crate::words::has_part(s@, " via "@),
            None => true,
        },
{
    if os == Os::Macos {
        return true;
    }
    match printed {
        Some(s) => contains(s.as_str(), " via "),
        None => true,
    }
}

/// The halves of all addresses, which together take precedence over the host's default route
/// without replacing it.
pub open spec fn halves() -> Seq<Seq<char>> {
    seq!["0.0.0.0/1"@, "128.0.0.0/1"@]
}

/// What routes some destinations around the tunnel.
pub open spec fn bypass_all(
    os: Os,
    dsts: Seq<Seq<char>>,
    gateway: Seq<char>,
    phys: Seq<char>,
) -> Seq<Act>
    decreases dsts.len(),
{
    if dsts.len() == 0 {
        seq![]
    } else {
        bypass_all(os, dsts.drop_last(), gateway, phys) + bypass_acts(
            os,
            dsts.last(),
            gateway,
            phys,
        )
    }
}

/// What takes the routes of some destinations around the tunnel away.
pub open spec fn unbypass_all(os: Os, dsts: Seq<Seq<char>>) -> Seq<Act>
    decreases dsts.len(),
{
    if dsts.len() == 0 {
        seq![]
    } else {
        unbypass_all(os, dsts.drop_last()) + unbypass_acts(os, dsts.last())
    }
}

/// What sends everything into the tunnel: first the way around it for what carries the tunnel, then
/// both halves of all addresses.
pub open spec fn exit_up_acts(
    os: Os,
    dev: Seq<char>,
    gateway: Seq<char>,
    phys: Seq<char>,
    bypass: Seq<Seq<char>>,
) -> Seq<Act> {
    bypass_all(os, bypass, gateway, phys) + replace_acts(os, halves()[0], dev) + replace_acts(
        os,
        halves()[1],
        dev,
    )
}

/// What undoes it.
pub open spec fn exit_down_acts(os: Os, dev: Seq<char>, bypass: Seq<Seq<char>>) -> Seq<Act> {
    del_acts(os, halves()[0], dev) + del_acts(os, halves()[1], dev) + unbypass_all(os, bypass)
}

/// What points the host at a name server, if there is one for it.
pub open spec fn name_acts(
    os: Os,
    backend: DnsBackend,
    dev: Seq<char>,
    dns: Option<Seq<char>>,
    host: DnsFacts,
) -> Seq<Act> {
    match dns {
        Some(d) => set_dns_acts(os, backend, dev, d, host),
        None => seq![],
    }
}

/// Sends everything into the tunnel but what has to go around it. The host is then pointed at a
/// name server, exactly if one is given.
pub fn exit_up(
    os: Os,
    dev: &str,
    gateway: &str,
    phys: &str,
    bypass: &Vec<String>,
    dns: &Option<String>,
    backend: &DnsBackend,
    host: &DnsHost,
) -> (out: Vec<Step>)
    ensures
        acts(out@) == exit_up_acts(os, dev@, gateway@, phys@, crate::text::texts(bypass@))
            + name_acts(os, *backend, dev@, opt_text(*dns), host@),
{
    let mut out = exit_routes(os, dev, gateway, phys, bypass);
    let ghost head = acts(out@);
    match dns {
        Some(d) => append_steps(&mut out, set_dns(os, backend, dev, d.as_str(), host)),
        None => {},
    }
    assert(acts(out@) =~= head + name_acts(os, *backend, dev@, opt_text(*dns), host@));
    out
}

/// Routes everything into the tunnel but what has to go around it.
fn exit_routes(os: Os, dev: &str, gateway: &str, phys: &str, bypass: &Vec<String>) -> (out: Vec<
    Step,
>)
    ensures
        acts(out@) == exit_up_acts(os, dev@, gateway@, phys@, crate::text::texts(bypass@)),
{
    let mut out = no_steps();
    let ghost b = crate::text::texts(bypass@);
    let mut i: usize = 0;
    assert(b.take(0) =~= seq![]);
    while i < bypass.len()
        invariant
            i <= bypass@.len(),
            b == crate::text::texts(bypass@),
            acts(out@) == bypass_all(os, b.take(i as int), gateway@, phys@),
        decreases bypass@.len() - i,
    {
        bypass_add(os, bypass[i].as_str(), gateway, phys, &mut out);
        assert(b.take(i + 1).drop_last() =~= b.take(i as int));
        i += 1;
    }
    assert(b.take(b.len() as int) =~= b);
    route_replace(os, "0.0.0.0/1", dev, &mut out);
    route_replace(os, "128.0.0.0/1", dev, &mut out);
    out
}

/// Stops sending everything into the tunnel. The host's name servers are then what they were.
pub fn exit_down(
    os: Os,
    dev: &str,
    bypass: &Vec<String>,
    backend: &DnsBackend,
    host: &DnsHost,
) -> (out: Vec<Step>)
    ensures
        acts(out@) == exit_down_acts(os, dev@, crate::text::texts(bypass@)) + reset_dns_acts(
            os,
            *backend,
            dev@,
            host@,
        ),
{
    let mut out = exit_unroutes(os, dev, bypass);
    append_steps(&mut out, reset_dns(os, backend, dev, host));
    out
}

/// Routes nothing more into the tunnel for its halves, nor around it.
fn exit_unroutes(os: Os, dev: &str, bypass: &Vec<String>) -> (out: Vec<Step>)
    ensures
        acts(out@) == exit_down_acts(os, dev@, crate::text::texts(bypass@)),
{
    let mut out = no_steps();
    route_del(os, "0.0.0.0/1", dev, &mut out);
    route_del(os, "128.0.0.0/1", dev, &mut out);
    let ghost head = acts(out@);
    let ghost b = crate::text::texts(bypass@);
    let mut i: usize = 0;
    assert(b.take(0) =~= seq![]);
    assert(acts(out@) =~= head + unbypass_all(os, b.take(0)));
    while i < bypass.len()
        invariant
            i <= bypass@.len(),
            b == crate::text::texts(bypass@),
            acts(out@) == head + unbypass_all(os, b.take(i as int)),
        decreases bypass@.len() - i,
    {
        bypass_del(os, bypass[i].as_str(), &mut out);
        assert(b.take(i + 1).drop_last() =~= b.take(i as int));
        assert(acts(out@) =~= head + unbypass_all(os, b.take(i + 1)));
        i += 1;
    }
    assert(b.take(b.len() as int) =~= b);
    assert(acts(out@) =~= exit_down_acts(os, dev@, b));
    out
}

/// The network of all addresses is never routed as such, on no system.
pub proof fn default_is_never_routed(os: Os, dev: Seq<char>)
    ensures
        replace_acts(os, "0.0.0.0/0"@, dev) == Seq::<Act>::empty(),
        replace_acts(os, "::/0"@, dev) == Seq::<Act>::empty(),
        del_acts(os, "0.0.0.0/0"@, dev) == Seq::<Act>::empty(),
        del_acts(os, "::/0"@, dev) == Seq::<Act>::empty(),
{
}

/// Whether a step installs a route to a network.
pub open spec fn installs(a: Act, net: Seq<char>) -> bool {
    a matches Act::Run(c) && c.args.len() > 2 && {
        ||| c.program == "ip"@ && c.args[1] == "replace"@ && c.args[2] == net
        ||| c.program == "route"@ && c.args.len() > 3 && c.args[1] == "add"@ && c.args[3] == net
    }
}

/// No step that routes a network into the tunnel installs the route to all addresses.
pub proof fn replacing_spares_default(os: Os, net: Seq<char>, dev: Seq<char>, all: Seq<char>)
    requires
        is_default(all),
    ensures
        forall|i: int|
            0 <= i < replace_acts(os, net, dev).len() ==> !installs(
                #[trigger] replace_acts(os, net, dev)[i],
                all,
            ),
{
    reveal_strlit("route");
    reveal_strlit("ip");
    assert("route"@.len() == 5 && "ip"@.len() == 2);
}

/// Whether a step deletes the route to a network.
pub open spec fn deletes(a: Act, net: Seq<char>) -> bool {
    a matches Act::Run(c) && c.args.len() > 2 && {
        ||| c.program == "ip"@ && c.args[1] == "del"@ && c.args[2] == net
        ||| c.program == "route"@ && c.args.len() > 3 && c.args[1] == "delete"@ && c.args[3] == net
    }
}

/// Whether some step deletes the route to a network.
pub open spec fn is_deleted(v: Seq<Act>, net: Seq<char>) -> bool {
    exists|i: int| 0 <= i < v.len() && deletes(#[trigger] v[i], net)
}

/// Routes around the tunnel are taken away again.
proof fn unbypass_deletes(os: Os, dsts: Seq<Seq<char>>, j: int)
    requires
        0 <= j < dsts.len(),
    ensures
        is_deleted(unbypass_all(os, dsts), network(dsts[j])),
    decreases dsts.len(),
{
    let last = unbypass_acts(os, dsts.last());
    let before = unbypass_all(os, dsts.drop_last());
    let all = before + last;
    assert(all == unbypass_all(os, dsts));
    if j == dsts.len() - 1 {
        assert(deletes(last[0], network(dsts[j])));
        assert(all[before.len() as int] == last[0]);
    } else {
        unbypass_deletes(os, dsts.drop_last(), j);
        let i = choose|i: int|
            0 <= i < before.len() && deletes(#[trigger] before[i], network(dsts.drop_last()[j]));
        assert(all[i] == before[i]);
    }
}

/// Whatever was routed to send everything into the tunnel, or around it, is taken away again: both
/// halves of all addresses and every way around the tunnel.
pub proof fn exit_down_undoes(os: Os, dev: Seq<char>, bypass: Seq<Seq<char>>)
    ensures
        is_deleted(exit_down_acts(os, dev, bypass), halves()[0]),
        is_deleted(exit_down_acts(os, dev, bypass), halves()[1]),
        forall|j: int|
            0 <= j < bypass.len() ==> is_deleted(
                exit_down_acts(os, dev, bypass),
                network(#[trigger] bypass[j]),
            ),
{
    reveal_strlit("0.0.0.0/0");
    reveal_strlit("::/0");
    reveal_strlit("0.0.0.0/1");
    reveal_strlit("128.0.0.0/1");
    let a = del_acts(os, halves()[0], dev);
    let b = del_acts(os, halves()[1], dev);
    let c = unbypass_all(os, bypass);
    let all = exit_down_acts(os, dev, bypass);
    assert(halves()[0][8] == '1');
    assert("0.0.0.0/0"@[8] == '0');
    assert(halves()[0].len() == 9 && "::/0"@.len() == 4);
    assert(halves()[1].len() == 11);
    assert(!is_default(halves()[0]));
    assert(!is_default(halves()[1]));
    assert(all =~= a + b + c);
    assert(deletes(all[0], halves()[0]));
    assert(all[1] == b[0]);
    assert(deletes(all[1], halves()[1]));
    assert forall|j: int| 0 <= j < bypass.len() implies is_deleted(
        all,
        network(#[trigger] bypass[j]),
    ) by {
        unbypass_deletes(os, bypass, j);
        let i = choose|i: int| 0 <= i < c.len() && deletes(#[trigger] c[i], network(bypass[j]));
        assert(all[a.len() + b.len() + i] == c[i]);
    }
}

/// A network is routed into the tunnel by a step that installs exactly it, on the tunnel's device,
/// and after that by no other; the host's default route aside, none is left out.
pub proof fn networks_go_into_the_tunnel(os: Os, net: Seq<char>, dev: Seq<char>)
    requires
        net != "0.0.0.0/0"@,
        net != "::/0"@,
    ensures
        ({
            let v = replace_acts(os, net, dev);
            &&& v.len() > 0
            &&& installs(v.last(), net)
            &&& v.last()->Run_0.args.last() == dev
            &&& is_deleted(del_acts(os, net, dev), net)
        }),
{
    let d = del_acts(os, net, dev);
    assert(deletes(d[0], net));
}

/// What goes around the tunnel is routed by the host's own gateway, as a network, and that route is
/// deleted again.
pub proof fn bypass_goes_by_the_gateway(
    os: Os,
    dst: Seq<char>,
    gateway: Seq<char>,
    phys: Seq<char>,
)
    ensures
        ({
            let v = bypass_acts(os, dst, gateway, phys);
            &&& v.len() > 0
            &&& installs(v.last(), network(dst))
            &&& v.last()->Run_0.args.contains(gateway)
            &&& os != Os::Macos ==> v.last()->Run_0.args.skip(3) == seq![
                "via"@,
                gateway,
                "dev"@,
                phys,
            ]
            &&& is_deleted(unbypass_acts(os, dst), network(dst))
        }),
{
    let v = bypass_acts(os, dst, gateway, phys);
    let u = unbypass_acts(os, dst);
    assert(v.last()->Run_0.args[4] == gateway);
    if os != Os::Macos {
        assert(v.last()->Run_0.args.skip(3) =~= seq!["via"@, gateway, "dev"@, phys]);
    }
    assert(deletes(u[0], network(dst)));
}

/// A single address is a network of its own: with all bits of its version fixed.
pub proof fn addresses_are_networks(s: Seq<char>)
    ensures
        s.contains('/') ==> network(s) == s,
        !s.contains('/') && s.contains(':') ==> network(s) == s + "/128"@,
        !s.contains('/') && !s.contains(':') ==> network(s) == s + "/32"@,
{
}

/// Everything goes into the tunnel in this order, where one step is one route: first the ways around
/// it, each by the gateway, then the two halves of all addresses, each on the tunnel's device. The
/// host's default route is neither replaced nor deleted.
pub proof fn tunnel_comes_after_its_carriers(
    os: Os,
    dev: Seq<char>,
    gateway: Seq<char>,
    phys: Seq<char>,
    bypass: Seq<Seq<char>>,
    j: int,
)
    requires
        os != Os::Macos,
        0 <= j < bypass.len(),
    ensures
        ({
            let v = exit_up_acts(os, dev, gateway, phys, bypass);
            let n = bypass.len() as int;
            &&& v.len() == n + 2
            &&& v[j] == run(
                "ip"@,
                seq!["route"@, "replace"@, network(bypass[j]), "via"@, gateway, "dev"@, phys],
            )
            &&& v[n] == run("ip"@, seq!["route"@, "replace"@, "0.0.0.0/1"@, "dev"@, dev])
            &&& v[n + 1] == run("ip"@, seq!["route"@, "replace"@, "128.0.0.0/1"@, "dev"@, dev])
        }),
{
    bypass_each(os, bypass, gateway, phys);
    halves_are_no_default();
}

/// Neither half is the network of all addresses.
proof fn halves_are_no_default()
    ensures
        !is_default("0.0.0.0/1"@),
        !is_default("128.0.0.0/1"@),
{
    reveal_strlit("0.0.0.0/0");
    reveal_strlit("::/0");
    reveal_strlit("0.0.0.0/1");
    reveal_strlit("128.0.0.0/1");
    assert("0.0.0.0/0"@[8] == '0' && "0.0.0.0/1"@[8] == '1');
    assert("::/0"@.len() == 4 && "0.0.0.0/1"@.len() == 9 && "128.0.0.0/1"@.len() == 11);
    assert("0.0.0.0/0"@.len() == 9);
}

/// One step for each way around the tunnel.
proof fn bypass_each(os: Os, dsts: Seq<Seq<char>>, gateway: Seq<char>, phys: Seq<char>)
    requires
        os != Os::Macos,
    ensures
        bypass_all(os, dsts, gateway, phys).len() == dsts.len(),
        forall|j: int|
            0 <= j < dsts.len() ==> #[trigger] bypass_all(os, dsts, gateway, phys)[j] == run(
                "ip"@,
                seq!["route"@, "replace"@, network(dsts[j]), "via"@, gateway, "dev"@, phys],
            ),
    decreases dsts.len(),
{
    if dsts.len() > 0 {
        let front = dsts.drop_last();
        bypass_each(os, front, gateway, phys);
        let all = bypass_all(os, dsts, gateway, phys);
        assert forall|j: int| 0 <= j < dsts.len() implies #[trigger] all[j] == run(
            "ip"@,
            seq!["route"@, "replace"@, network(dsts[j]), "via"@, gateway, "dev"@, phys],
        ) by {
            if j < front.len() {
                assert(all[j] == bypass_all(os, front, gateway, phys)[j]);
                assert(front[j] == dsts[j]);
            }
        }
    }
}

/// The tunnel's halves go first when it is undone, so that nothing is left without a way.
pub proof fn halves_go_first(os: Os, dev: Seq<char>, bypass: Seq<Seq<char>>)
    requires
        os != Os::Macos,
    ensures
        exit_down_acts(os, dev, bypass)[0] == run(
            "ip"@,
            seq!["route"@, "del"@, "0.0.0.0/1"@, "dev"@, dev],
        ),
        exit_down_acts(os, dev, bypass)[1] == run(
            "ip"@,
            seq!["route"@, "del"@, "128.0.0.0/1"@, "dev"@, dev],
        ),
{
    halves_are_no_default();
}

/// The name server comes behind the routes, exactly if there is one.
pub proof fn names_come_last(
    os: Os,
    backend: DnsBackend,
    dev: Seq<char>,
    dns: Seq<char>,
    host: DnsFacts,
)
    ensures
        name_acts(os, backend, dev, None, host).len() == 0,
        name_acts(os, backend, dev, Some(dns), host) == set_dns_acts(os, backend, dev, dns, host),
{
}

/// The word behind the first occurrence of another is found, and none where there is none behind
/// it.
pub proof fn word_behind_is_found(ws: Seq<Seq<char>>, word: Seq<char>, i: int)
    requires
        0 <= i < ws.len(),
        ws[i] == word,
        forall|j: int| 0 <= j < i ==> #[trigger] ws[j] != word,
    ensures
        i + 1 < ws.len() ==> word_after(ws, word) == Some(ws[i + 1]),
        i + 1 == ws.len() ==> word_after(ws, word) is None,
    decreases i,
{
    place_is(ws, word, i);
}

/// The place of the first occurrence of a word.
proof fn place_is(ws: Seq<Seq<char>>, word: Seq<char>, i: int)
    requires
        0 <= i < ws.len(),
        ws[i] == word,
        forall|j: int| 0 <= j < i ==> #[trigger] ws[j] != word,
    ensures
        place_of(ws, word) == i,
    decreases i,
{
    if i > 0 {
        let rest = ws.skip(1);
        assert(ws[0] != word);
        assert forall|j: int| 0 <= j < i - 1 implies #[trigger] rest[j] != word by {
            assert(ws[j + 1] != word);
        }
        place_is(rest, word, i - 1);
    }
}

/// What follows a label is found in the first line that has it, blanks aside.
pub proof fn labelled_line_is_found(ls: Seq<Seq<char>>, label: Seq<char>, i: int)
    requires
        0 <= i < ls.len(),
        crate::words::has_prefix(crate::words::trim(ls[i]), label),
        forall|j: int|
            0 <= j < i ==> !crate::words::has_prefix(crate::words::trim(#[trigger] ls[j]), label),
    ensures
        labelled(ls, label) == Some(
            crate::words::trim(crate::words::trim(ls[i]).skip(label.len() as int)),
        ),
    decreases i,
{
    if i > 0 {
        let rest = ls.skip(1);
        assert(!crate::words::has_prefix(crate::words::trim(ls[0]), label));
        assert forall|j: int| 0 <= j < i - 1 implies !crate::words::has_prefix(
            crate::words::trim(#[trigger] rest[j]),
            label,
        ) by {
            assert(rest[j] == ls[j + 1]);
        }
        labelled_line_is_found(rest, label, i - 1);
    }
}

/// On Linux the outer interface is the word behind `dev` in the default route, on macOS what the
/// line `interface:` says, on Windows all that was printed.
pub proof fn outer_interface_is_read(printed: Seq<char>)
    ensures
        interface_in(Os::Linux, printed) == word_after(crate::words::words(printed), "dev"@),
        interface_in(Os::Macos, printed) == labelled(crate::words::lines(printed), "interface:"@),
        crate::words::trim(printed).len() > 0 ==> interface_in(Os::Windows, printed) == Some(
            crate::words::trim(printed),
        ),
        crate::words::trim(printed).len() == 0 ==> interface_in(Os::Windows, printed) is None,
{
}

/// On macOS a route is deleted before it is added, so that an older one does not stay: a network on
/// the tunnel's interface, a destination around it by the gateway.
pub proof fn macos_routes_start_over(
    net: Seq<char>,
    dev: Seq<char>,
    dst: Seq<char>,
    gateway: Seq<char>,
    phys: Seq<char>,
)
    requires
        net != "0.0.0.0/0"@,
        net != "::/0"@,
    ensures
        ({
            let del = run("route"@, seq!["-n"@, "delete"@, "-net"@, net]);
            let undo = run("route"@, seq!["-n"@, "delete"@, "-net"@, network(dst)]);
            &&& replace_acts(Os::Macos, net, dev) == seq![
                del,
                run("route"@, seq!["-n"@, "add"@, "-net"@, net, "-interface"@, dev]),
            ]
            &&& del_acts(Os::Macos, net, dev) == seq![del]
            &&& bypass_acts(Os::Macos, dst, gateway, phys) == seq![
                undo,
                run("route"@, seq!["-n"@, "add"@, "-net"@, network(dst), gateway]),
            ]
            &&& unbypass_acts(Os::Macos, dst) == seq![undo]
        }),
{
}

/// On Linux a route takes the place of an older one to the same network, and is deleted by its
/// network.
pub proof fn linux_routes_are_replaced(
    net: Seq<char>,
    dev: Seq<char>,
    dst: Seq<char>,
    gateway: Seq<char>,
    phys: Seq<char>,
)
    requires
        net != "0.0.0.0/0"@,
        net != "::/0"@,
    ensures
        replace_acts(Os::Linux, net, dev) == seq![
            run("ip"@, seq!["route"@, "replace"@, net, "dev"@, dev]),
        ],
        del_acts(Os::Linux, net, dev) == seq![
            run("ip"@, seq!["route"@, "del"@, net, "dev"@, dev]),
        ],
        bypass_acts(Os::Linux, dst, gateway, phys) == seq![
            run(
                "ip"@,
                seq!["route"@, "replace"@, network(dst), "via"@, gateway, "dev"@, phys],
            ),
        ],
        unbypass_acts(Os::Linux, dst) == seq![run("ip"@, seq!["route"@, "del"@, network(dst)])],
{
}

} // verus!
