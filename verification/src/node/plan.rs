//! What a node sets itself up with: how many workers, which addresses it tells others, which routes
//! and name servers its host gets, and whom it dials.

use crate::ipv4::{ipv4_text, ipv4_to_text, network_of, network_value, number_of, parse_number};
use crate::mesh::order::{before, begins};
use crate::mesh::reconcile::{copy_addrs, Act as Change, Action, PeerInfo};
use crate::net::{IpAddr, SocketAddr};
use crate::node::dns::opt_text;
use crate::node::gateway::{exit_move, powershell, ExitMove};
use crate::node::host::{
    acts, append_steps, no_steps, push_run, push_step, strs, Act, Os, Step,
};
use crate::node::route::{
    del_acts, installs, is_default, replace_acts, replacing_spares_default, route_del,
    route_replace,
};
use crate::text::{copy_texts, dec, push_dec, same_text};
use crate::words::equal_ignoring_case;
use vstd::prelude::*;
use vstd::string::StringExecFns;

verus! {

/// The larger of two numbers.
pub open spec fn larger(a: int, b: int) -> int {
    if a < b {
        b
    } else {
        a
    }
}

/// The number of workers: as many as the environment asks for, else one less than there are
/// processors; at least one, and no more than there are peers.
pub open spec fn workers(named: Option<Seq<char>>, cores: Option<usize>, peers: usize) -> int {
    let asked = match named {
        Some(s) => match number_of(s, usize::MAX as u64) {
            Some(n) => Some(n as int),
            None => None,
        },
        None => None,
    };
    let wanted = larger(
        match asked {
            Some(n) => n,
            None => match cores {
                Some(c) => larger(c - 1, 0),
                None => 1,
            },
        },
        1,
    );
    let most = larger(peers as int, 1);
    if wanted < most {
        wanted
    } else {
        most
    }
}

/// The number of workers. `named` is the environment's `FP_WORKERS`.
pub fn worker_count(named: &Option<String>, cores: Option<usize>, peers: usize) -> (n: usize)
    ensures
        n == workers(opt_text(*named), cores, peers),
        n >= 1,
{
    let asked = match named {
        Some(s) => parse_number(s.as_str(), usize::MAX as u64),
        None => None,
    };
    let wanted: usize = match asked {
        Some(n) => n as usize,
        None => match cores {
            Some(c) => c.saturating_sub(1),
            None => 1,
        },
    };
    let wanted: usize = if wanted < 1 {
        1
    } else {
        wanted
    };
    let most: usize = if peers < 1 {
        1
    } else {
        peers
    };
    if wanted < most {
        wanted
    } else {
        most
    }
}

/// The size of a packet: the node's own setting goes before the network's.
pub fn effective_mtu(own: Option<i32>, network: Option<i32>) -> (r: Option<i32>)
    ensures
        r == if own is Some {
            own
        } else {
            network
        },
{
    match own {
        Some(m) => Some(m),
        None => network,
    }
}

/// The name servers: the node's own setting goes before the network's.
pub fn effective_dns(own: &Vec<String>, network: &Vec<String>) -> (r: Vec<String>)
    ensures
        crate::text::texts(r@) == if own@.len() > 0 {
            crate::text::texts(own@)
        } else {
            crate::text::texts(network@)
        },
{
    if own.len() > 0 {
        copy_texts(own)
    } else {
        copy_texts(network)
    }
}

/// The address that a node has on its way to others, out of the one that its host would send from:
/// none where that is of version 6 or never leaves the host.
pub fn local_address(from: IpAddr) -> (r: Option<u32>)
    ensures
        r == match from {
            IpAddr::V4(ip) => if ip / 0x100_0000 == 127 {
                None
            } else {
                Some(ip)
            },
            IpAddr::V6(_) => None,
        },
{
    match from {
        IpAddr::V4(ip) => if ip / 0x100_0000 == 127 {
            None
        } else {
            Some(ip)
        },
        IpAddr::V6(_) => None,
    }
}

/// The addresses that a node tells others: those that are set, else the one that the outside sees
/// and the one that the node has.
pub open spec fn advertised(
    explicit: Seq<Seq<char>>,
    reflexive: Option<Seq<char>>,
    local: Option<u32>,
    port: u16,
) -> Seq<Seq<char>> {
    if explicit.len() > 0 {
        explicit
    } else {
        let seen = match reflexive {
            Some(s) => seq![s],
            None => seq![],
        };
        match local {
            Some(ip) => seen.push(ipv4_text(ip) + ":"@ + dec(port as nat)),
            None => seen,
        }
    }
}

/// The addresses that a node tells others.
pub fn advertise(
    explicit: &Vec<String>,
    reflexive: Option<String>,
    local: Option<u32>,
    port: u16,
) -> (r: Vec<String>)
    ensures
        crate::text::texts(r@) == advertised(
            crate::text::texts(explicit@),
            opt_text(reflexive),
            local,
            port,
        ),
{
    if explicit.len() > 0 {
        return copy_texts(explicit);
    }
    let mut r: Vec<String> = Vec::new();
    assert(crate::text::texts(r@) =~= seq![]);
    match reflexive {
        Some(s) => {
            proof {
                crate::text::texts_push(r@, s);
            }
            r.push(s);
            assert(crate::text::texts(r@) =~= seq![s@]);
        },
        None => {},
    }
    match local {
        Some(ip) => {
            let mut s = ipv4_to_text(ip);
            s.append(":");
            push_dec(&mut s, port as u64);
            proof {
                crate::text::texts_push(r@, s);
            }
            r.push(s);
        },
        None => {},
    }
    r
}

/// The network of an address as it reads.
pub open spec fn network_text(ip: u32, prefix: u8) -> Seq<char> {
    ipv4_text(network_value(ip, prefix) as u32) + "/"@ + dec(prefix as nat)
}

/// The network of a node that fixes `prefix` bits.
pub fn overlay_network(own: u32, prefix: u8) -> (s: String)
    requires
        prefix <= 32,
    ensures
        s@ == network_text(own, prefix),
{
    let mut s = ipv4_to_text(network_of(own, prefix));
    s.append("/");
    push_dec(&mut s, prefix as u64);
    s
}

/// The routes of some networks into the tunnel.
pub open spec fn replace_all(os: Os, nets: Seq<Seq<char>>, dev: Seq<char>) -> Seq<Act>
    decreases nets.len(),
{
    if nets.len() == 0 {
        seq![]
    } else {
        replace_all(os, nets.drop_last(), dev) + replace_acts(os, nets.last(), dev)
    }
}

/// Routes some networks into the tunnel.
fn push_routes(os: Os, nets: &Vec<String>, dev: &str, out: &mut Vec<Step>)
    ensures
        acts(final(out)@) == acts(old(out)@) + replace_all(os, crate::text::texts(nets@), dev@),
{
    let ghost head = acts(out@);
    let ghost all = crate::text::texts(nets@);
    let mut i: usize = 0;
    assert(acts(out@) =~= head + replace_all(os, all.take(0), dev@));
    while i < nets.len()
        invariant
            i <= nets@.len(),
            all == crate::text::texts(nets@),
            acts(out@) == head + replace_all(os, all.take(i as int), dev@),
        decreases nets@.len() - i,
    {
        route_replace(os, nets[i].as_str(), dev, out);
        proof {
            assert(all.take(i + 1).drop_last() =~= all.take(i as int));
            assert(acts(out@) =~= head + replace_all(os, all.take(i + 1), dev@));
        }
        i += 1;
    }
    assert(all.take(all.len() as int) =~= all);
}

/// The routes to the members.
pub open spec fn member_routes(os: Os, peers: Seq<PeerInfo>, dev: Seq<char>) -> Seq<Act>
    decreases peers.len(),
{
    if peers.len() == 0 {
        seq![]
    } else {
        member_routes(os, peers.drop_last(), dev) + replace_all(
            os,
            crate::text::texts(peers.last().allowed_ips@),
            dev,
        )
    }
}

/// The route to the whole network: nothing of it leaves the tunnel, also where no member has the
/// address.
pub open spec fn overlay_route(os: Os, own: u32, prefix: u8, dev: Seq<char>) -> Seq<Act> {
    if 0 < prefix <= 32 {
        replace_acts(os, network_text(own, prefix), dev)
    } else {
        seq![]
    }
}

/// Routes what lies behind the members, and the whole network, into the tunnel.
pub fn host_routes(os: Os, peers: &Vec<PeerInfo>, own: u32, prefix: u8, dev: &str) -> (out: Vec<
    Step,
>)
    ensures
        acts(out@) == member_routes(os, peers@, dev@) + overlay_route(os, own, prefix, dev@),
{
    let mut out = no_steps();
    let mut i: usize = 0;
    assert(acts(out@) =~= member_routes(os, peers@.take(0), dev@));
    while i < peers.len()
        invariant
            i <= peers@.len(),
            acts(out@) == member_routes(os, peers@.take(i as int), dev@),
        decreases peers@.len() - i,
    {
        push_routes(os, &peers[i].allowed_ips, dev, &mut out);
        assert(peers@.take(i + 1).drop_last() =~= peers@.take(i as int));
        i += 1;
    }
    assert(peers@.take(peers@.len() as int) =~= peers@);
    let ghost head = acts(out@);
    if prefix > 0 && prefix <= 32 {
        let net = overlay_network(own, prefix);
        route_replace(os, net.as_str(), dev, &mut out);
    }
    assert(acts(out@) =~= head + overlay_route(os, own, prefix, dev@));
    out
}

/// What an `embedded` node leaves to the platform that made its tunnel: the host's routes and name
/// servers. Any other node sets them up itself.
pub open spec fn set_up_acts(
    os: Os,
    embedded: bool,
    servers: Seq<Seq<char>>,
    manage: bool,
    peers: Seq<PeerInfo>,
    own: u32,
    prefix: u8,
    dev: Seq<char>,
) -> Seq<Act> {
    if embedded {
        seq![]
    } else {
        dns_acts(os, servers, manage, dev) + (member_routes(os, peers, dev) + overlay_route(
            os,
            own,
            prefix,
            dev,
        ))
    }
}

/// Sets up the host's name servers and routes when a node starts.
pub fn set_up(
    os: Os,
    embedded: bool,
    servers: &Vec<String>,
    manage: &Option<String>,
    peers: &Vec<PeerInfo>,
    own: u32,
    prefix: u8,
    dev: &str,
) -> (out: Vec<Step>)
    ensures
        acts(out@) == set_up_acts(
            os,
            embedded,
            crate::text::texts(servers@),
            manages(opt_text(*manage)),
            peers@,
            own,
            prefix,
            dev@,
        ),
{
    if embedded {
        return no_steps();
    }
    let mut out = apply_dns(os, servers, manage, dev);
    append_steps(&mut out, host_routes(os, peers, own, prefix, dev));
    out
}

/// What a change of the network does to the host's routes. They are the platform's on an
/// `embedded` node.
pub open spec fn change_acts(os: Os, embedded: bool, a: Change, dev: Seq<char>) -> Seq<Act> {
    if embedded {
        seq![]
    } else {
        match a {
            Change::RouteAdd(net) => replace_acts(os, net, dev),
            Change::RouteDel(net) => del_acts(os, net, dev),
            _ => seq![],
        }
    }
}

/// Takes a change of the network to the host's routes.
pub fn route_change(os: Os, embedded: bool, a: &Action, dev: &str) -> (out: Vec<Step>)
    ensures
        acts(out@) == change_acts(os, embedded, a@, dev@),
{
    let mut out = no_steps();
    if embedded {
        return out;
    }
    match a {
        Action::RouteAdd(net) => route_replace(os, net.as_str(), dev, &mut out),
        Action::RouteDel(net) => route_del(os, net.as_str(), dev, &mut out),
        _ => {},
    }
    assert(acts(out@) =~= change_acts(os, embedded, a@, dev@));
    out
}

/// The members that a node dials.
pub open spec fn dialed(own: [u8; 32], peers: Seq<PeerInfo>) -> Seq<([u8; 32], Seq<SocketAddr>)>
    decreases peers.len(),
{
    if peers.len() == 0 {
        seq![]
    } else {
        let front = dialed(own, peers.drop_last());
        let p = peers.last();
        if before(own@, p.pubkey@) {
            front.push((p.pubkey, p.candidates@))
        } else {
            front
        }
    }
}

/// Some members with their addresses, as values.
pub open spec fn dial_view(v: Seq<([u8; 32], Vec<SocketAddr>)>) -> Seq<([u8; 32], Seq<SocketAddr>)> {
    v.map_values(|t: ([u8; 32], Vec<SocketAddr>)| (t.0, t.1@))
}

/// The members that a node dials: those with a larger key. The others dial it.
pub fn dial_targets(own: &[u8; 32], peers: &Vec<PeerInfo>) -> (out: Vec<
    ([u8; 32], Vec<SocketAddr>),
>)
    ensures
        dial_view(out@) == dialed(*own, peers@),
{
    let mut out: Vec<([u8; 32], Vec<SocketAddr>)> = Vec::new();
    let mut i: usize = 0;
    assert(dial_view(out@) =~= dialed(*own, peers@.take(0)));
    while i < peers.len()
        invariant
            i <= peers@.len(),
            dial_view(out@) == dialed(*own, peers@.take(i as int)),
        decreases peers@.len() - i,
    {
        assert(peers@.take(i + 1).drop_last() =~= peers@.take(i as int));
        if begins(own, &peers[i].pubkey) {
            let ghost front = out@;
            let t = (peers[i].pubkey, copy_addrs(&peers[i].candidates));
            out.push(t);
            assert(dial_view(out@) =~= dial_view(front).push((t.0, t.1@)));
        }
        i += 1;
    }
    assert(peers@.take(peers@.len() as int) =~= peers@);
    out
}

/// The lines of a resolver file.
pub open spec fn nameservers(servers: Seq<Seq<char>>) -> Seq<char>
    decreases servers.len(),
{
    if servers.len() == 0 {
        seq![]
    } else {
        nameservers(servers.drop_last()) + ("nameserver "@ + servers.last() + "\n"@)
    }
}

/// The servers, each in quotes, with commas between them.
pub open spec fn quoted(servers: Seq<Seq<char>>) -> Seq<char>
    decreases servers.len(),
{
    if servers.len() == 0 {
        seq![]
    } else {
        let q = "'"@ + servers.last() + "'"@;
        if servers.len() == 1 {
            q
        } else {
            quoted(servers.drop_last()) + ","@ + q
        }
    }
}

/// What sets the network's name servers.
pub open spec fn dns_acts(os: Os, servers: Seq<Seq<char>>, manage: bool, iface: Seq<char>) -> Seq<
    Act,
> {
    if servers.len() == 0 || !manage {
        seq![]
    } else if os == Os::Windows {
        seq![
            powershell(
                "Set-DnsClientServerAddress -InterfaceAlias '"@ + iface + "' -ServerAddresses "@
                    + quoted(servers) + " -ErrorAction SilentlyContinue"@,
            ),
        ]
    } else {
        seq![Act::Write("/etc/resolv.conf"@, "# managed by fluxpeer\n"@ + nameservers(servers))]
    }
}

/// Whether the environment asks the node to set name servers.
pub open spec fn manages(value: Option<Seq<char>>) -> bool {
    value matches Some(v) && (v == "1"@ || crate::words::same_letters(v, "true"@))
}

/// Sets the network's name servers, if the environment's `FLUXPEER_MANAGE_DNS` asks for it: the
/// host's own would be lost.
pub fn apply_dns(os: Os, servers: &Vec<String>, manage: &Option<String>, iface: &str) -> (out: Vec<
    Step,
>)
    ensures
        acts(out@) == dns_acts(
            os,
            crate::text::texts(servers@),
            manages(opt_text(*manage)),
            iface@,
        ),
{
    let mut out = no_steps();
    if servers.len() == 0 {
        return out;
    }
    let asked = match manage {
        Some(v) => same_text(v.as_str(), "1") || equal_ignoring_case(v.as_str(), "true"),
        None => false,
    };
    if !asked {
        return out;
    }
    let ghost all = crate::text::texts(servers@);
    let mut list = String::new();
    let mut body = String::new();
    let mut i: usize = 0;
    assert(body@ =~= nameservers(all.take(0)));
    assert(list@ =~= quoted(all.take(0)));
    while i < servers.len()
        invariant
            i <= servers@.len(),
            all == crate::text::texts(servers@),
            body@ == nameservers(all.take(i as int)),
            list@ == quoted(all.take(i as int)),
        decreases servers@.len() - i,
    {
        let ghost b = body@;
        let ghost l = list@;
        body.append("nameserver ");
        body.append(servers[i].as_str());
        body.append("\n");
        if i > 0 {
            list.append(",");
        }
        list.append("'");
        list.append(servers[i].as_str());
        list.append("'");
        proof {
            let s = servers@[i as int]@;
            assert(all.take(i + 1).drop_last() =~= all.take(i as int));
            assert(all.take(i + 1).last() == s);
            assert(body@ =~= b + ("nameserver "@ + s + "\n"@));
            if i > 0 {
                assert(list@ =~= l + ","@ + ("'"@ + s + "'"@));
            } else {
                assert(l =~= seq![]);
                assert(list@ =~= "'"@ + s + "'"@);
            }
        }
        i += 1;
    }
    assert(all.take(all.len() as int) =~= all);
    if os == Os::Windows {
        let mut script = String::from_str("Set-DnsClientServerAddress -InterfaceAlias '");
        script.append(iface);
        script.append("' -ServerAddresses ");
        script.append(list.as_str());
        script.append(" -ErrorAction SilentlyContinue");
        let a = ["-NoProfile", "-Command", script.as_str()];
        push_run(&mut out, "powershell", a.as_slice());
        assert(strs(a@) =~= seq!["-NoProfile"@, "-Command"@, script@]);
    } else {
        let mut text = String::from_str("# managed by fluxpeer\n");
        text.append(body.as_str());
        push_step(&mut out, Step::Write(String::from_str("/etc/resolv.conf"), text));
    }
    assert(acts(out@) =~= dns_acts(os, all, true, iface@));
    out
}

/// Of two nodes that know each other exactly one dials the other.
pub proof fn one_side_dials(a: PeerInfo, b: PeerInfo)
    requires
        a.pubkey != b.pubkey,
    ensures
        dialed(a.pubkey, seq![b]).len() + dialed(b.pubkey, seq![a]).len() == 1,
{
    assert(a.pubkey@ != b.pubkey@) by {
        if a.pubkey@ == b.pubkey@ {
            assert(a.pubkey =~= b.pubkey);
        }
    }
    crate::mesh::order::exactly_one_begins(a.pubkey@, b.pubkey@);
    assert(seq![b].drop_last() =~= seq![]);
    assert(seq![a].drop_last() =~= seq![]);
    assert(dialed(a.pubkey, seq![b].drop_last()) =~= seq![]);
    assert(dialed(b.pubkey, seq![a].drop_last()) =~= seq![]);
}

/// Routes to some networks install no route to all addresses.
proof fn routes_spare_default(os: Os, nets: Seq<Seq<char>>, dev: Seq<char>, all: Seq<char>)
    requires
        is_default(all),
    ensures
        forall|i: int|
            0 <= i < replace_all(os, nets, dev).len() ==> !installs(
                #[trigger] replace_all(os, nets, dev)[i],
                all,
            ),
    decreases nets.len(),
{
    if nets.len() > 0 {
        routes_spare_default(os, nets.drop_last(), dev, all);
        replacing_spares_default(os, nets.last(), dev, all);
        let front = replace_all(os, nets.drop_last(), dev);
        let tail = replace_acts(os, nets.last(), dev);
        let full = replace_all(os, nets, dev);
        assert forall|i: int| 0 <= i < full.len() implies !installs(#[trigger] full[i], all) by {
            if i < front.len() {
                assert(full[i] == front[i]);
            } else {
                assert(full[i] == tail[i - front.len()]);
            }
        }
    }
}

/// The host's own default route is left alone: whatever lies behind the members, no route to all
/// addresses is installed for them, not even where a member takes everything.
pub proof fn default_route_is_left_alone(
    os: Os,
    peers: Seq<PeerInfo>,
    own: u32,
    prefix: u8,
    dev: Seq<char>,
    all: Seq<char>,
)
    requires
        is_default(all),
    ensures
        forall|i: int|
            0 <= i < (member_routes(os, peers, dev) + overlay_route(os, own, prefix, dev)).len()
                ==> !installs(
                #[trigger] (member_routes(os, peers, dev) + overlay_route(
                    os,
                    own,
                    prefix,
                    dev,
                ))[i],
                all,
            ),
    decreases peers.len(),
{
    replacing_spares_default(os, network_text(own, prefix), dev, all);
    if peers.len() > 0 {
        default_route_is_left_alone(os, peers.drop_last(), own, prefix, dev, all);
        routes_spare_default(os, crate::text::texts(peers.last().allowed_ips@), dev, all);
        let front = member_routes(os, peers.drop_last(), dev);
        let tail = overlay_route(os, own, prefix, dev);
        let full = member_routes(os, peers, dev) + tail;
        assert forall|i: int| 0 <= i < full.len() implies !installs(#[trigger] full[i], all) by {
            if i < front.len() {
                assert(full[i] == (front + tail)[i]);
            }
        }
    }
}

/// A node on a tunnel that the platform made never touches the host's routes or name servers:
/// neither when it starts nor at any change of the network, and it never sends the host's traffic
/// through a member.
pub proof fn platform_keeps_its_host(
    os: Os,
    servers: Seq<Seq<char>>,
    manage: bool,
    peers: Seq<PeerInfo>,
    own: u32,
    prefix: u8,
    dev: Seq<char>,
    a: Change,
    up: bool,
)
    ensures
        set_up_acts(os, true, servers, manage, peers, own, prefix, dev) == Seq::<Act>::empty(),
        change_acts(os, true, a, dev) == Seq::<Act>::empty(),
        exit_move(peers, up, true) == ExitMove::Stay,
{
}

/// There is at least one worker and there are never more than members; the number that is asked for
/// is taken, and without one all processors but one work.
pub proof fn workers_are_as_asked(
    asked: nat,
    named: Option<Seq<char>>,
    cores: Option<usize>,
    peers: usize,
)
    requires
        asked <= u32::MAX,
    ensures
        1 <= workers(named, cores, peers),
        peers >= 1 ==> workers(named, cores, peers) <= peers,
        peers == 0 ==> workers(named, cores, peers) == 1,
        1 <= asked <= peers ==> workers(Some(dec(asked)), cores, peers) == asked,
        asked == 0 ==> workers(Some(dec(asked)), cores, peers) == 1,
        asked > peers >= 1 ==> workers(Some(dec(asked)), cores, peers) == peers,
        cores matches Some(c) ==> (2 <= c <= peers + 1 ==> workers(None, cores, peers) == c - 1),
        cores matches Some(c) ==> (c <= 2 ==> workers(None, cores, peers) == 1),
        cores is None ==> workers(None, cores, peers) == 1,
{
    crate::ipv4::numbers_read_back(asked, usize::MAX as u64);
}

/// What the user names is advertised and nothing else; otherwise what a server saw comes first and
/// the host's own address last.
pub proof fn named_addresses_go_first(
    explicit: Seq<Seq<char>>,
    seen: Seq<char>,
    local: u32,
    port: u16,
    reflexive: Option<Seq<char>>,
    own: Option<u32>,
)
    ensures
        explicit.len() > 0 ==> advertised(explicit, reflexive, own, port) == explicit,
        advertised(seq![], Some(seen), Some(local), port) == seq![
            seen,
            ipv4_text(local) + ":"@ + dec(port as nat),
        ],
        advertised(seq![], Some(seen), None, port) == seq![seen],
        advertised(seq![], None, Some(local), port) == seq![
            ipv4_text(local) + ":"@ + dec(port as nat),
        ],
        advertised(seq![], None, None, port).len() == 0,
{
}

/// The node's own network holds exactly the addresses that share its prefix.
pub proof fn own_network_is_the_block(own: u32, prefix: u8, ip: u32)
    requires
        prefix <= 32,
    ensures
        crate::ipv4::in_cidr(ip, network_text(own, prefix)) <==> crate::ipv4::same_prefix(
            ip,
            own,
            prefix,
        ),
{
    reveal_strlit("/");
    crate::ipv4::network_begins_its_block(own, ip, prefix);
    let net = network_value(own, prefix) as u32;
    assert("/"@ =~= seq!['/']);
    crate::ipv4::written_network_holds_its_block(net, prefix, ip);
    crate::ipv4::prefix_is_an_equivalence(ip, own, net, prefix);
    crate::ipv4::prefix_is_an_equivalence(own, net, ip, prefix);
    crate::ipv4::prefix_is_an_equivalence(net, own, ip, prefix);
    crate::ipv4::prefix_is_an_equivalence(ip, net, own, prefix);
}

/// Each network of each member is routed into the tunnel when the node starts, the default network
/// aside.
pub proof fn networks_of_members_are_routed(
    os: Os,
    peers: Seq<PeerInfo>,
    dev: Seq<char>,
    i: int,
    j: int,
)
    requires
        0 <= i < peers.len(),
        0 <= j < peers[i].allowed_ips@.len(),
        peers[i].allowed_ips@[j]@ != "0.0.0.0/0"@,
        peers[i].allowed_ips@[j]@ != "::/0"@,
    ensures
        exists|k: int|
            0 <= k < member_routes(os, peers, dev).len() && installs(
                #[trigger] member_routes(os, peers, dev)[k],
                peers[i].allowed_ips@[j]@,
            ) && member_routes(os, peers, dev)[k]->Run_0.args.last() == dev,
    decreases peers.len(),
{
    let net = peers[i].allowed_ips@[j]@;
    let front = member_routes(os, peers.drop_last(), dev);
    let nets = crate::text::texts(peers.last().allowed_ips@);
    let own = replace_all(os, nets, dev);
    let all = member_routes(os, peers, dev);
    if i == peers.len() - 1 {
        assert(nets[j] == net);
        listed_network_is_routed(os, nets, dev, j);
        let k = choose|k: int|
            0 <= k < own.len() && installs(#[trigger] own[k], net) && own[k]->Run_0.args.last()
                == dev;
        assert(all[front.len() + k] == own[k]);
    } else {
        networks_of_members_are_routed(os, peers.drop_last(), dev, i, j);
        let k = choose|k: int|
            0 <= k < front.len() && installs(#[trigger] front[k], net)
                && front[k]->Run_0.args.last() == dev;
        assert(all[k] == front[k]);
    }
}

/// Each network of a list is routed, the default network aside.
proof fn listed_network_is_routed(os: Os, nets: Seq<Seq<char>>, dev: Seq<char>, j: int)
    requires
        0 <= j < nets.len(),
        nets[j] != "0.0.0.0/0"@,
        nets[j] != "::/0"@,
    ensures
        exists|k: int|
            0 <= k < replace_all(os, nets, dev).len() && installs(
                #[trigger] replace_all(os, nets, dev)[k],
                nets[j],
            ) && replace_all(os, nets, dev)[k]->Run_0.args.last() == dev,
    decreases nets.len(),
{
    let front = replace_all(os, nets.drop_last(), dev);
    let last = replace_acts(os, nets.last(), dev);
    let all = replace_all(os, nets, dev);
    if j == nets.len() - 1 {
        crate::node::route::networks_go_into_the_tunnel(os, nets[j], dev);
        assert(all[all.len() - 1] == last.last());
    } else {
        listed_network_is_routed(os, nets.drop_last(), dev, j);
        let k = choose|k: int|
            0 <= k < front.len() && installs(#[trigger] front[k], nets[j])
                && front[k]->Run_0.args.last() == dev;
        assert(all[k] == front[k]);
    }
}

/// The node's own network is routed as well, and the name servers are set before.
pub proof fn starting_routes_the_network(
    os: Os,
    servers: Seq<Seq<char>>,
    manage: bool,
    peers: Seq<PeerInfo>,
    own: u32,
    prefix: u8,
    dev: Seq<char>,
)
    requires
        0 < prefix <= 32,
    ensures
        ({
            let v = set_up_acts(os, false, servers, manage, peers, own, prefix, dev);
            let n = dns_acts(os, servers, manage, dev).len() as int;
            &&& v.take(n) == dns_acts(os, servers, manage, dev)
            &&& v.subrange(n, n + member_routes(os, peers, dev).len()) == member_routes(
                os,
                peers,
                dev,
            )
            &&& v.skip(n + member_routes(os, peers, dev).len()) == replace_acts(
                os,
                network_text(own, prefix),
                dev,
            )
        }),
{
    let v = set_up_acts(os, false, servers, manage, peers, own, prefix, dev);
    let n = dns_acts(os, servers, manage, dev).len() as int;
    let m = member_routes(os, peers, dev).len() as int;
    assert(v.take(n) =~= dns_acts(os, servers, manage, dev));
    assert(v.subrange(n, n + m) =~= member_routes(os, peers, dev));
    assert(v.skip(n + m) =~= replace_acts(os, network_text(own, prefix), dev));
}

/// A network that comes is routed on the tunnel's device, one that goes is not any more, and no
/// other change touches the routes.
pub proof fn changes_move_the_routes(os: Os, net: Seq<char>, dev: Seq<char>, a: Change)
    requires
        net != "0.0.0.0/0"@,
        net != "::/0"@,
    ensures
        change_acts(os, false, Change::RouteAdd(net), dev).len() > 0,
        installs(change_acts(os, false, Change::RouteAdd(net), dev).last(), net),
        change_acts(os, false, Change::RouteAdd(net), dev).last()->Run_0.args.last() == dev,
        change_acts(os, false, Change::RouteDel(net), dev) == del_acts(os, net, dev),
        a is RemovePeer || a is AddPeer || a is UpdateCandidates ==> change_acts(
            os,
            false,
            a,
            dev,
        ).len() == 0,
{
    crate::node::route::networks_go_into_the_tunnel(os, net, dev);
}

/// A node dials exactly the members whose key is larger than its own, at their addresses.
pub proof fn smaller_key_dials(own: [u8; 32], peers: Seq<PeerInfo>, i: int)
    requires
        0 <= i < peers.len(),
    ensures
        before(own@, peers[i].pubkey@) ==> dialed(own, peers).contains(
            (peers[i].pubkey, peers[i].candidates@),
        ),
        forall|k: int|
            0 <= k < dialed(own, peers).len() ==> before(
                own@,
                (#[trigger] dialed(own, peers)[k]).0@,
            ),
    decreases peers.len(),
{
    let front = dialed(own, peers.drop_last());
    let all = dialed(own, peers);
    if peers.len() > 1 {
        smaller_key_dials(
            own,
            peers.drop_last(),
            if i == peers.len() - 1 {
                0
            } else {
                i
            },
        );
    }
    if before(own@, peers[i].pubkey@) {
        if i == peers.len() - 1 {
            assert(all[all.len() - 1] == (peers[i].pubkey, peers[i].candidates@));
        } else {
            let e = (peers[i].pubkey, peers[i].candidates@);
            let k = choose|k: int| 0 <= k < front.len() && front[k] == e;
            assert(all[k] == e);
        }
    }
    assert forall|k: int| 0 <= k < all.len() implies before(own@, (#[trigger] all[k]).0@) by {
        if k < front.len() {
            assert(all[k] == front[k]);
        }
    }
}

/// The resolver's file names each server on a line of its own.
pub proof fn every_server_is_named(servers: Seq<Seq<char>>, i: int)
    requires
        0 <= i < servers.len(),
    ensures
        crate::words::has_part(nameservers(servers), "nameserver "@ + servers[i] + "\n"@),
    decreases servers.len(),
{
    let front = nameservers(servers.drop_last());
    let line = "nameserver "@ + servers.last() + "\n"@;
    let part = "nameserver "@ + servers[i] + "\n"@;
    let all = nameservers(servers);
    if i == servers.len() - 1 {
        assert(all.subrange(front.len() as int, front.len() + part.len() as int) =~= part);
        assert(crate::words::has_part_at(all, part, front.len() as int));
    } else {
        every_server_is_named(servers.drop_last(), i);
        let k = choose|k: int| crate::words::has_part_at(front, part, k);
        assert(all.subrange(k, k + part.len() as int) =~= front.subrange(k, k + part.len() as int));
        assert(crate::words::has_part_at(all, part, k));
    }
}

/// Name servers are set only where the host's are managed and there are some, and then in the
/// resolver's file.
pub proof fn name_servers_are_set_if_managed(
    os: Os,
    servers: Seq<Seq<char>>,
    manage: bool,
    iface: Seq<char>,
)
    ensures
        !manage ==> dns_acts(os, servers, manage, iface).len() == 0,
        servers.len() == 0 ==> dns_acts(os, servers, manage, iface).len() == 0,
        manage && servers.len() > 0 ==> dns_acts(os, servers, manage, iface).len() == 1,
        manage && servers.len() > 0 && os != Os::Windows ==> (dns_acts(
            os,
            servers,
            manage,
            iface,
        )[0] matches Act::Write(path, text) && path == "/etc/resolv.conf"@ && text
            == "# managed by fluxpeer\n"@ + nameservers(servers)),
{
}

/// The host's name servers are managed only on request.
pub proof fn managing_is_asked_for(v: Seq<char>)
    ensures
        !manages(None),
        manages(Some("1"@)),
        manages(Some("true"@)),
        v.len() != 1 && v.len() != 4 ==> !manages(Some(v)),
        v.len() == 1 && v[0] != '1' ==> !manages(Some(v)),
{
    reveal_strlit("1");
    reveal_strlit("true");
    crate::words::letters_in_either_size("true"@, "true"@);
}

/// On Windows each server is handed over between quotes, with a comma between two.
pub proof fn servers_are_quoted(servers: Seq<Seq<char>>, s: Seq<char>)
    ensures
        quoted(seq![s]) == "'"@ + s + "'"@,
        servers.len() > 0 ==> quoted(servers.push(s)) == quoted(servers) + ",'"@ + s + "'"@,
{
    reveal_strlit(",'");
    reveal_strlit(",");
    reveal_strlit("'");
    assert(servers.push(s).drop_last() =~= servers);
    assert(seq![s].last() == s);
    if servers.len() > 0 {
        assert(quoted(servers.push(s)) =~= quoted(servers) + ",'"@ + s + "'"@);
    }
}

/// A node whose network has no prefix, or one that no address has, routes no network of its own.
pub proof fn no_network_without_a_prefix(os: Os, own: u32, prefix: u8, dev: Seq<char>)
    ensures
        prefix == 0 || prefix > 32 ==> overlay_route(os, own, prefix, dev).len() == 0,
        0 < prefix <= 32 ==> overlay_route(os, own, prefix, dev) == replace_acts(
            os,
            network_text(own, prefix),
            dev,
        ),
{
}

} // verus!
