use fluxpeer::mesh::reconcile::{Action, PeerInfo};
use fluxpeer::net::{IpAddr, SocketAddr};
use fluxpeer::node::dns::{detect, detect_for_iface, Dns, DnsChoice, DnsHost, OpenWrtDnsmasq, ResolvConf, Resolvectl};
use fluxpeer::node::firewall::{
    self, nft_forward_has, nft_killswitch_delete, Firewall, Forwarding, FwBackend, FwHost, Iptables, Nft, Noop,
};
use fluxpeer::node::gateway::{
    apply_exit, bypass_candidates, bypass_targets, drop_exit, exit_dns, exit_gateway_down, exit_gateway_up,
    exit_peer, pf_load, reset_dns, set_dns, sync_exit, ExitMove, ExitNames, Gateway,
};
use fluxpeer::node::host::{Cmd, Os, Step};
use fluxpeer::node::plan::{
    advertise, apply_dns, dial_targets, effective_dns, effective_mtu, host_routes, local_address, overlay_network,
    route_change, set_up, worker_count,
};
use fluxpeer::node::route::{
    bypass_query, cidr, default_gateway, default_route_query, exit_down, exit_up, needs_bypass, physical_iface,
    route_del, route_replace,
};
use fluxpeer::node::sorted::{get_value, put_value, read_table, sorted_texts, write_table};

fn line(c: &Cmd) -> String {
    let mut s = c.program.clone();
    for a in &c.args {
        s.push(' ');
        s.push_str(a);
    }
    s
}

/// Steps as a shell would show them.
fn shown(steps: &[Step]) -> Vec<String> {
    steps
        .iter()
        .map(|s| match s {
            Step::Run(c) => line(c),
            Step::Feed(c, t) => format!("{} < {:?}", line(c), t),
            Step::Write(p, t) => format!("write {} {:?}", p, t),
            Step::WriteNew(p, t) => format!("writenew {} {:?}", p, t),
            Step::Remove(p) => format!("remove {}", p),
            Step::Ensure(c, d) => format!("{} || {}", line(c), line(d)),
            Step::Drain(c, n) => format!("{} x{}", line(c), n),
            Step::UnlessListed(c, v, d) => format!("{} has {} || {}", line(c), v.join("+"), line(d)),
            Step::DeleteListed(c, p, t) => format!("{} drop {} {}", line(c), p, t),
            Step::RunOrWrite(c, d, p, t) => format!("{} && {} || write {} {:?}", line(c), line(d), p, t),
        })
        .collect()
}

fn texts(v: &[&str]) -> Vec<String> {
    v.iter().map(|s| s.to_string()).collect()
}

#[test]
fn addresses_become_networks() {
    assert_eq!(cidr("1.2.3.4"), "1.2.3.4/32");
    assert_eq!(cidr("10.0.0.0/8"), "10.0.0.0/8");
    assert_eq!(cidr("fd00::1"), "fd00::1/128");
}

#[test]
fn networks_are_routed_but_never_all_addresses() {
    let mut out = Vec::new();
    route_replace(Os::Linux, "10.0.0.0/8", "fp0", &mut out);
    route_replace(Os::Linux, "0.0.0.0/0", "fp0", &mut out);
    route_replace(Os::Macos, "::/0", "utun3", &mut out);
    route_replace(Os::Macos, "10.0.0.0/8", "utun3", &mut out);
    route_del(Os::Linux, "10.0.0.0/8", "fp0", &mut out);
    route_del(Os::Linux, "0.0.0.0/0", "fp0", &mut out);
    assert_eq!(
        shown(&out),
        vec![
            "ip route replace 10.0.0.0/8 dev fp0",
            "route -n delete -net 10.0.0.0/8",
            "route -n add -net 10.0.0.0/8 -interface utun3",
            "ip route del 10.0.0.0/8 dev fp0",
        ]
    );
}

#[test]
fn default_routes_are_read() {
    let ip = "default via 192.168.1.1 dev eth0 proto dhcp\n";
    assert_eq!(default_gateway(Os::Linux, ip), Some("192.168.1.1".to_string()));
    assert_eq!(physical_iface(Os::Linux, ip), Some("eth0".to_string()));
    assert_eq!(default_gateway(Os::Linux, "default dev wg0"), None);
    assert_eq!(default_gateway(Os::Linux, "default via"), None);
    let mac = "   route to: default\n    gateway: 10.0.0.1\n  interface: en0\n";
    assert_eq!(default_gateway(Os::Macos, mac), Some("10.0.0.1".to_string()));
    assert_eq!(physical_iface(Os::Macos, mac), Some("en0".to_string()));
    assert_eq!(physical_iface(Os::Windows, " Ethernet 2 \r\n"), Some("Ethernet 2".to_string()));
    assert_eq!(physical_iface(Os::Windows, " \r\n"), None);
    assert_eq!(line(&default_route_query(Os::Linux)), "ip route show default");
    assert_eq!(line(&default_route_query(Os::Macos)), "route -n get default");
    assert_eq!(line(&bypass_query("1.2.3.0/24")), "ip route get 1.2.3.0");
    assert!(needs_bypass(Os::Linux, &Some("1.2.3.4 via 10.0.0.1 dev eth0".to_string())));
    assert!(!needs_bypass(Os::Linux, &Some("10.0.0.7 dev eth0 src 10.0.0.2".to_string())));
    assert!(needs_bypass(Os::Linux, &None));
    assert!(needs_bypass(Os::Macos, &Some(String::new())));
}

fn names(set: &[&str], overlay: Option<&str>) -> ExitNames {
    let choice = DnsChoice {
        named: Some("resolvectl".to_string()),
        uci: false,
        dhcp_config: false,
        resolvectl: true,
    };
    ExitNames {
        dns_override: texts(set),
        overlay: overlay.map(|s| s.to_string()),
        backend: detect_for_iface(&choice, Some("fp0")),
        host: DnsHost {
            state: None,
            noresolv: None,
            servers: None,
        },
    }
}

#[test]
fn what_leaves_by_an_exit_is_undone() {
    let bypass = texts(&["203.0.113.7", "10.0.0.0/8"]);
    let names = names(&[], None);
    let routes = vec![
        "ip route replace 203.0.113.7/32 via 192.168.1.1 dev eth0",
        "ip route replace 10.0.0.0/8 via 192.168.1.1 dev eth0",
        "ip route replace 0.0.0.0/1 dev fp0",
        "ip route replace 128.0.0.0/1 dev fp0",
    ];
    let up = |dns: Option<String>| {
        exit_up(Os::Linux, "fp0", "192.168.1.1", "eth0", &bypass, &dns, &names.backend, &names.host)
    };
    assert_eq!(shown(&up(None)), routes);
    // The name server comes after the routes.
    let with_dns = shown(&up(Some("8.8.8.8".to_string())));
    assert_eq!(with_dns[..4], routes);
    let set = shown(&set_dns(Os::Linux, &names.backend, "fp0", "8.8.8.8", &names.host));
    assert!(!set.is_empty());
    assert_eq!(with_dns[4..], set);
    let down = shown(&exit_down(Os::Linux, "fp0", &bypass, &names.backend, &names.host));
    assert_eq!(
        down[..4],
        vec![
            "ip route del 0.0.0.0/1 dev fp0",
            "ip route del 128.0.0.0/1 dev fp0",
            "ip route del 203.0.113.7/32",
            "ip route del 10.0.0.0/8",
        ]
    );
    assert_eq!(down[4..], shown(&reset_dns(Os::Linux, &names.backend, "fp0", &names.host)));
}

fn member(key: u8, ips: &[&str]) -> PeerInfo {
    PeerInfo {
        pubkey: [key; 32],
        candidates: vec![SocketAddr::new(IpAddr::V4(key as u32), 1)],
        allowed_ips: texts(ips),
        overlay: Some(0x64480101),
    }
}

#[test]
fn the_first_member_that_takes_everything_is_the_exit() {
    let none = vec![member(1, &["10.0.0.1/32"])];
    let some = vec![member(1, &["10.0.0.1/32"]), member(2, &["10.0.0.2/32", "0.0.0.0/0"])];
    assert_eq!(exit_peer(&none), None);
    assert_eq!(exit_peer(&some), Some(1));
    assert_eq!(sync_exit(&some, false, false), ExitMove::Up);
    assert_eq!(sync_exit(&some, true, false), ExitMove::Stay);
    assert_eq!(sync_exit(&none, true, false), ExitMove::Down);
    assert_eq!(sync_exit(&none, false, false), ExitMove::Stay);
    // The platform decides where it made the tunnel.
    assert_eq!(sync_exit(&some, false, true), ExitMove::Stay);
    assert_eq!(sync_exit(&none, true, true), ExitMove::Stay);
}

#[test]
fn what_goes_around_the_tunnel_is_in_order_and_unique() {
    let c = bypass_candidates(
        "control.example",
        &texts(&["9.9.9.9", "1.1.1.1"]),
        &texts(&["9.9.9.9"]),
        &texts(&["10.0.0.0/8"]),
    );
    assert_eq!(c, texts(&["1.1.1.1", "10.0.0.0/8", "9.9.9.9", "control.example"]));
    let answers = vec![
        Some("1.1.1.1 via 192.168.1.1".to_string()),
        Some("10.0.0.0 dev eth0".to_string()),
        None,
        Some("x via y".to_string()),
    ];
    assert_eq!(
        bypass_targets(Os::Linux, &c, &answers),
        texts(&["1.1.1.1", "9.9.9.9", "control.example"])
    );
    assert_eq!(bypass_targets(Os::Macos, &c, &answers), c);
}

#[test]
fn an_exit_needs_a_gateway_and_an_interface() {
    let printed = Some("default via 192.168.1.1 dev eth0".to_string());
    let bare = Some("default dev eth0".to_string());
    let none = names(&[], None);
    assert!(apply_exit(Os::Linux, "fp0", &bare, &bare, vec![], &none).is_none());
    assert!(apply_exit(Os::Linux, "fp0", &None, &printed, vec![], &none).is_none());
    let (up, steps) = apply_exit(Os::Linux, "fp0", &printed, &printed, texts(&["1.1.1.1"]), &none).unwrap();
    assert_eq!(steps.len(), 3);
    assert_eq!(up.dev, "fp0");
    let undone = drop_exit(Os::Linux, &up, &none.backend, &none.host);
    assert!(undone.len() > 3);
    assert_eq!(shown(&undone)[2], "ip route del 1.1.1.1/32");
    let some = names(&["8.8.8.8"], Some("100.72.1.1"));
    let (_, steps) = apply_exit(Os::Linux, "fp0", &printed, &printed, vec![], &some).unwrap();
    let set = shown(&set_dns(Os::Linux, &some.backend, "fp0", "8.8.8.8", &some.host));
    assert_eq!(shown(&steps)[2..], set);
    assert_eq!(exit_dns(&texts(&["8.8.8.8"]), &Some("100.72.1.1".to_string())), Some("8.8.8.8".to_string()));
    assert_eq!(exit_dns(&vec![], &Some("100.72.1.1".to_string())), Some("100.72.1.1".to_string()));
    assert_eq!(exit_dns(&vec![], &None), None);
}

fn fw_host(v4: &str, v6: &str, state: Option<&str>) -> FwHost {
    FwHost {
        v4: Some(v4.to_string()),
        v6: Some(v6.to_string()),
        state: state.map(|s| s.to_string()),
    }
}

const UNTOUCHED: Forwarding = Forwarding {
    touched: false,
    v4: false,
    v6: false,
};

#[test]
fn nftables_gets_a_table_of_its_own() {
    let mut fwd = UNTOUCHED;
    let up = shown(&Nft.up("eth0", "fp0", &mut fwd, &fw_host("1\n", "0\n", None)));
    assert_eq!(up.len(), 10);
    assert_eq!(
        up[0],
        "writenew /run/fluxpeer-firewall-forwarding.state \"v4=1\\nv6=0\\n\""
    );
    assert_eq!(up[1], "sysctl -w net.ipv4.ip_forward=1");
    assert_eq!(up[2], "sysctl -w net.ipv6.conf.all.forwarding=1");
    assert_eq!(up[3], "nft delete table inet fluxpeer");
    assert_eq!(up[7], "nft add rule inet fluxpeer postrouting oifname eth0 masquerade");
    assert_eq!(
        up[5],
        "nft add chain inet fluxpeer postrouting { type nat hook postrouting priority srcnat ; policy accept ; }"
    );
    let down = shown(&Nft.down("eth0", "fp0", &fwd, &fw_host("1", "1", None)));
    assert_eq!(
        down,
        vec![
            "nft delete table inet fluxpeer",
            "sysctl -w net.ipv6.conf.all.forwarding=0",
            "remove /run/fluxpeer-firewall-forwarding.state",
        ]
    );
}

#[test]
fn a_new_process_goes_by_the_file() {
    let down = Nft.down("eth0", "fp0", &UNTOUCHED, &fw_host("1", "1", Some("v4=0\nv6=1\n")));
    assert_eq!(shown(&down)[1], "sysctl -w net.ipv4.ip_forward=0");
    assert_eq!(shown(&down).len(), 3);
    let down = Nft.down("eth0", "fp0", &UNTOUCHED, &fw_host("1", "1", Some("v4=0\n")));
    assert_eq!(shown(&down).len(), 1);
}

#[test]
fn iptables_rules_come_and_go() {
    let mut fwd = UNTOUCHED;
    let up = shown(&Iptables.up("eth0", "fp0", &mut fwd, &fw_host("0", "0", None)));
    assert_eq!(up.len(), 9);
    assert_eq!(
        up[3],
        "iptables -t nat -C POSTROUTING -o eth0 -j MASQUERADE || iptables -t nat -A POSTROUTING -o eth0 -j MASQUERADE"
    );
    assert_eq!(
        up[8],
        "ip6tables -C FORWARD -o fp0 -j ACCEPT || ip6tables -I FORWARD -o fp0 -j ACCEPT"
    );
    let down = shown(&Iptables.down("eth0", "fp0", &fwd, &fw_host("1", "1", None)));
    assert_eq!(down[0], "iptables -t nat -D POSTROUTING -o eth0 -j MASQUERADE x256");
    assert_eq!(down.len(), 9);
    let on = shown(&Iptables.killswitch_on("eth0", "fp0"));
    assert_eq!(
        on[0],
        "iptables -C FORWARD -o eth0 ! -i fp0 -j DROP || iptables -A FORWARD -o eth0 ! -i fp0 -j DROP"
    );
    let off = shown(&Iptables.killswitch_off("eth0", "fp0"));
    assert_eq!(off[1], "ip6tables -D FORWARD -o eth0 ! -i fp0 -j DROP x256");
    assert!(Noop.up("eth0", "fp0", &mut fwd, &fw_host("0", "0", None)).is_empty());
    assert!(Noop.killswitch_on("eth0", "fp0").is_empty());
}

#[test]
fn the_killswitch_of_nftables_deletes_its_rules_by_handle() {
    let on = shown(&Nft.killswitch_on("eth0", "fp0"));
    assert_eq!(on.len(), 6);
    assert_eq!(
        on[2],
        "nft list chain inet fluxpeer forward has iifname+fp0+accept || nft add rule inet fluxpeer forward iifname fp0 accept"
    );
    assert_eq!(on[5], "nft add rule inet fluxpeer forward oifname eth0 iifname != fp0 drop");
    let printed = Some(
        "table inet fluxpeer {\n  iifname \"fp0\" accept # handle 3\n  oifname \"eth0\" iifname != \"fp0\" drop # handle 9\n}\n"
            .to_string(),
    );
    assert_eq!(
        shown(&nft_killswitch_delete(&printed, "eth0", "fp0")),
        vec!["nft delete rule inet fluxpeer forward handle 9"]
    );
    assert!(nft_killswitch_delete(&None, "eth0", "fp0").is_empty());
    assert!(nft_forward_has(&printed, &texts(&["iifname", "fp0", "accept"])));
    assert!(!nft_forward_has(&printed, &texts(&["oifname", "fp0", "accept"])));
    assert!(!nft_forward_has(&None, &vec![]));
}

#[test]
fn filters_are_picked_by_name_or_by_what_there_is() {
    let named = |s: &str| Some(s.to_string());
    assert_eq!(firewall::detect(&named("iptables"), true, true).name(), "iptables");
    assert_eq!(firewall::detect(&named("nft"), false, true).name(), "nft");
    assert_eq!(firewall::detect(&named("pf"), true, true).name(), "nft");
    assert_eq!(firewall::detect(&None, false, true).name(), "iptables");
    assert_eq!(firewall::detect(&None, false, false).name(), "none");
}

#[test]
fn gateways_differ_by_system() {
    let fw = FwBackend::Nft(Nft);
    let host = fw_host("0", "0", None);
    let mut gw = Gateway {
        fwd: UNTOUCHED,
        pf_ours: false,
    };
    assert_eq!(exit_gateway_up(Os::Linux, &fw, "eth0", "fp0", "100.72.0.0/24", &mut gw, &host).len(), 10);
    assert!(gw.fwd.touched);
    let win = shown(&exit_gateway_up(Os::Windows, &fw, "e", "fp0", "100.72.0.0/24", &mut gw, &host));
    assert_eq!(win.len(), 5);
    assert_eq!(
        win[4],
        "powershell -NoProfile -Command New-NetNat -Name fluxpeer-exit -InternalIPInterfaceAddressPrefix '100.72.0.0/24' -ErrorAction SilentlyContinue"
    );
    let mac = shown(&exit_gateway_up(Os::Macos, &fw, "en0", "utun3", "100.72.0.0/24", &mut gw, &host));
    assert_eq!(
        mac[1],
        "write /etc/pf.anchors/fluxpeer-exit \"nat on en0 from 100.72.0.0/24 to any -> (en0)\\n\""
    );
    assert!(exit_gateway_up(Os::Other, &fw, "e", "t", "n", &mut gw, &host).is_empty());
    // The filter was off: it goes off again.
    assert!(pf_load(false, &None, &mut gw).is_empty());
    assert!(!gw.pf_ours);
    assert_eq!(pf_load(true, &Some("Status: Disabled".to_string()), &mut gw).len(), 2);
    assert!(gw.pf_ours);
    let down = shown(&exit_gateway_down(Os::Macos, &fw, "en0", "utun3", &mut gw, &host));
    assert_eq!(down.last().unwrap(), "pfctl -d");
    assert!(!gw.pf_ours);
    // It was on: it stays on.
    pf_load(true, &Some("Status: Enabled for 3 days".to_string()), &mut gw);
    assert_eq!(exit_gateway_down(Os::Macos, &fw, "en0", "utun3", &mut gw, &host).len(), 3);
    assert_eq!(exit_gateway_down(Os::Windows, &fw, "e", "t", &mut gw, &host).len(), 1);
}

fn dns_host(state: Option<&str>, noresolv: Option<&str>, servers: Option<&str>) -> DnsHost {
    DnsHost {
        state: state.map(|s| s.to_string()),
        noresolv: noresolv.map(|s| s.to_string()),
        servers: servers.map(|s| s.to_string()),
    }
}

#[test]
fn openwrt_gets_its_options_back() {
    let set = shown(&OpenWrtDnsmasq.set("100.72.1.1", &dns_host(None, Some("1\n"), Some("8.8.8.8\n"))));
    assert_eq!(
        set,
        vec![
            "write /run/fluxpeer-dns.state \"dns=100.72.1.1\\nhad_noresolv=1\\nnoresolv=1\\n\"",
            "uci set dhcp.@dnsmasq[0].noresolv=1",
            "uci add_list dhcp.@dnsmasq[0].server=100.72.1.1",
            "uci commit dhcp",
            "/etc/init.d/dnsmasq restart",
        ]
    );
    let state = "dns=100.72.1.1\nhad_noresolv=1\nnoresolv=1\n";
    assert_eq!(
        shown(&OpenWrtDnsmasq.clear(&dns_host(Some(state), None, None))),
        vec![
            "uci del_list dhcp.@dnsmasq[0].server=100.72.1.1",
            "uci set dhcp.@dnsmasq[0].noresolv=1",
            "uci commit dhcp",
            "/etc/init.d/dnsmasq restart",
            "remove /run/fluxpeer-dns.state",
        ]
    );
    // Set once more: what was there before the first time is still remembered.
    let again = shown(&OpenWrtDnsmasq.set("9.9.9.9", &dns_host(Some("dns=1.1.1.1\nhad_noresolv=0\n"), Some("1"), Some("9.9.9.9 1.1.1.1"))));
    assert_eq!(
        again[0],
        "write /run/fluxpeer-dns.state \"dns=9.9.9.9\\nhad_noresolv=0\\n\""
    );
    assert_eq!(again.len(), 4);
    let clear = shown(&OpenWrtDnsmasq.clear(&dns_host(Some("dns=9.9.9.9\nhad_noresolv=0\n"), None, None)));
    assert_eq!(clear[1], "uci delete dhcp.@dnsmasq[0].noresolv");
    assert_eq!(shown(&OpenWrtDnsmasq.clear(&dns_host(None, None, None))).len(), 3);
}

#[test]
fn other_resolvers_are_told_in_their_way() {
    let host = dns_host(None, None, None);
    let r = Resolvectl::new(Some("fp1"));
    assert_eq!(
        shown(&r.set("1.1.1.1", &host)),
        vec!["resolvectl dns fp1 1.1.1.1 && resolvectl domain fp1 ~. || write /etc/resolv.conf \"# fluxpeer exit-node\\nnameserver 1.1.1.1\\n\""]
    );
    assert_eq!(shown(&Resolvectl::new(None).clear(&host)), vec!["resolvectl revert fluxpeer"]);
    assert_eq!(
        shown(&ResolvConf.set("1.1.1.1", &host)),
        vec!["write /etc/resolv.conf \"# fluxpeer exit-node\\nnameserver 1.1.1.1\\n\""]
    );
    assert!(ResolvConf.clear(&host).is_empty());
    let choice = |named: Option<&str>, uci: bool, dhcp: bool, ctl: bool| DnsChoice {
        named: named.map(|s| s.to_string()),
        uci,
        dhcp_config: dhcp,
        resolvectl: ctl,
    };
    assert_eq!(detect(&choice(None, true, true, true)).name(), "openwrt-dnsmasq");
    assert_eq!(detect(&choice(None, true, false, true)).name(), "resolvectl");
    assert_eq!(detect(&choice(None, false, true, false)).name(), "resolv");
    assert_eq!(detect(&choice(Some("uci"), false, false, false)).name(), "openwrt-dnsmasq");
    assert_eq!(detect(&choice(Some("resolvconf"), true, true, true)).name(), "resolv");
    assert_eq!(detect(&choice(Some("other"), true, true, true)).name(), "openwrt-dnsmasq");
    let b = detect_for_iface(&choice(Some("resolvectl"), false, false, false), Some("fp7"));
    assert_eq!(shown(&reset_dns(Os::Linux, &b, "fp7", &host)), vec!["resolvectl revert fp7"]);
    assert_eq!(
        shown(&set_dns(Os::Macos, &b, "utun3", "1.1.1.1", &host)),
        vec!["scutil < \"d.init\\nd.add ServerAddresses * 1.1.1.1\\nset State:/Network/Service/fluxpeer-utun3/DNS\\nquit\\n\""]
    );
    assert_eq!(
        shown(&reset_dns(Os::Windows, &b, "fp0", &host)),
        vec!["powershell -NoProfile -Command Set-DnsClientServerAddress -InterfaceAlias 'fp0' -ResetServerAddresses -ErrorAction SilentlyContinue"]
    );
}

#[test]
fn state_files_read_back() {
    let mut t = read_table("b=2\nnothing\na=1\nb=3=4\r\n");
    assert_eq!(get_value(&t, "b"), Some("3=4".to_string()));
    put_value(&mut t, "aa", "x");
    put_value(&mut t, "a", "");
    let text = write_table(&t);
    assert_eq!(text, "a=\naa=x\nb=3=4\n");
    assert_eq!(read_table(&text), t);
    assert_eq!(get_value(&t, "c"), None);
    assert_eq!(sorted_texts(&texts(&["b", "a", "b", "ab"])), texts(&["a", "ab", "b"]));
}

#[test]
fn workers_are_as_many_as_asked_for_and_useful() {
    let s = |t: &str| Some(t.to_string());
    assert_eq!(worker_count(&None, Some(8), 100), 7);
    assert_eq!(worker_count(&None, Some(1), 100), 1);
    assert_eq!(worker_count(&None, None, 100), 1);
    assert_eq!(worker_count(&s("4"), Some(8), 100), 4);
    assert_eq!(worker_count(&s("0"), Some(8), 100), 1);
    assert_eq!(worker_count(&s("x"), Some(8), 3), 3);
    assert_eq!(worker_count(&s("99999999999999999999999"), Some(3), 9), 2);
    assert_eq!(worker_count(&None, Some(8), 0), 1);
}

#[test]
fn own_settings_go_before_the_networks() {
    assert_eq!(effective_mtu(Some(1280), Some(1400)), Some(1280));
    assert_eq!(effective_mtu(None, Some(1400)), Some(1400));
    assert_eq!(effective_dns(&vec![], &texts(&["1.1.1.1"])), texts(&["1.1.1.1"]));
    assert_eq!(effective_dns(&texts(&["9.9.9.9"]), &texts(&["1.1.1.1"])), texts(&["9.9.9.9"]));
    let seen = Some("203.0.113.5:41820".to_string());
    assert_eq!(
        advertise(&vec![], seen.clone(), Some(0xc0a80102), 41820),
        texts(&["203.0.113.5:41820", "192.168.1.2:41820"])
    );
    assert_eq!(advertise(&texts(&["a:1"]), seen, Some(1), 2), texts(&["a:1"]));
}

#[test]
fn the_whole_network_goes_into_the_tunnel() {
    assert_eq!(overlay_network(0x64481005, 24), "100.72.16.0/24");
    assert_eq!(overlay_network(0x64481005, 0), "0.0.0.0/0");
    let peers = vec![member(1, &["10.0.0.1/32", "0.0.0.0/0"]), member(2, &["10.0.0.2/32"])];
    assert_eq!(
        shown(&host_routes(Os::Linux, &peers, 0x64481005, 24, "fp0")),
        vec![
            "ip route replace 10.0.0.1/32 dev fp0",
            "ip route replace 10.0.0.2/32 dev fp0",
            "ip route replace 100.72.16.0/24 dev fp0",
        ]
    );
    assert_eq!(host_routes(Os::Linux, &vec![], 0x64481005, 0, "fp0").len(), 0);
    assert_eq!(local_address(IpAddr::V4(0x0a000001)), Some(0x0a000001));
    assert_eq!(local_address(IpAddr::V4(0x7fffffff)), None);
    assert_eq!(local_address(IpAddr::V4(0x80000000)), Some(0x80000000));
    assert_eq!(local_address(IpAddr::V6(1)), None);
    let own = set_up(Os::Linux, false, &vec![], &None, &peers, 0x64481005, 24, "fp0");
    assert_eq!(shown(&own), shown(&host_routes(Os::Linux, &peers, 0x64481005, 24, "fp0")));
    // A node on a tunnel that the platform made leaves the host alone.
    let yes = Some("1".to_string());
    assert!(set_up(Os::Linux, true, &texts(&["1.1.1.1"]), &yes, &peers, 0x64481005, 24, "fp0").is_empty());
    let add = Action::RouteAdd("10.9.0.0/16".to_string());
    assert_eq!(shown(&route_change(Os::Linux, false, &add, "fp0")), vec!["ip route replace 10.9.0.0/16 dev fp0"]);
    assert!(route_change(Os::Linux, true, &add, "fp0").is_empty());
    let del = Action::RouteDel("10.9.0.0/16".to_string());
    assert_eq!(shown(&route_change(Os::Linux, false, &del, "fp0")), vec!["ip route del 10.9.0.0/16 dev fp0"]);
    assert!(route_change(Os::Linux, true, &del, "fp0").is_empty());
}

#[test]
fn a_node_dials_the_members_with_larger_keys() {
    let peers = vec![member(1, &[]), member(3, &[]), member(9, &[])];
    let dialed = dial_targets(&[2; 32], &peers);
    assert_eq!(dialed.len(), 2);
    assert_eq!(dialed[0].0, [3; 32]);
    assert_eq!(dialed[1].0, [9; 32]);
}

#[test]
fn name_servers_are_set_only_where_asked() {
    let servers = texts(&["1.1.1.1", "9.9.9.9"]);
    let yes = Some("TRUE".to_string());
    assert!(apply_dns(Os::Linux, &servers, &None, "fp0").is_empty());
    assert!(apply_dns(Os::Linux, &vec![], &yes, "fp0").is_empty());
    assert_eq!(
        shown(&apply_dns(Os::Linux, &servers, &yes, "fp0")),
        vec!["write /etc/resolv.conf \"# managed by fluxpeer\\nnameserver 1.1.1.1\\nnameserver 9.9.9.9\\n\""]
    );
    assert_eq!(
        shown(&apply_dns(Os::Windows, &servers, &Some("1".to_string()), "fp0")),
        vec!["powershell -NoProfile -Command Set-DnsClientServerAddress -InterfaceAlias 'fp0' -ServerAddresses '1.1.1.1','9.9.9.9' -ErrorAction SilentlyContinue"]
    );
}
