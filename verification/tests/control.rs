use fluxpeer::anytls::config::AnytlsConfig;
use fluxpeer::assoc::Assoc;
use fluxpeer::digest::{hex32, parse_hex32};
use fluxpeer::ipv4::{
    ip_in_cidr, ipv4_to_text, netmask_v4, network_of, parse_cidr, parse_ipv4, parse_number, parse_u8,
};
use fluxpeer::json::{Json, Number};
use fluxpeer::mesh::disco::Disco;
use fluxpeer::net::{IpAddr, SocketAddr};
use fluxpeer::node::control::{
    check_keys, config_changed, config_epoch, parse_peers, parse_relays, parse_settings, stun_answer,
    with_addresses, Reply, ResolveStep, Resolving,
};
use fluxpeer::node::relay::{
    effective_stun, relay_payload_len, relay_targets, DialPlan, RelaySettings, RelayTarget,
};
use fluxpeer::wire::{get_be32, get_be64, le_u32, put_be32};
use fluxpeer::words::{
    contains, equal_ignoring_case, split_lines, split_words, strip_prefix, trim_end_char, trim_text, url_host,
};

fn text(s: &str) -> Json {
    Json::Text(s.to_string())
}

fn number(n: u64) -> Json {
    Json::Number(Number::Unsigned(n))
}

fn list(v: Vec<Json>) -> Json {
    Json::Array(v)
}

fn object(fields: Vec<(&str, Json)>) -> Json {
    Json::Object(fields.into_iter().map(|(k, v)| (k.to_string(), v)).collect())
}

fn addr(n: u32) -> SocketAddr {
    SocketAddr::new(IpAddr::V4(n), 1)
}

#[test]
fn settings_come_from_the_network() {
    let conf = object(vec![
        ("mtu", number(1280)),
        ("dns", list(vec![text("1.1.1.1"), number(5), text("9.9.9.9")])),
    ]);
    assert_eq!(
        parse_settings(&conf),
        (Some(1280), vec!["1.1.1.1".to_string(), "9.9.9.9".to_string()])
    );
    assert_eq!(parse_settings(&Json::Null), (None, vec![]));
}

#[test]
fn relays_come_from_the_network() {
    let conf = object(vec![(
        "relays",
        list(vec![
            object(vec![("url", text("1.2.3.4:443")), ("anytls", Json::Bool(true)), ("id", text("n"))]),
            object(vec![("anytls", Json::Bool(true))]),
            object(vec![("url", text("5.6.7.8:3478")), ("stun_url", text("5.6.7.8:3479"))]),
        ]),
    )]);
    let r = parse_relays(&conf);
    assert_eq!(r.len(), 2);
    assert_eq!(r[0].url, "1.2.3.4:443");
    assert!(r[0].anytls);
    assert_eq!(r[0].node_id, "n");
    assert!(!r[1].anytls);
    assert_eq!(r[1].stun, Some("5.6.7.8:3479".to_string()));
}

#[test]
fn peers_come_from_the_network() {
    let key = "ab".repeat(32);
    let conf = object(vec![(
        "peers",
        list(vec![
            object(vec![
                ("wg_public_key", text(&key)),
                ("endpoints", list(vec![text("1.2.3.4:5"), text("bad")])),
                ("allowed_ips", list(vec![text("100.72.1.2/32")])),
            ]),
            object(vec![("name", text("without a key"))]),
        ]),
    )]);
    assert!(check_keys(&conf));
    let mut p = parse_peers(&conf);
    assert_eq!(p.len(), 1);
    assert_eq!(p[0].pubkey, [0xab; 32]);
    assert_eq!(p[0].allowed_ips, vec!["100.72.1.2/32"]);
    let info = with_addresses(p.remove(0), &vec![Some(addr(7)), None]);
    assert_eq!(info.candidates, vec![addr(7)]);
    let bad = object(vec![("peers", list(vec![object(vec![("wg_public_key", text("zz"))])]))]);
    assert!(!check_keys(&bad));
}

#[test]
fn only_a_new_epoch_is_a_change() {
    let conf = |n: u64| object(vec![("config_epoch", number(n))]);
    assert_eq!(config_epoch(&conf(7)), 7);
    assert_eq!(config_epoch(&Json::Null), 0);
    let mut last = 7;
    assert!(!config_changed(&conf(7), &mut last));
    assert!(config_changed(&conf(8), &mut last));
    assert_eq!(last, 8);
    assert!(!config_changed(&conf(8), &mut last));
}

#[test]
fn an_address_is_asked_for_until_it_comes() {
    let mut r = Resolving::new();
    let mut steps = 0;
    loop {
        match r.step(&Reply::Failed("down".to_string())) {
            ResolveStep::Rest(ms) => assert!(ms == 200 || ms == 500),
            ResolveStep::GiveUp(_, why) => {
                assert!(why.contains("down"));
                break;
            }
            ResolveStep::Done(_) => panic!("no address"),
        }
        steps += 1;
        assert!(steps < 15);
    }
    assert_eq!(steps, 14);
    let mut r = Resolving::new();
    r.step(&Reply::Config(Json::Null));
    let conf = object(vec![("address_v4", text("100.72.1.9"))]);
    assert!(matches!(r.step(&Reply::Config(conf)), ResolveStep::Done(0x64480109)));
}

#[test]
fn an_answer_has_to_come_from_where_it_was_asked() {
    let pong = |id: u8| {
        Some(Disco::Pong {
            tx_id: [id; 12],
            observed: addr(9),
        })
    };
    assert_eq!(stun_answer(addr(1), addr(1), &[5; 12], &pong(5)), Some(addr(9)));
    assert_eq!(stun_answer(addr(1), addr(2), &[5; 12], &pong(5)), None);
    assert_eq!(stun_answer(addr(1), addr(1), &[5; 12], &pong(6)), None);
    assert_eq!(stun_answer(addr(1), addr(1), &[5; 12], &None), None);
}

#[test]
fn a_relay_set_by_hand_goes_before_the_directory() {
    let conf = object(vec![(
        "relays",
        list(vec![
            object(vec![("url", text("a")), ("id", text("n1"))]),
            object(vec![("url", text("b")), ("id", text("n2")), ("anytls", Json::Bool(true))]),
        ]),
    )]);
    let dir = parse_relays(&conf);
    let mut s = RelaySettings {
        relay: None,
        anytls: false,
        bond: true,
        bond_links: Some(4),
        node_id: None,
    };
    let t = relay_targets(&s, &dir, &vec![None, Some(addr(2))]);
    assert_eq!(t.len(), 1);
    assert_eq!((t[0].addr, t[0].anytls, t[0].bond), (addr(2), true, true));
    assert_eq!(t[0].node_id, "n2");
    s.relay = Some(addr(9));
    let t = relay_targets(&s, &dir, &vec![None, Some(addr(2))]);
    assert_eq!(t.len(), 1);
    assert_eq!(t[0].addr, addr(9));
    assert_eq!(t[0].node_id, "fluxpeer-relay");
    assert_eq!(effective_stun(None, Some(addr(3))), Some(addr(3)));
    assert_eq!(effective_stun(Some(addr(4)), Some(addr(3))), Some(addr(4)));
}

#[test]
fn relays_are_dialed_in_three_ways() {
    let mut t = RelayTarget {
        addr: addr(1),
        anytls: true,
        bond: true,
        bond_links: Some(5),
        node_id: "n".to_string(),
    };
    match t.dial_plan() {
        DialPlan::Anytls(c) => {
            assert_eq!(c.bond_connections, 5);
            assert_eq!(c.password, AnytlsConfig::derive_password("n"));
        }
        other => panic!("{:?}", other),
    }
    assert_eq!((t.dial_timeout_secs(), t.transport_label()), (12, "anytls/443"));
    t.anytls = false;
    assert!(matches!(t.dial_plan(), DialPlan::Bond(Some(c)) if c.bond_connections == 5));
    t.bond_links = None;
    assert!(matches!(t.dial_plan(), DialPlan::Bond(None)));
    assert_eq!(t.transport_label(), "tcp-bond");
    t.bond = false;
    assert!(matches!(t.dial_plan(), DialPlan::Plain));
    assert_eq!((t.dial_timeout_secs(), t.transport_label()), (5, "tcp"));
    assert_eq!(relay_payload_len(&[9, 0, 0, 1, 2]), 258);
}

#[test]
fn addresses_and_networks_are_read() {
    assert_eq!(parse_ipv4("100.72.1.9"), Some(0x64480109));
    for bad in ["1.2.3", "1.2.3.4.5", "256.1.1.1", "01.2.3.4", "1.2.3.", " 1.2.3.4", "a.b.c.d", ""] {
        assert_eq!(parse_ipv4(bad), None, "{}", bad);
    }
    assert_eq!(ipv4_to_text(0x0a0000ff), "10.0.0.255");
    assert_eq!(parse_u8("+7"), Some(7));
    assert_eq!(parse_u8("256"), None);
    assert_eq!(parse_u8("-1"), None);
    assert_eq!(parse_number("4294967296", 4294967295), None);
    assert_eq!(parse_number("00042", 100), Some(42));
    assert_eq!(parse_cidr("10.0.0.0/8"), Some((0x0a000000, 8)));
    assert!(ip_in_cidr(0x08080808, "0.0.0.0/0"));
    assert!(ip_in_cidr(0x0a010203, "10.1.0.0/16"));
    assert!(!ip_in_cidr(0x0a020203, "10.1.0.0/16"));
    assert!(ip_in_cidr(0x0a020203, "10.2.2.3"));
    assert!(!ip_in_cidr(0x0a020204, "10.2.2.3/nonsense"));
    assert!(!ip_in_cidr(1, "nonsense/8"));
    assert_eq!(netmask_v4(24), 0xffffff00);
    assert_eq!(netmask_v4(40), 0xffffffff);
    assert_eq!(network_of(0x64481005, 20), 0x64481000);
}

#[test]
fn keys_are_hexadecimal() {
    let key = "00ff".repeat(16);
    assert_eq!(hex32(&key)[..2], [0, 255]);
    assert_eq!(parse_hex32(&key), Some(hex32(&key)));
    assert_eq!(parse_hex32(&key.to_uppercase()), Some(hex32(&key)));
    assert_eq!(parse_hex32("00ff"), None);
    assert_eq!(parse_hex32(&"zz".repeat(32)), None);
}

#[test]
fn texts_are_taken_apart() {
    assert_eq!(split_words(" a\tbc  d\n"), vec!["a", "bc", "d"]);
    assert_eq!(split_lines("a\r\nb\n\nc"), vec!["a", "b", "", "c"]);
    assert!(split_lines("").is_empty());
    assert_eq!(trim_text("\u{3000} x \n"), "x");
    assert_eq!(strip_prefix("abc", "ab"), Some("c".to_string()));
    assert_eq!(strip_prefix("abc", "b"), None);
    assert!(contains("hello", "ell") && contains("x", "") && !contains("hello", "elo"));
    assert_eq!(trim_end_char("a//", '/'), "a");
    assert!(equal_ignoring_case("TrUe", "true") && !equal_ignoring_case("\u{c4}", "\u{e4}"));
    assert_eq!(url_host("http://control.example:8090/x"), "control.example");
    assert_eq!(url_host("https://c/x"), "c");
    assert_eq!(url_host("c:1"), "c");
}

#[test]
fn numbers_are_laid_out_in_bytes() {
    let mut v = vec![];
    put_be32(&mut v, 0x01020304);
    assert_eq!(v, vec![1, 2, 3, 4]);
    assert_eq!(get_be32(&v, 0), 0x01020304);
    assert_eq!(le_u32(&v, 0), Some(0x04030201));
    assert_eq!(le_u32(&v, 1), None);
    assert_eq!(get_be64(&[0, 0, 0, 1, 0, 0, 0, 2]), 0x1_0000_0002);
}

#[test]
fn a_map_keeps_one_value_for_each_key() {
    let mut m: Assoc<String, u32> = Assoc::new();
    m.insert("a".to_string(), 1);
    m.insert("b".to_string(), 2);
    m.insert("a".to_string(), 3);
    assert_eq!(m.get(&"a".to_string()), Some(&3));
    assert_eq!(m.entries.len(), 2);
    assert_eq!(m.remove(&"a".to_string()), Some(3));
    assert!(!m.contains_key(&"a".to_string()));
    assert_eq!(m.remove(&"a".to_string()), None);
}

#[test]
fn documents_are_read_and_changed() {
    let mut j = object(vec![("n", number(5)), ("m", Json::Number(Number::Negative(-5)))]);
    assert_eq!(j.get_u64("n"), Some(5));
    assert_eq!(j.get_u64("m"), None);
    assert_eq!(j.get_i64("m"), Some(-5));
    j.put("n", text("x"));
    j.put("new", Json::Bool(true));
    assert_eq!(j.str_at("n"), Some("x"));
    assert_eq!(j.get_bool("new"), Some(true));
    assert_eq!(j.copy().str_at("n"), Some("x"));
    let mut nothing = Json::Null;
    nothing.put("a", Json::Null);
    assert!(nothing.get("a").is_some());
    assert!(Json::Bool(true).get("a").is_none());
}
