use fluxpeer::assoc::Assoc;
use fluxpeer::json::{Json, Number};
use fluxpeer::mesh::status::PeerStat;
use fluxpeer::net::{IpAddr, SocketAddr};
use fluxpeer::node::daemon::{
    admin_api_allowed, config_reply, done_reply, edit_settings, ensure_token, files_with, handle, handle_line, iface_of,
    iface_reply, import_config, leave_reply, link_del, log_reply, network_entry, redact_config, set_exit,
    set_exit_all, shutdown_reply, strip_ansi, tail, token_from, unknown_iface_reply, Ask, ExitStop, Token,
};
use fluxpeer::node::host::Os;
use fluxpeer::node::join::{
    assign_slot, config_dir, decode_token, default_name, fresh_key, key_from, membership, token_bytes, token_of,
    JoinError,
};
use fluxpeer::node::relay::{
    on_relay_io, RelayDo, RelayEvent, RelayFront, RelayIo, RelayNext, RelayReader, RelaySupervisor, RelayTake,
};
use fluxpeer::node::show::{ago_at, describe, describe_text, row_line, row_of, sort_rows, Line};
use fluxpeer::node::statusd::{
    asks_uapi, json_status, report, snapshot, socket_name, status_dir, traffic, wg_uapi_get, NodeStatus,
};
use fluxpeer::parse::{parse_json, parse_text};

fn text(s: &str) -> Json {
    Json::Text(s.to_string())
}

fn number(n: u64) -> Json {
    Json::Number(Number::Unsigned(n))
}

fn object(fields: Vec<(&str, Json)>) -> Json {
    Json::Object(fields.into_iter().map(|(k, v)| (k.to_string(), v)).collect())
}

/// A document as it is commonly written.
fn written(j: &Json) -> String {
    match j {
        Json::Null => "null".to_string(),
        Json::Bool(b) => b.to_string(),
        Json::Number(Number::Unsigned(n)) => n.to_string(),
        Json::Number(Number::Negative(n)) => n.to_string(),
        Json::Number(Number::Thousandths(n)) => format!("{}/1000", n),
        Json::Number(Number::Other(s)) => s.clone(),
        Json::Text(s) => format!("{:?}", s),
        Json::Array(v) => format!("[{}]", v.iter().map(written).collect::<Vec<_>>().join(",")),
        Json::Object(v) => format!(
            "{{{}}}",
            v.iter()
                .map(|(k, x)| format!("{:?}:{}", k, written(x)))
                .collect::<Vec<_>>()
                .join(",")
        ),
    }
}

#[test]
fn tokens_are_read() {
    // {"ctrl":"http://c:1/","code":"abc"}
    let bytes = b"{\"ctrl\":\"http://c:1/\",\"code\":\"abc\"}".to_vec();
    let blob = "eyJjdHJsIjoiaHR0cDovL2M6MS8iLCJjb2RlIjoiYWJjIn0";
    assert_eq!(token_bytes(&format!("fp://join/{}", blob)).unwrap(), bytes);
    assert_eq!(token_bytes(&format!("  {}==\n", blob)).unwrap(), bytes);
    let e = token_bytes("fp://join/a b").unwrap_err();
    assert!(e.message().starts_with("invalid join token (base64): "));
    // One digit alone, and bits that stand for nothing.
    assert!(token_bytes("abcde").is_err());
    assert!(token_bytes("ab").is_err());
    assert_eq!(token_bytes("aQ").unwrap(), vec![0x69]);
    assert_eq!(token_bytes("-_8").unwrap(), vec![0xfb, 0xff]);
}

#[test]
fn a_token_names_a_server_and_a_code() {
    let t = token_of(&object(vec![("ctrl", text("http://c:1//")), ("code", text("abc"))])).unwrap();
    assert_eq!((t.ctrl.as_str(), t.code.as_str()), ("http://c:1", "abc"));
    let e = token_of(&object(vec![("code", text("abc"))])).unwrap_err();
    assert_eq!(e.message(), "join token missing \"ctrl\"");
    let e = token_of(&object(vec![("ctrl", text("x")), ("code", text(""))])).unwrap_err();
    assert_eq!(e.message(), "join token missing \"code\"");
    assert!(token_of(&Json::Null).is_err());
    // The whole token: base64, a document, and what it names.
    let t = decode_token("fp://join/eyJjdHJsIjoiaHR0cDovL2M6MS8iLCJjb2RlIjoiYWJjIn0\n").unwrap();
    assert_eq!((t.ctrl.as_str(), t.code.as_str()), ("http://c:1", "abc"));
    assert!(matches!(decode_token("fp://join/a b"), Err(JoinError::Base64(_))));
    // `{"ctrl"` is no document, `[]` names nothing.
    let e = decode_token("eyJjdHJsIg").unwrap_err();
    assert!(matches!(e, JoinError::Json(_)));
    assert!(e.message().starts_with("invalid join token (json): "));
    assert!(matches!(decode_token("W10"), Err(JoinError::MissingCtrl)));
}

#[test]
fn documents_are_read_from_their_text() {
    let j = parse_json(b"{\"b\":[null,true,-5,7,1.5,\"x\"],\"a\":{}}").unwrap();
    assert_eq!(written(&j), "{\"a\":{},\"b\":[null,true,-5,7,1.5,\"x\"]}");
    assert!(parse_json(b"{").is_err());
    assert!(parse_json(&[0xff]).is_err());
    assert_eq!(written(&parse_text("18446744073709551615").unwrap()), "18446744073709551615");
    assert!(parse_text("").is_err());
}

#[test]
fn request_lines_are_read() {
    let (req, ask) = handle_line(" {\"auth\":\"secret\",\"cmd\":\"networks\"} \n", "secret", false);
    assert!(matches!(ask, Ask::Networks));
    assert_eq!(req.str_at("cmd"), Some("networks"));
    let (req, ask) = handle_line("no document\n", "secret", true);
    assert!(matches!(req, Json::Null));
    assert!(matches!(ask, Ask::Refused(_)));
}

#[test]
fn the_gateway_is_switched_in_every_network() {
    let one = "{\"tun_name\":\"fp0\",\"mtu\":1380}".to_string();
    let two = "{\"exit_node\":false}".to_string();
    let run = set_exit_all(&vec![one.clone(), two.clone()], true);
    assert!(run.stop.is_none());
    assert_eq!(run.written.len(), 2);
    assert_eq!(run.written[0].get_bool("exit_node"), Some(true));
    assert_eq!(run.written[0].get_u64("mtu"), Some(1380));
    assert_eq!(written(&run.written[1]), "{\"exit_node\":true}");
    // What is no object stops the rest.
    let run = set_exit_all(&vec![one.clone(), "[]".to_string(), two.clone()], true);
    assert_eq!(run.written.len(), 1);
    assert!(matches!(run.stop, Some(ExitStop::NotObject)));
    let run = set_exit_all(&vec!["{".to_string(), two], false);
    assert_eq!(run.written.len(), 0);
    assert!(matches!(run.stop, Some(ExitStop::NotJson(_))));
    assert!(set_exit_all(&vec![], true).stop.is_none());
}

#[test]
fn a_status_is_described_from_its_text() {
    let body = "{\"interface\":{\"name\":\"fp0\"},\"peers\":[]}";
    let lines = describe_text(body, 0).unwrap();
    assert!(matches!(&lines[0], Line::Text(s) if s == "interface: fp0"));
    assert!(describe_text("not json", 0).is_err());
}

#[test]
fn a_new_membership_gets_the_least_free_place() {
    let conf = |t: &str| object(vec![("tun_name", text(t))]);
    let s = assign_slot(&vec![]);
    assert_eq!((s.file.as_str(), s.tun.as_str(), s.port), ("fp0.json", "fp0", 41820));
    let s = assign_slot(&vec![conf("fp0"), conf("fp2"), conf("wg1"), conf("fpx"), Json::Null]);
    assert_eq!((s.tun.as_str(), s.port), ("fp1", 41821));
    let s = assign_slot(&vec![conf("fp1"), conf("fp0"), conf("fp+2")]);
    assert_eq!(s.tun, "fp3");
}

#[test]
fn a_membership_is_written_down() {
    let dev = object(vec![("id", text("d1")), ("auth_token", text("t"))]);
    let m = membership("aa", &dev, "http://c", 41820, "fp0").unwrap();
    assert_eq!(
        written(&m),
        "{\"private_key\":\"aa\",\"device_id\":\"d1\",\"control_server\":\"http://c\",\"auth_token\":\"t\",\"listen_port\":41820,\"tun_name\":\"fp0\",\"prefix_len\":24}"
    );
    let e = membership("aa", &object(vec![]), "http://c", 41820, "fp0").unwrap_err();
    assert_eq!(e.message(), "enroll response missing device id");
    assert_eq!(default_name(&Some(" box\n".to_string())), "box");
    assert_eq!(default_name(&Some(" \n".to_string())), "fp-node");
    assert_eq!(default_name(&None), "fp-node");
    assert_eq!(config_dir(Os::Linux, &None), "/etc/fluxpeer");
    assert_eq!(config_dir(Os::Windows, &Some("D:\\P".to_string())), "D:\\P\\fluxpeer");
    assert_eq!(config_dir(Os::Windows, &None), "C:\\ProgramData\\fluxpeer");
    assert_ne!(fresh_key().unwrap(), [0u8; 32]);
    let bytes: Vec<u8> = (0..32).collect();
    assert_eq!(key_from(Some(bytes.clone())).map(|k| k.to_vec()), Some(bytes));
    assert_eq!(key_from(None), None);
}

fn request(cmd: &str, more: Vec<(&str, Json)>) -> Json {
    let mut fields = vec![("auth", text("secret")), ("cmd", text(cmd))];
    fields.extend(more);
    object(fields)
}

fn refusal(a: Ask) -> String {
    match a {
        Ask::Refused(j) => written(&j),
        other => panic!("{:?}", other),
    }
}

#[test]
fn strangers_are_refused() {
    let no = "{\"error\":\"unauthorized\"}";
    assert_eq!(refusal(handle(&Json::Null, "secret", true)), no);
    assert_eq!(refusal(handle(&object(vec![("cmd", text("status"))]), "secret", true)), no);
    let wrong = object(vec![("auth", text("guess")), ("cmd", text("shutdown"))]);
    assert_eq!(refusal(handle(&wrong, "secret", true)), no);
}

#[test]
fn requests_are_understood() {
    let ask = |r: Json| handle(&r, "secret", true);
    assert!(matches!(ask(request("status", vec![])), Ask::Status));
    assert!(matches!(ask(request("networks", vec![])), Ask::Networks));
    assert!(matches!(ask(request("join", vec![("token", text("t"))])), Ask::Join(t) if t == "t"));
    assert_eq!(refusal(ask(request("join", vec![]))), "{\"error\":\"missing join token\"}");
    let fp0 = || vec![("iface", text("fp0"))];
    assert!(matches!(ask(request("up", fp0())), Ask::SetIface(i, true) if i == "fp0"));
    assert!(matches!(ask(request("down", fp0())), Ask::SetIface(_, false)));
    assert_eq!(refusal(ask(request("down", vec![]))), "{\"error\":\"missing iface\"}");
    assert!(matches!(ask(request("settings", fp0())), Ask::Settings(_)));
    assert_eq!(refusal(ask(request("settings", vec![]))), "{\"error\":\"missing iface\"}");
    assert!(matches!(ask(request("config", fp0())), Ask::GetConfig(_)));
    assert!(matches!(ask(request("get_config", vec![])), Ask::GetConfig(i) if i.is_empty()));
    assert!(matches!(ask(request("leave", fp0())), Ask::Leave(_)));
    assert!(matches!(ask(request("shutdown", vec![])), Ask::Shutdown));
    assert!(matches!(ask(request("logs", fp0())), Ask::Logs(_, 200)));
    let some = vec![("iface", text("fp0")), ("lines", number(5))];
    assert!(matches!(ask(request("logs", some)), Ask::Logs(_, 5)));
    assert_eq!(refusal(ask(request("dance", vec![]))), "{\"error\":\"unknown cmd: dance\"}");
    assert_eq!(refusal(ask(request("", vec![]))), "{\"error\":\"unknown cmd: \"}");
}

#[test]
fn some_requests_need_leave() {
    let cfg = || object(vec![("private_key", text("k"))]);
    let off = |r: Json| handle(&r, "secret", false);
    let no = "{\"error\":\"admin api disabled\"}";
    let both = || vec![("iface", text("fp0")), ("config", cfg())];
    assert_eq!(refusal(off(request("set-config", both()))), no);
    assert_eq!(refusal(off(request("import", both()))), no);
    assert_eq!(refusal(off(request("shutdown", vec![]))), no);
    let on = |r: Json| handle(&r, "secret", true);
    assert!(matches!(on(request("set_config", both())), Ask::SetConfig(i, _) if i == "fp0"));
    assert!(matches!(on(request("import", both())), Ask::Import(_)));
    let bad = vec![("iface", text("fp0")), ("config", object(vec![]))];
    assert_eq!(
        refusal(on(request("set-config", bad))),
        "{\"error\":\"invalid config (need an object with private_key, \u{2026})\"}"
    );
    assert_eq!(
        refusal(on(request("import", vec![]))),
        "{\"error\":\"not a fluxpeer node config (need private_key, device_id, control_server)\"}"
    );
    assert!(admin_api_allowed(&Some("1".to_string())));
    assert!(!admin_api_allowed(&Some("true".to_string())));
    assert!(!admin_api_allowed(&None));
}

#[test]
fn the_private_key_is_not_handed_out() {
    let cfg = object(vec![("private_key", text("k")), ("mtu", number(1280))]);
    assert_eq!(
        written(&config_reply("fp0", Some(cfg))),
        "{\"iface\":\"fp0\",\"config\":{\"private_key\":\"<redacted>\",\"mtu\":1280}}"
    );
    assert_eq!(written(&redact_config(Json::Bool(true))), "true");
    assert_eq!(written(&redact_config(object(vec![]))), "{\"private_key\":\"<redacted>\"}");
    assert_eq!(written(&config_reply("fp0", None)), "{\"error\":\"no config for iface\"}");
}

#[test]
fn settings_are_edited() {
    let mut cfg = object(vec![("private_key", text("k")), ("mtu", number(1400))]);
    let req = object(vec![
        ("mtu", number(1280)),
        ("dns", Json::Array(vec![text("1.1.1.1")])),
        ("endpoint", text("a:1")),
        ("exclude_routes", Json::Array(vec![])),
        ("exit_node", Json::Bool(true)),
        ("force_relay", text("yes")),
        ("relay_bond", Json::Bool(false)),
        ("private_key", text("stolen")),
    ]);
    edit_settings(&mut cfg, &req);
    assert_eq!(
        written(&cfg),
        "{\"private_key\":\"k\",\"mtu\":1280,\"dns\":[\"1.1.1.1\"],\"advertise\":[\"a:1\"],\"exclude_routes\":[],\"exit_node\":true,\"relay_bond\":false}"
    );
    edit_settings(&mut cfg, &object(vec![("endpoint", text("")), ("mtu", Json::Null)]));
    assert_eq!(cfg.array_at("advertise").unwrap().len(), 0);
    assert!(matches!(cfg.get("mtu"), Some(Json::Null)));
    let mut other = Json::Bool(true);
    edit_settings(&mut other, &object(vec![]));
    assert_eq!(written(&other), "true");
    assert!(set_exit(&mut cfg, false));
    assert_eq!(cfg.get_bool("exit_node"), Some(false));
    assert!(!set_exit(&mut other, true));
    let slot = assign_slot(&vec![]);
    let imported = import_config(object(vec![("tun_name", text("x"))]), &slot);
    assert_eq!(written(&imported), "{\"tun_name\":\"fp0\",\"listen_port\":41820}");
}

#[test]
fn answers_have_their_shape() {
    assert_eq!(written(&done_reply("fp0")), "{\"ok\":true,\"iface\":\"fp0\"}");
    assert_eq!(written(&iface_reply("fp0", true)), "{\"ok\":true,\"iface\":\"fp0\",\"up\":true}");
    assert_eq!(written(&leave_reply("fp0")), "{\"ok\":true,\"iface\":\"fp0\",\"left\":true}");
    assert_eq!(written(&shutdown_reply()), "{\"ok\":true,\"shutdown\":true}");
    assert_eq!(written(&unknown_iface_reply("fp9")), "{\"error\":\"no config for fp9\"}");
    let conf = object(vec![("tun_name", text("fp0")), ("exit_node", Json::Bool(true))]);
    assert_eq!(
        written(&network_entry(&conf, true)),
        "{\"iface\":\"fp0\",\"control_server\":\"\",\"up\":true,\"exit_node\":true,\"force_relay\":false,\"relay_anytls\":false,\"relay_bond\":false}"
    );
    assert_eq!(iface_of(&conf), Some("fp0".to_string()));
    assert_eq!(iface_of(&Json::Null), None);
    assert_eq!(link_del(Os::Linux, "fp0").len(), 1);
    assert_eq!(link_del(Os::Macos, "fp0").len(), 0);
}

#[test]
fn logs_end_without_colours() {
    assert_eq!(strip_ansi("\u{1b}[32mINFO\u{1b}[0m up"), "INFO up");
    assert_eq!(strip_ansi("a\u{1b}[12"), "a");
    assert_eq!(strip_ansi(""), "");
    assert_eq!(tail("one\ntwo\r\nthree\n", 2), "two\nthree");
    assert_eq!(tail("one\ntwo", 0), "two");
    assert_eq!(tail("one\ntwo", 9), "one\ntwo");
    let many: String = (0..3000).map(|i| format!("{}\n", i)).collect();
    assert_eq!(tail(&many, 100_000).lines().count(), 2000);
    assert_eq!(
        written(&log_reply("fp0", &Some("x\ny\n".to_string()), 1)),
        "{\"iface\":\"fp0\",\"log\":\"y\"}"
    );
    assert_eq!(written(&log_reply("fp0", &None, 1)), "{\"iface\":\"fp0\",\"log\":\"\"}");
}

#[test]
fn the_token_is_kept_or_made() {
    let kept = Some(" 0123456789abcdef\n".to_string());
    assert!(matches!(ensure_token(&kept), Token::Kept(t) if t == "0123456789abcdef"));
    let short = Some("0123456789abcde".to_string());
    assert!(matches!(ensure_token(&short), Token::Fresh(t) if t.len() == 48));
    assert!(matches!(token_from(&None, Some(vec![0xab; 24])), Token::Fresh(t) if t == "ab".repeat(24)));
    assert!(matches!(token_from(&None, None), Token::Unavailable));
    // Sixteen bytes, not sixteen characters.
    let wide = Some("\u{e4}".repeat(8));
    assert!(matches!(token_from(&wide, None), Token::Kept(_)));
}

#[test]
fn settings_files_are_found_by_their_names() {
    let names: Vec<String> = ["fp1.json", "fp0.json", "daemon.token", ".json", "x.json.bak", "a.b.json"]
        .iter()
        .map(|s| s.to_string())
        .collect();
    assert_eq!(files_with(&names, "json"), vec!["a.b.json", "fp0.json", "fp1.json"]);
}

fn status() -> Assoc<[u8; 32], PeerStat> {
    let mut reg = Assoc::new();
    let mut a = PeerStat::new(vec!["10.0.0.2/32".to_string()]);
    a.add_rx(10);
    a.add_tx(20);
    a.mark_handshake(1_000);
    a.rtt_us = 1_500;
    a.transport = 1;
    a.endpoint = Some(SocketAddr::new(IpAddr::V4(1), 2));
    reg.insert([2; 32], a);
    let mut b = PeerStat::new(vec![]);
    b.add_rx(1);
    reg.insert([3; 32], b);
    reg
}

#[test]
fn wg_reads_the_status() {
    let peers = snapshot(&status());
    assert_eq!(traffic(&peers), (11, 20));
    let endpoints = vec![Some("0.0.0.1:2".to_string()), None];
    let key2 = "02".repeat(32);
    let key3 = "03".repeat(32);
    assert_eq!(
        wg_uapi_get(&peers, &endpoints, "aa", 41820),
        format!(
            "private_key=aa\nlisten_port=41820\nfwmark=0\npublic_key={}\nendpoint=0.0.0.1:2\nallowed_ip=10.0.0.2/32\nlast_handshake_time_sec=1000\nlast_handshake_time_nsec=0\nrx_bytes=10\ntx_bytes=20\npersistent_keepalive_interval=0\npublic_key={}\nlast_handshake_time_sec=0\nlast_handshake_time_nsec=0\nrx_bytes=1\ntx_bytes=0\npersistent_keepalive_interval=0\nerrno=0\n\n",
            key2, key3
        )
    );
    assert!(asks_uapi(b"get=1\n\n"));
    assert!(!asks_uapi(b"get-json\n"));
    assert!(!asks_uapi(b"get"));
}

#[test]
fn the_status_is_a_document() {
    let peers = snapshot(&status());
    let endpoints = vec![Some("0.0.0.1:2".to_string()), None];
    let n = NodeStatus {
        iface: "fp0".to_string(),
        public_key: "pk".to_string(),
        listen_port: 41820,
        address: 0x64480101,
        control_server: "http://c".to_string(),
    };
    let j = json_status(&n, &peers, &endpoints);
    let w = written(&j);
    assert!(w.starts_with(
        "{\"interface\":{\"name\":\"fp0\",\"public_key\":\"pk\",\"listen_port\":41820,\"address\":\"100.72.1.1\",\"control_server\":\"http://c\",\"peers\":2},\"peers\":[{\"public_key\":\"0202"
    ));
    assert!(w.contains("\"transport\":\"udp-direct\",\"allowed_ips\":[\"10.0.0.2/32\"],\"last_handshake_unix\":1000,\"rtt_ms\":1500/1000,\"rx_bytes\":10,\"tx_bytes\":20}"));
    assert!(w.contains("\"endpoint\":null,\"transport\":\"\u{2014}\",\"allowed_ips\":[],\"last_handshake_unix\":0,\"rtt_ms\":null"));
    let r = written(&report(&peers));
    assert!(r.contains("\"rx_bytes\":10,\"tx_bytes\":20,\"transport\":\"udp-direct\",\"last_handshake_unix\":1000}"));
    // What was written is what is shown.
    let lines = describe(&j, 1_061);
    let texts: Vec<String> = lines
        .iter()
        .map(|l| match l {
            Line::Text(s) => s.clone(),
            Line::Transfer(rx, tx) => format!("{}/{}", rx, tx),
            Line::Rtt(n) => format!("{:?}", n),
        })
        .collect();
    assert_eq!(texts[0], "interface: fp0");
    assert_eq!(texts[2], "  listening port: 41820");
    assert_eq!(texts[3], "  address: 100.72.1.1");
    assert_eq!(texts[7], "  endpoint: 0.0.0.1:2  (udp-direct)");
    assert_eq!(texts[8], "  allowed ips: 10.0.0.2/32");
    assert_eq!(texts[9], "  latest handshake: 1 minute ago");
    assert_eq!(texts[10], "10/20");
    assert_eq!(texts[11], "Thousandths(1500)");
    assert_eq!(texts[14], "  endpoint: (none)  (\u{2014})");
    assert_eq!(texts[15], "  allowed ips: (none)");
    assert_eq!(texts[16], "  latest handshake: never");
    assert_eq!(describe(&Json::Null, 0).len(), 3);
}

#[test]
fn times_are_told_in_words() {
    assert_eq!(ago_at(0, 100), "never");
    assert_eq!(ago_at(99, 100), "1 second ago");
    assert_eq!(ago_at(100, 100), "0 seconds ago");
    assert_eq!(ago_at(200, 100), "0 seconds ago");
    assert_eq!(ago_at(1, 60), "59 seconds ago");
    assert_eq!(ago_at(1, 61), "1 minute ago");
    assert_eq!(ago_at(1, 3600), "59 minutes ago");
    assert_eq!(ago_at(1, 3601), "1 hour ago");
    assert_eq!(ago_at(1, 7201), "2 hours ago");
}

#[test]
fn networks_are_listed_in_order() {
    let conf = |t: &str, c: &str| object(vec![("tun_name", text(t)), ("control_server", text(c))]);
    let rows = sort_rows(vec![
        row_of(&conf("fp1", "b"), true),
        row_of(&Json::Null, false),
        row_of(&conf("fp1", "a"), false),
        row_of(&conf("fp0", "z"), true),
    ]);
    let lines: Vec<String> = rows.iter().map(row_line).collect();
    assert_eq!(
        lines,
        vec![
            "?      down   ?",
            "fp0    up     z",
            "fp1    down   a",
            "fp1    up     b",
        ]
    );
    assert_eq!(row_line(&row_of(&conf("longname", "c"), true)), "longname up     c");
}

#[test]
fn sockets_are_named_after_their_interface() {
    assert_eq!(status_dir(Os::Linux, true, ""), "/run/fluxpeer");
    assert_eq!(status_dir(Os::Macos, false, ""), "/tmp/fluxpeer");
    assert_eq!(status_dir(Os::Windows, false, "C:\\L"), "C:\\L\\fluxpeer");
    assert_eq!(socket_name(Os::Linux, "fp0"), "fp0.sock");
    assert_eq!(socket_name(Os::Windows, "fp0"), "fp0.port");
}

#[test]
fn relays_take_turns() {
    let mut s = RelaySupervisor::new();
    let turns: Vec<usize> = (0..5).map(|_| s.next_target(3)).collect();
    assert_eq!(turns, vec![0, 1, 2, 0, 1]);
    assert_eq!(RelaySupervisor::on_event(RelayEvent::Disconnected), RelayNext::FailOver);
    assert_eq!(RelaySupervisor::on_event(RelayEvent::NodeGone), RelayNext::Stop);
    assert_eq!(RelaySupervisor::on_event(RelayEvent::PacketIn), RelayNext::Keep);
}

#[test]
fn only_packets_are_for_the_node() {
    let mut r = RelayReader::new();
    r.receive(&[1, 2, 3]);
    r.receive(&[4, 5]);
    assert!(matches!(r.take(RelayFront::Other(2)), RelayTake::Skip));
    assert_eq!(r.buf, vec![3, 4, 5]);
    match r.take(RelayFront::Packet([7; 32], vec![9], 3)) {
        RelayTake::Deliver(src, payload) => assert_eq!((src, payload), ([7; 32], vec![9])),
        other => panic!("{:?}", other),
    }
    assert!(matches!(r.take(RelayFront::Nothing), RelayTake::Wait));
    assert!(r.buf.is_empty());
    assert_eq!(on_relay_io(RelayIo::Tick), RelayDo::Ping);
    assert_eq!(on_relay_io(RelayIo::Read(0)), RelayDo::End);
    assert_eq!(on_relay_io(RelayIo::Read(7)), RelayDo::Take);
    assert_eq!(on_relay_io(RelayIo::WriteFailed), RelayDo::End);
}
