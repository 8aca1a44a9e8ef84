use fluxpeer::assoc::Assoc;
use fluxpeer::mesh::disco::{disco_dgram, Disco};
use fluxpeer::mesh::events::{flushes_first, Inbound, InitPlan, RekeyReply, Told};
use fluxpeer::mesh::gso::{split_segments, Flush, GsoBatch, MAX_BATCH_BYTES};
use fluxpeer::mesh::index::{IndexOwner, IndexTable};
use fluxpeer::mesh::order::begins;
use fluxpeer::mesh::peer::{Effect, Ladder, Peer, Rung, Via, SECOND};
use fluxpeer::mesh::reconcile::{same_endpoints, Action, PeerInfo, Reconciler, Tables};
use fluxpeer::mesh::recv::{batch_disabled, sockaddr_to_socket, RawAddr, RecvBatch};
use fluxpeer::mesh::route::{classify, route_framed, route_tun, route_udp, Allowed, Datagram};
use fluxpeer::mesh::session::{packet_kind, Arrival, PacketKind};
use fluxpeer::mesh::status::{transport_name, PeerStat, T_RELAY, T_UDP_DIRECT};
use fluxpeer::mesh::stream::{
    stream_frame, DialAction, DialEvent, Dialer, FramePump, TickAction,
};
use fluxpeer::mesh::tick::Node;
use fluxpeer::mesh::worker::{TickAsk, Worker};
use fluxpeer::net::{IpAddr, SocketAddr};

fn addr(n: u32) -> SocketAddr {
    SocketAddr::new(IpAddr::V4(n), 41820)
}

fn node(force_relay: bool, relay_up: bool) -> Node {
    Node {
        own_pub: [1; 32],
        ladder: Ladder { force_relay, relay_up },
        ping: vec![0xaa],
    }
}

fn worker(force_relay: bool, relay_up: bool) -> Worker {
    Worker {
        peers: Vec::new(),
        index: IndexTable::new(3),
        node: node(force_relay, relay_up),
    }
}

fn arrival(via: Via, from: Option<SocketAddr>, now: u64) -> Arrival {
    Arrival {
        from,
        via,
        now,
        now_unix: 1_000,
    }
}

/// The first packet of a handshake whose session index is `idx`.
fn init(idx: u8) -> Vec<u8> {
    vec![1, 0, 0, 0, idx, 0, 0, 0]
}

/// A data packet for the session index `idx`.
fn data(idx: u8) -> Vec<u8> {
    vec![4, 0, 0, 0, idx, 0, 0, 0, 9]
}

fn is_udp(e: &Effect, to: SocketAddr) -> bool {
    matches!(e, Effect::Udp { to: t, .. } if *t == to)
}

#[test]
fn a_new_peer_is_pinged_and_greeted() {
    let mut w = worker(false, true);
    let mut owner = IndexOwner::new();
    let mut out = Vec::new();
    let known = w.add_peer([2; 32], vec![addr(1), addr(2)], vec!["10.0.0.2/32".to_string()], &mut out);
    assert!(known);
    assert_eq!(out.len(), 2);
    assert!(is_udp(&out[0], addr(1)) && is_udp(&out[1], addr(2)));
    assert!(!w.add_peer([2; 32], vec![], vec![], &mut out));
    assert_eq!(out.len(), 2);
    w.handshake_begun(&mut owner, 0, init(7), 5, &mut out);
    assert_eq!(owner.get(7), Some(3));
    assert_eq!(w.index.get(7), Some([2; 32]));
    assert!(is_udp(&out[2], addr(1)));
    assert_eq!(w.peers[0].init_packet, Some(init(7)));
    // Its answer and its data come by the index.
    assert_eq!(w.udp_target(&data(7)), Some(0));
    assert_eq!(w.udp_target(&data(8)), None);
}

#[test]
fn a_node_that_is_forced_to_the_relay_pings_nobody() {
    let mut w = worker(true, true);
    let mut owner = IndexOwner::new();
    let mut out = Vec::new();
    assert!(w.add_peer([2; 32], vec![addr(1)], vec![], &mut out));
    assert!(out.is_empty());
    assert_eq!(w.peers[0].choose_rung(w.node.ladder), Rung::Relay);
    w.handshake_begun(&mut owner, 0, init(7), 5, &mut out);
    assert!(matches!(&out[0], Effect::Relay { peer, .. } if *peer == [2; 32]));
}

#[test]
fn a_revoked_peer_is_forgotten() {
    let mut w = worker(false, true);
    let mut owner = IndexOwner::new();
    let mut out = Vec::new();
    w.add_peer([2; 32], vec![addr(1)], vec![], &mut out);
    w.handshake_begun(&mut owner, 0, init(7), 5, &mut out);
    assert!(w.remove_peer(&mut owner, &[2; 32]));
    assert!(!w.remove_peer(&mut owner, &[2; 32]));
    assert_eq!(owner.get(7), None);
    assert_eq!(w.index.get(7), None);
    assert_eq!(w.udp_target(&data(7)), None);
    assert_eq!(w.egress_peer(&[2; 32]), None);
}

#[test]
fn a_repeated_first_packet_gets_the_same_answer() {
    let mut w = worker(false, true);
    let mut owner = IndexOwner::new();
    let mut out = Vec::new();
    w.add_peer([2; 32], vec![addr(1)], vec![], &mut out);
    assert_eq!(w.plan_init(&init(9), &Some([2; 32]), &mut out), InitPlan::Rebuild);
    out.clear();
    let resp = vec![2, 0, 0, 0, 5, 0, 0, 0, 9, 0, 0, 0];
    let a = arrival(Via::UdpDirect, Some(addr(4)), 10);
    let at = w.init_accepted(&mut owner, &[2; 32], init(9), Some(resp.clone()), a, true, &mut out);
    assert_eq!(at, Some(0));
    assert!(w.peers[0].handshaked);
    assert_eq!(w.peers[0].direct_addr, Some(addr(4)));
    assert_eq!(owner.get(5), Some(3));
    assert_eq!(out.len(), 1);
    out.clear();
    assert_eq!(w.plan_init(&init(9), &None, &mut out), InitPlan::Repeat);
    assert!(matches!(&out[0], Effect::Udp { bytes, .. } if *bytes == resp));
    // A live session is given a new key, not thrown away.
    assert_eq!(w.plan_init(&init(10), &Some([2; 32]), &mut out), InitPlan::Rekey(0));
    assert!(w.rekey_replied(&mut owner, 0, init(10), RekeyReply::Failed, a, &mut out));
    assert_eq!(w.peers[0].last_init, Some(init(9)));
    let again = vec![2, 0, 0, 0, 6, 0, 0, 0, 10, 0, 0, 0];
    let reply = RekeyReply::Answered(Some(again.clone()));
    let later = arrival(Via::UdpDirect, Some(addr(4)), 20);
    assert!(!w.rekey_replied(&mut owner, 0, init(10), reply, later, &mut out));
    assert_eq!(w.peers[0].last_init, Some(init(10)));
    assert_eq!(w.peers[0].handshake_at, Some(20));
    assert_eq!(owner.get(6), Some(3));
    assert!(matches!(out.last(), Some(Effect::Udp { bytes, .. }) if *bytes == again));
    // Whoever is not known gets nothing.
    let b = arrival(Via::Relay, None, 11);
    let at = w.init_accepted(&mut owner, &[8; 32], init(1), None, b, true, &mut out);
    assert_eq!(at, None);
}

#[test]
fn discovery_shows_where_a_peer_is() {
    let mut w = worker(false, true);
    let mut out = Vec::new();
    w.add_peer([2; 32], vec![addr(1)], vec![], &mut out);
    let ping = Disco::Ping {
        tx_id: [5; 12],
        sender: [2; 32],
    };
    match w.on_disco(addr(9), &ping) {
        Some(Disco::Pong { tx_id, observed }) => {
            assert_eq!(tx_id, [5; 12]);
            assert_eq!(observed, addr(9));
        }
        _ => panic!("no answer"),
    }
    assert_eq!(w.peers[0].direct_addr, Some(addr(9)));
    assert!(w.peers[0].disco_validated);
}

#[test]
fn the_end_of_an_older_stream_is_ignored() {
    let mut w = worker(false, true);
    let mut out = Vec::new();
    w.add_peer([2; 32], vec![addr(1)], vec![], &mut out);
    w.on_tcp_conn(&[2; 32], 1, true);
    w.on_tcp_conn(&[2; 32], 2, true);
    w.on_tcp_conn(&[2; 32], 1, false);
    assert!(w.peers[0].tcp_up);
    w.on_tcp_conn(&[2; 32], 2, false);
    assert!(!w.peers[0].tcp_up);
}

#[test]
fn new_addresses_keep_the_session() {
    let mut w = worker(false, true);
    let mut owner = IndexOwner::new();
    let mut out = Vec::new();
    w.add_peer([2; 32], vec![addr(1)], vec![], &mut out);
    w.handshake_begun(&mut owner, 0, init(7), 5, &mut out);
    w.response_in(0, arrival(Via::UdpDirect, Some(addr(1)), 6), &None, &mut out);
    assert!(w.update_candidates(&[2; 32], vec![addr(3)], &mut out));
    assert!(!w.update_candidates(&[9; 32], vec![addr(3)], &mut out));
    assert!(w.peers[0].handshaked);
    assert_eq!(owner.get(7), Some(3));
    assert_eq!(w.peers[0].candidates, vec![addr(3)]);
    assert!(is_udp(out.last().unwrap(), addr(3)));
}

#[test]
fn data_is_counted_and_batched() {
    let mut w = worker(false, true);
    let mut owner = IndexOwner::new();
    let mut out = Vec::new();
    let mut batch = GsoBatch::new(false);
    w.add_peer([2; 32], vec![addr(1)], vec![], &mut out);
    out.clear();
    assert_eq!(w.egress_peer(&[2; 32]), None);
    w.response_in(0, arrival(Via::UdpDirect, Some(addr(1)), 6), &None, &mut out);
    assert_eq!(w.egress_peer(&[2; 32]), Some(0));
    let e = w.egress(&mut owner, 0, &data(7), &mut batch, &mut out);
    assert!(e.flush.is_none());
    assert_eq!(batch.count, 1);
    assert_eq!(w.peers[0].stat.tx_bytes, 9);
    assert!(out.is_empty());
    let got = w.data_in(0, arrival(Via::UdpDirect, Some(addr(1)), 7), 40, vec![1, 2, 3]);
    assert_eq!(got, Some(vec![1, 2, 3]));
    assert_eq!(w.peers[0].stat.rx_bytes, 40);
    assert_eq!(w.data_in(0, arrival(Via::UdpDirect, Some(addr(1)), 8), 32, vec![]), None);
}

/// Runs a whole check, sealing and beginning handshakes with fixed packets.
fn run_tick(w: &mut Worker, owner: &mut IndexOwner, now: u64, out: &mut Vec<Effect>) -> Vec<TickAsk> {
    let mut run = Worker::tick_begin(now);
    let mut asks = Vec::new();
    let mut reply: Option<Vec<u8>> = None;
    loop {
        let ask = w.tick(owner, &mut run, &reply, out);
        asks.push(ask);
        reply = match ask {
            TickAsk::Finished => return asks,
            TickAsk::Seal(_) => Some(data(7)),
            TickAsk::Rekey(_) => Some(init(8)),
            TickAsk::Again => None,
        };
        assert!(asks.len() < 100);
    }
}

#[test]
fn a_silent_direct_path_falls_back_to_the_relay() {
    let mut w = worker(false, true);
    let mut owner = IndexOwner::new();
    let mut out = Vec::new();
    w.add_peer([2; 32], vec![addr(1)], vec![], &mut out);
    w.response_in(0, arrival(Via::UdpDirect, Some(addr(1)), 0), &None, &mut out);
    out.clear();
    run_tick(&mut w, &mut owner, SECOND, &mut out);
    assert!(!w.peers[0].prefer_relay);
    assert_eq!(w.peers[0].stat.transport, T_UDP_DIRECT);
    run_tick(&mut w, &mut owner, 60 * SECOND, &mut out);
    assert!(w.peers[0].prefer_relay && w.peers[0].relay_pinned);
    out.clear();
    run_tick(&mut w, &mut owner, 61 * SECOND, &mut out);
    assert_eq!(w.peers[0].stat.transport, T_RELAY);
}

#[test]
fn only_one_end_begins_a_handshake() {
    assert!(begins(&[1; 32], &[2; 32]));
    assert!(!begins(&[2; 32], &[1; 32]));
    assert!(!begins(&[2; 32], &[2; 32]));
    let mut a = [0; 32];
    a[31] = 1;
    assert!(begins(&[0; 32], &a));
}

#[test]
fn round_trips_are_smoothed() {
    let mut p = Peer::fresh([2; 32], vec![addr(1)], false, PeerStat::new(vec![]));
    p.init_sent_at = Some(100);
    p.note_rtt(900);
    assert_eq!(p.rtt, Some(800));
    p.note_rtt(5_000);
    assert_eq!(p.rtt, Some(800));
}

#[test]
fn packets_are_told_apart() {
    assert_eq!(classify(&disco_dgram(&[1])), Datagram::Disco);
    assert_eq!(classify(&init(4)), Datagram::Init);
    assert_eq!(
        classify(&[2, 0, 0, 0, 9, 0, 0, 0, 1, 2, 0, 0]),
        Datagram::Indexed(Some(513))
    );
    assert_eq!(classify(&data(6)), Datagram::Indexed(Some(6)));
    assert_eq!(classify(&[4, 0]), Datagram::Indexed(None));
    assert!(matches!(packet_kind(&init(1)), PacketKind::Unknown));
    assert!(matches!(packet_kind(&[2]), PacketKind::Response));
    assert!(matches!(packet_kind(&data(1)), PacketKind::Data));
    assert!(matches!(packet_kind(&[]), PacketKind::Unknown));
}

#[test]
fn packets_go_to_the_worker_that_owns_the_peer() {
    let mut peers = Assoc::new();
    peers.insert([2u8; 32], 5usize);
    let mut cands = Assoc::new();
    cands.insert(addr(1), 6usize);
    let mut owner = IndexOwner::new();
    let mut table = IndexTable::new(7);
    table.insert(&mut owner, 6, [2; 32]);
    let ping = Some(Disco::Ping {
        tx_id: [0; 12],
        sender: [2; 32],
    });
    let pong = Some(Disco::Pong {
        tx_id: [0; 12],
        observed: addr(3),
    });
    let d = disco_dgram(&[1]);
    assert_eq!(route_udp(&d, addr(9), &ping, &None, &peers, &cands, &owner), Some(5));
    assert_eq!(route_udp(&d, addr(1), &pong, &None, &peers, &cands, &owner), Some(6));
    assert_eq!(route_udp(&d, addr(9), &pong, &None, &peers, &cands, &owner), None);
    assert_eq!(
        route_udp(&init(1), addr(9), &None, &Some([2; 32]), &peers, &cands, &owner),
        Some(5)
    );
    assert_eq!(route_udp(&init(1), addr(9), &None, &None, &peers, &cands, &owner), None);
    assert_eq!(route_udp(&data(6), addr(9), &None, &None, &peers, &cands, &owner), Some(7));
    assert_eq!(route_framed(&data(6), &[2; 32], &None, &peers), Some(5));
    assert_eq!(route_framed(&data(6), &[3; 32], &None, &peers), None);
    assert_eq!(route_framed(&init(1), &[2; 32], &Some([3; 32]), &peers), None);
}

#[test]
fn the_first_peer_with_the_network_gets_the_packet() {
    let mut allowed = Assoc::new();
    allowed.insert(
        [1u8; 32],
        Allowed {
            ips: vec!["10.1.0.0/16".to_string()],
            wid: 0,
        },
    );
    allowed.insert(
        [2u8; 32],
        Allowed {
            ips: vec!["0.0.0.0/0".to_string()],
            wid: 1,
        },
    );
    let ip = |a: u32, b: u32, c: u32, d: u32| Some(IpAddr::V4((a << 24) | (b << 16) | (c << 8) | d));
    assert_eq!(route_tun(ip(10, 1, 2, 3), &allowed), Some(([1; 32], 0)));
    assert_eq!(route_tun(ip(8, 8, 8, 8), &allowed), Some(([2; 32], 1)));
    assert_eq!(route_tun(Some(IpAddr::V6(1)), &allowed), None);
    assert_eq!(route_tun(None, &allowed), None);
}

#[test]
fn equal_datagrams_to_one_address_are_batched() {
    let mut b = GsoBatch::new(false);
    assert!(b.push(addr(1), &[1; 100]).is_none());
    assert!(b.push(addr(1), &[2; 100]).is_none());
    match b.push(addr(1), &[3; 50]) {
        Some(Flush::Segmented { dst, bytes, seg }) => {
            assert_eq!((dst, seg), (addr(1), 100));
            assert_eq!(bytes, [vec![1; 100], vec![2; 100]].concat());
        }
        other => panic!("{:?}", other),
    }
    match b.push(addr(2), &[4; 50]) {
        Some(Flush::Single { dst, bytes }) => assert_eq!((dst, bytes), (addr(1), vec![3; 50])),
        other => panic!("{:?}", other),
    }
    match b.refused(addr(5), &[1, 1, 2, 2, 3], 2) {
        Flush::Split { dst, packets } => {
            assert_eq!(dst, addr(5));
            assert_eq!(packets, vec![vec![1, 1], vec![2, 2], vec![3]]);
        }
        other => panic!("{:?}", other),
    }
    b.push(addr(2), &[5; 50]);
    // Once refused, never tried again.
    assert!(matches!(b.flush(), Some(Flush::Split { .. })));
    assert!(b.flush().is_none());
    assert_eq!(split_segments(&[1, 2, 3], 0).len(), 3);
}

#[test]
fn a_batch_has_a_largest_size() {
    let mut b = GsoBatch::new(false);
    let n = MAX_BATCH_BYTES / 1024;
    for _ in 0..n {
        assert!(b.push(addr(1), &[0; 1024]).is_none());
    }
    assert!(b.push(addr(1), &[0; 1024]).is_some());
    assert_eq!(b.count, 1);
    let mut off = GsoBatch::new(true);
    assert!(matches!(off.push(addr(1), &[9]), Some(Flush::Single { .. })));
    assert_eq!(off.count, 0);
}

#[test]
fn received_datagrams_keep_their_sender() {
    let mut b = RecvBatch::new();
    assert_eq!(b.get(3), (vec![], SocketAddr::new(IpAddr::V4(0), 0)));
    b.store(3, vec![1, 2], &RawAddr::Inet([10, 0, 0, 1], [0x1f, 0x90]));
    assert_eq!(
        b.get(3),
        (vec![1, 2], SocketAddr::new(IpAddr::V4(0x0a000001), 8080))
    );
    b.store(3, vec![5], &RawAddr::Other);
    assert_eq!(b.get(3).0, vec![5]);
    assert_eq!(b.get(3).1.port, 8080);
    let mut six = [0u8; 16];
    six[0] = 0x20;
    six[15] = 1;
    assert_eq!(
        sockaddr_to_socket(&RawAddr::Inet6(six, [0, 53])),
        Some(SocketAddr::new(IpAddr::V6((0x20 << 120) | 1), 53))
    );
    assert!(batch_disabled(&Some("1".to_string()), true));
    assert!(!batch_disabled(&Some("0".to_string()), true));
    assert!(!batch_disabled(&None, true));
    assert!(batch_disabled(&None, false));
}

#[test]
fn a_stream_is_read_however_it_is_cut() {
    let mut p = FramePump::new();
    let mut bytes = stream_frame(&[1, 2, 3]);
    bytes.extend(stream_frame(&[]));
    bytes.extend(stream_frame(&[4]));
    let r = p.receive(&bytes[..5]);
    assert!(r.packets.is_empty() && !r.ends);
    let r = p.receive(&bytes[5..]);
    assert_eq!(r.packets, vec![vec![1, 2, 3], vec![], vec![4]]);
    assert!(p.buf.is_empty());
    assert!(p.receive(&[0, 1, 0, 0]).ends);
}

#[test]
fn a_silent_stream_ends() {
    let mut p = FramePump::new();
    assert_eq!(p.tick(), TickAction::KeepAlive);
    assert_eq!(p.tick(), TickAction::KeepAlive);
    p.receive(&[0]);
    assert_eq!(p.tick(), TickAction::KeepAlive);
    assert_eq!(p.tick(), TickAction::KeepAlive);
    assert_eq!(p.tick(), TickAction::End);
}

#[test]
fn every_address_is_dialed_before_the_rest() {
    let (mut d, a) = Dialer::begin(2);
    assert_eq!(a, DialAction::Dial(0));
    assert_eq!(d.on_event(DialEvent::Failed, 2), DialAction::Dial(1));
    assert_eq!(d.on_event(DialEvent::Failed, 2), DialAction::Rest(5));
    assert_eq!(d.on_event(DialEvent::Up, 2), DialAction::Pump);
    assert_eq!(d.on_event(DialEvent::Ended, 2), DialAction::Rest(2));
    assert_eq!(Dialer::begin(0).1, DialAction::Rest(5));
}

fn member(key: u8, cands: Vec<SocketAddr>, ips: &[&str]) -> PeerInfo {
    PeerInfo {
        pubkey: [key; 32],
        candidates: cands,
        allowed_ips: ips.iter().map(|s| s.to_string()).collect(),
        overlay: None,
    }
}

#[test]
fn members_come_and_go_without_a_restart() {
    let mut r = Reconciler::new(2, [3; 32]);
    let mut t = Tables::new();
    let mut out = Vec::new();
    let list = vec![
        member(2, vec![addr(1)], &["10.0.0.2/32"]),
        member(4, vec![addr(2)], &["10.0.0.4/32"]),
    ];
    r.reconcile(&mut t, &list, &mut out);
    assert_eq!(out.len(), 4);
    assert!(matches!(&out[0], Action::RouteAdd(n) if n == "10.0.0.2/32"));
    assert!(matches!(
        &out[1],
        Action::AddPeer {
            wid: 0,
            initiator: false,
            ..
        }
    ));
    assert!(matches!(
        &out[3],
        Action::AddPeer {
            wid: 1,
            initiator: true,
            ..
        }
    ));
    assert_eq!(t.peer_to_wid.get(&[4; 32]), Some(&1));
    assert_eq!(t.cand_to_wid.get(&addr(1)), Some(&0));

    // The same list again: nothing to do.
    out.clear();
    r.reconcile(&mut t, &list, &mut out);
    assert!(out.is_empty());

    // One is gone, the other is reached elsewhere.
    let list = vec![member(4, vec![addr(5)], &["10.0.0.4/32"])];
    r.reconcile(&mut t, &list, &mut out);
    assert_eq!(out.len(), 3);
    assert!(matches!(&out[0], Action::RemovePeer { wid: 0, .. }));
    assert!(matches!(&out[1], Action::RouteDel(n) if n == "10.0.0.2/32"));
    assert!(matches!(&out[2], Action::UpdateCandidates { wid: 1, .. }));
    assert_eq!(t.peer_to_wid.get(&[2; 32]), None);
    assert_eq!(t.cand_to_wid.get(&addr(1)), None);
    assert_eq!(t.cand_to_wid.get(&addr(2)), None);
    assert_eq!(t.cand_to_wid.get(&addr(5)), Some(&1));

    // Other networks.
    out.clear();
    let list = vec![member(4, vec![addr(5)], &["10.0.0.4/32", "10.9.0.0/16"])];
    r.reconcile(&mut t, &list, &mut out);
    assert_eq!(out.len(), 1);
    assert!(matches!(&out[0], Action::RouteAdd(n) if n == "10.9.0.0/16"));
}

#[test]
fn a_member_that_is_listed_twice_is_taken_in_once() {
    let mut r = Reconciler::new(2, [3; 32]);
    let mut t = Tables::new();
    let mut out = Vec::new();
    let list = vec![
        member(5, vec![addr(1)], &["10.0.0.5/32"]),
        member(6, vec![addr(2)], &["10.0.0.0/8"]),
        member(5, vec![addr(1)], &["10.1.0.0/16"]),
    ];
    r.reconcile(&mut t, &list, &mut out);
    assert_eq!(r.ordinal, 2);
    assert_eq!(out.len(), 6);
    assert!(matches!(&out[4], Action::RouteDel(n) if n == "10.0.0.5/32"));
    assert!(matches!(&out[5], Action::RouteAdd(n) if n == "10.1.0.0/16"));
    // The networks of a member that has changed are looked through last.
    let to = route_tun(Some(IpAddr::V4(0x0a010001)), &t.allowed);
    assert_eq!(to, Some(([6; 32], 1)));
}

#[test]
fn new_addresses_and_new_networks_are_taken_in_together() {
    let mut r = Reconciler::new(1, [3; 32]);
    let mut t = Tables::new();
    let mut out = Vec::new();
    r.reconcile(&mut t, &vec![member(5, vec![addr(1)], &["10.0.0.5/32"])], &mut out);
    out.clear();
    let list = vec![member(5, vec![addr(2)], &["10.5.0.0/16"])];
    r.reconcile(&mut t, &list, &mut out);
    assert_eq!(out.len(), 3);
    assert!(matches!(&out[0], Action::UpdateCandidates { wid: 0, .. }));
    assert!(matches!(&out[1], Action::RouteDel(n) if n == "10.0.0.5/32"));
    assert!(matches!(&out[2], Action::RouteAdd(n) if n == "10.5.0.0/16"));
    assert_eq!(t.allowed.get(&[5; 32]).map(|a| a.ips.clone()), Some(vec!["10.5.0.0/16".to_string()]));
    assert_eq!(t.cand_to_wid.get(&addr(2)), Some(&0));
    assert_eq!(t.cand_to_wid.get(&addr(1)), None);
    out.clear();
    r.reconcile(&mut t, &list, &mut out);
    assert!(out.is_empty());
}

#[test]
fn the_order_of_addresses_does_not_matter() {
    assert!(same_endpoints(&vec![addr(1), addr(2)], &vec![addr(2), addr(1)]));
    assert!(!same_endpoints(&vec![addr(1)], &vec![addr(1), addr(2)]));
    assert!(!same_endpoints(&vec![addr(1), addr(2)], &vec![addr(1), addr(1)]));
    assert!(!same_endpoints(&vec![addr(1), addr(1)], &vec![addr(1), addr(2)]));
}

#[test]
fn paths_have_names() {
    assert_eq!(transport_name(1), "udp-direct");
    assert_eq!(transport_name(2), "tcp-direct");
    assert_eq!(transport_name(3), "relay");
    assert_eq!(transport_name(0), "\u{2014}");
}

#[test]
fn packets_find_their_session() {
    let mut w = worker(false, true);
    let mut owner = IndexOwner::new();
    let mut out = Vec::new();
    w.add_peer([2; 32], vec![addr(1)], vec![], &mut out);
    w.handshake_begun(&mut owner, 0, init(7), 5, &mut out);
    assert_eq!(w.inbound_udp(&disco_dgram(&[1])), Inbound::Disco);
    assert_eq!(w.inbound_udp(&init(1)), Inbound::Init);
    assert_eq!(w.inbound_udp(&data(7)), Inbound::Session(0));
    assert_eq!(w.inbound_udp(&data(8)), Inbound::Nobody);
    assert_eq!(w.inbound_framed(&[2; 32], &data(9)), Inbound::Session(0));
    assert_eq!(w.inbound_framed(&[3; 32], &data(9)), Inbound::Nobody);
    assert_eq!(w.inbound_framed(&[3; 32], &init(9)), Inbound::Init);
    assert!(!flushes_first(Told::Egress) && !flushes_first(Told::Stream) && !flushes_first(Told::Removed));
    assert!(flushes_first(Told::Tick) && flushes_first(Told::Packet) && flushes_first(Told::Joined));
}
