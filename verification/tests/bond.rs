use fluxpeer::anytls;
use fluxpeer::anytls::config::{get_config_cloned, set_anytls_config, AnytlsConfig};
use fluxpeer::bond::conn::{
    batch_flushed, driver_event, open_begins, open_ends, ping_begins, ping_ends, reader_event, DriverEvent,
    OpenOutcome, PingOutcome, ReadAction, ReadEvent,
};
use fluxpeer::bond::frame::{frame_batch, read_length, write_frame};
use fluxpeer::bond::header::{generate_bond_id, read_bond_header, write_bond_header};
use fluxpeer::bond::join::{inbound_stream, FirstPacket, FirstStream, Inbound, JoinWindow, Newborn};
use fluxpeer::bond::keeper::{AcceptBackoff, BondKeeper, Wake};
use fluxpeer::health::ConnHealth;
use fluxpeer::tcp_bond;
use fluxpeer::tcp_bond::config::TcpBondConfig;
use sha2::{Digest, Sha256};
use std::time::Duration;
use tokio::sync::mpsc::channel;

/// Test that AnytlsConfig defaults are sane
#[test]
fn test_config_defaults() {
    let cfg = AnytlsConfig::default();
    assert_eq!(cfg.bond_connections, 3);
    assert_eq!(cfg.effective_bond_connections(), 3);
    assert_eq!(cfg.health_check_interval, Duration::from_secs(10));
    assert_eq!(cfg.max_consecutive_failures, 2);
}

/// Test bond_connections clamping
#[test]
fn test_config_clamp() {
    let cfg = AnytlsConfig {
        bond_connections: 0,
        ..AnytlsConfig::default()
    };
    assert_eq!(cfg.effective_bond_connections(), 1);
    let cfg = AnytlsConfig {
        bond_connections: 100,
        ..AnytlsConfig::default()
    };
    assert_eq!(cfg.effective_bond_connections(), 8);
    let cfg = AnytlsConfig {
        bond_connections: 5,
        ..AnytlsConfig::default()
    };
    assert_eq!(cfg.effective_bond_connections(), 5);
}

/// Password derived from same node_id must always produce the same result
/// (server and client both call derive_password with the same node_id)
#[test]
fn test_password_derivation_deterministic() {
    let node_id = "0E7B555F-BD7D-4B41-9183-4D3DF65D2179";
    let p1 = AnytlsConfig::derive_password(node_id);
    let p2 = AnytlsConfig::derive_password(node_id);
    assert_eq!(p1, p2);
    assert_eq!(p1.len(), 64); // SHA256 hex = 64 chars

    // Different node_id → different password
    let p3 = AnytlsConfig::derive_password("DIFFERENT-NODE-ID");
    assert_ne!(p1, p3);
}

/// with_node_id sets password automatically
#[test]
fn test_with_node_id() {
    let cfg = AnytlsConfig::with_node_id("test-node-123");
    assert!(!cfg.password.is_empty());
    assert_eq!(cfg.password, AnytlsConfig::derive_password("test-node-123"));
    // Other fields should be defaults
    assert_eq!(cfg.bond_connections, 3);
}

#[test]
fn the_password_is_the_digest_of_the_salt_and_the_id() {
    let expected = hex::encode(Sha256::digest(b"fp-anytls-v1node"));
    assert_eq!(AnytlsConfig::derive_password("node"), expected);
}

#[test]
fn a_certificate_needs_both_files() {
    let mut cfg = AnytlsConfig::default();
    assert!(cfg.certificate_files().is_none());
    cfg.cert_path = Some("c.pem".to_string());
    assert!(cfg.certificate_files().is_none());
    cfg.key_path = Some("k.pem".to_string());
    let (c, k) = cfg.certificate_files().unwrap();
    assert_eq!((c.as_str(), k.as_str()), ("c.pem", "k.pem"));
}

#[test]
fn settings_in_force_are_the_last_ones_set() {
    let mut slot = None;
    assert_eq!(get_config_cloned(&slot).bond_connections, 3);
    set_anytls_config(&mut slot, AnytlsConfig::with_node_id("a"));
    set_anytls_config(&mut slot, AnytlsConfig::with_node_id("b"));
    assert_eq!(get_config_cloned(&slot).password, AnytlsConfig::derive_password("b"));
    let mut bond = None;
    assert_eq!(tcp_bond::config::get_config_cloned(&bond).bond_connections, 3);
    let cfg = TcpBondConfig {
        bond_connections: 9,
        ..TcpBondConfig::default()
    };
    tcp_bond::config::set_tcp_bond_config(&mut bond, cfg);
    assert_eq!(tcp_bond::config::get_config_cloned(&bond).effective_bond_connections(), 8);
}

fn health() -> ConnHealth {
    ConnHealth::new(&AnytlsConfig::default())
}

#[test]
fn a_packet_takes_the_healthiest_link() {
    let mut g = anytls::bond::BondGroup::new([1; 16]);
    let (tx1, mut rx1) = channel(4);
    let (tx2, mut rx2) = channel(4);
    let mut slow = health();
    slow.rtt_us = 90_000;
    let mut fast = health();
    fast.rtt_us = 10_000;
    assert!(g.add_link(slow, tx1));
    assert!(g.add_link(fast, tx2));
    assert_eq!(g.alive_count(), 2);
    g.send(vec![1]).unwrap();
    g.send(vec![2]).unwrap();
    assert!(rx1.try_recv().is_err());
    assert_eq!(rx2.try_recv().unwrap(), vec![1]);
    assert_eq!(rx2.try_recv().unwrap(), vec![2]);
    // The other one carries what the best one does not take.
    drop(rx2);
    g.send(vec![3]).unwrap();
    assert_eq!(rx1.try_recv().unwrap(), vec![3]);
    drop(rx1);
    assert!(g.send(vec![4]).is_err());
}

#[test]
fn equally_healthy_links_take_turns() {
    let mut g = anytls::bond::BondGroup::new([1; 16]);
    let (tx1, mut rx1) = channel(4);
    let (tx2, mut rx2) = channel(4);
    g.add_link(health(), tx1);
    g.add_link(health(), tx2);
    g.send(vec![1]).unwrap();
    g.send(vec![2]).unwrap();
    let mut got = vec![];
    got.extend(rx1.try_recv().ok());
    got.extend(rx2.try_recv().ok());
    assert_eq!(got.len(), 2);
}

#[test]
fn a_closed_group_takes_nothing() {
    let mut g = anytls::bond::BondGroup::new([1; 16]);
    let (tx, _rx) = channel(4);
    g.add_link(health(), tx.clone());
    assert!(g.may_receive().is_ok());
    assert!(g.close());
    assert!(!g.close());
    assert!(!g.add_link(health(), tx));
    assert!(g.may_receive().is_err());
    assert!(g.send(vec![1]).is_err());
}

#[test]
fn plain_links_are_sprayed() {
    let mut g = tcp_bond::bond::BondGroup::new([2; 16]);
    let (tx1, mut rx1) = channel(4);
    let (tx2, mut rx2) = channel(4);
    let mut slow = health();
    slow.rtt_us = 90_000;
    g.add_link(slow, tx1);
    g.add_link(health(), tx2);
    for n in 0..4u8 {
        g.send(vec![n]).unwrap();
    }
    assert_eq!(rx1.try_recv().unwrap(), vec![0]);
    assert_eq!(rx2.try_recv().unwrap(), vec![1]);
    assert_eq!(rx1.try_recv().unwrap(), vec![2]);
    assert_eq!(rx2.try_recv().unwrap(), vec![3]);
    let s = g.health_summary();
    assert_eq!(s.alive_count, 2);
    // A link that is out of use is passed over.
    g.links[0].health.weight = 0;
    g.send(vec![4]).unwrap();
    g.send(vec![5]).unwrap();
    assert_eq!(rx2.try_recv().unwrap(), vec![4]);
    assert_eq!(rx2.try_recv().unwrap(), vec![5]);
    assert_eq!(g.alive_count(), 1);
}

#[test]
fn bond_headers_read_back() {
    let id = generate_bond_id();
    assert_ne!(id, generate_bond_id());
    let mut buf = write_bond_header(&id, 3);
    assert_eq!(buf[0], 1);
    assert_eq!(read_bond_header(&buf).unwrap(), (id, 3));
    buf[0] = 9;
    assert_eq!(
        read_bond_header(&buf).unwrap_err().message(),
        "io error: `unsupported bond version: 9`"
    );
}

#[test]
fn bonded_frames_carry_their_length() {
    let mut out = vec![];
    write_frame(&mut out, &[7, 8]).unwrap();
    assert_eq!(out, vec![0, 0, 0, 2, 7, 8]);
    assert_eq!(read_length(&[0, 0, 1, 2]).unwrap(), 258);
    assert!(read_length(&[255, 0, 0, 0]).is_err());
    let b = frame_batch(&vec![vec![1], vec![2, 3]]);
    assert_eq!(b.bytes, vec![0, 0, 0, 1, 1, 0, 0, 0, 2, 2, 3]);
    assert_eq!((b.sent, b.carried, b.whole), (2, 3, true));
}

#[test]
fn connections_with_one_id_are_one_bond() {
    let mut w = JoinWindow::new();
    let first = w.join([7; 16], 100);
    assert!(first.primary);
    assert_eq!((first.group, first.conn_idx), (100, 0));
    let second = w.join([7; 16], 101);
    assert!(!second.primary);
    assert_eq!((second.group, second.conn_idx), (100, 1));
    let third = w.join([7; 16], 102);
    assert_eq!((third.group, third.conn_idx), (100, 2));
    assert_eq!(w.expire(&[7; 16]), Some(100));
    assert_eq!(w.expire(&[7; 16]), None);
    assert!(w.join([7; 16], 103).primary);
}

#[test]
fn a_bond_that_never_speaks_is_closed() {
    let mut b = Newborn::new();
    assert_eq!(b.first_packet(FirstPacket::TimedOut), None);
    assert!(b.closed);
    let mut b = Newborn::new();
    assert_eq!(b.first_packet(FirstPacket::Arrived(vec![1])), Some(vec![1]));
    b.join_expired(true);
    assert!(b.promoted && !b.closed);
    let mut b = Newborn::new();
    b.join_expired(true);
    assert!(b.closed);
}

#[test]
fn a_bond_is_kept_at_its_size() {
    let e = BondKeeper::established(&vec![false, false], 2).unwrap_err();
    assert_eq!(e.message(), "unexpected result: `all bond connections failed`");
    let mut k = BondKeeper::established(&vec![true, false, true], 3).unwrap();
    assert_eq!(k.next_id, 2);
    assert_eq!(k.replenish(2), Some(2));
    k.joined();
    assert_eq!(k.replenish(2), Some(3));
    assert_eq!(k.replenish(3), None);
    assert!(BondKeeper::goes_on(Wake::Tick, false));
    assert!(!BondKeeper::goes_on(Wake::Tick, true));
    assert!(!BondKeeper::goes_on(Wake::CloseNotified, false));
}

#[test]
fn a_plain_bond_needs_a_stream() {
    let mut w = JoinWindow::new();
    assert!(w.find_or_open([1; 16], 4).primary);
    assert!(w.primary_stream(&[1; 16], FirstStream::Came).is_ok());
    let a = w.find_or_open([1; 16], 5);
    assert_eq!((a.primary, a.group), (false, 4));
    // Only a stream that came is counted.
    assert_eq!(w.secondary_stream([1; 16], &FirstStream::Closed), None);
    assert_eq!(w.secondary_stream([1; 16], &FirstStream::Came), Some(1));
    assert_eq!(w.secondary_stream([1; 16], &FirstStream::Came), Some(2));
    let e = w.primary_stream(&[1; 16], FirstStream::Failed("reset".to_string())).unwrap_err();
    assert_eq!(e.message(), "unexpected result: `yamux accept: reset`");
    assert!(w.find_or_open([1; 16], 6).primary);
    let e = w.primary_stream(&[1; 16], FirstStream::Closed).unwrap_err();
    assert_eq!(e.message(), "unexpected result: `yamux closed`");
    assert!(w.find_or_open([1; 16], 7).primary);
}

#[test]
fn accepting_rests_longer_after_each_failure() {
    let mut b = AcceptBackoff::new();
    let rests: Vec<u64> = (0..6).map(|_| b.failed().rest_ms).collect();
    assert_eq!(rests, vec![100, 200, 400, 800, 1000, 1000]);
    b.accepted();
    assert_eq!(b.failed().rest_ms, 100);
    let mut b = AcceptBackoff::new();
    let lasting: Vec<bool> = (0..16).map(|_| b.failed().lasting).collect();
    assert_eq!(lasting.iter().filter(|l| **l).count(), 1);
    assert!(lasting[15]);
}

#[test]
fn a_ping_gives_its_stream_back() {
    let mut h = health();
    ping_begins(&mut h, 1_000);
    assert!(ping_ends(&mut h, PingOutcome::Answered(OpenOutcome::Opened), 4_000).is_ok());
    assert_eq!(h.active_streams(), 0);
    assert_eq!(h.rtt_us, 3_000);
    ping_begins(&mut h, 5_000);
    assert!(ping_ends(&mut h, PingOutcome::TimedOut, 9_000).is_err());
    assert_eq!(h.consecutive_failures, 1);
}

#[test]
fn a_refused_stream_is_a_failure() {
    let mut h = health();
    open_begins(&mut h);
    assert!(open_ends(&mut h, OpenOutcome::Opened).is_ok());
    assert_eq!(h.active_streams(), 1);
    open_begins(&mut h);
    let e = open_ends(&mut h, OpenOutcome::Refused("full".to_string())).unwrap_err();
    assert!(e.message().contains("full"));
    assert_eq!(h.active_streams(), 1);
    assert!(driver_event(&mut h, DriverEvent::Inbound));
    let before = h.consecutive_failures;
    assert!(!driver_event(&mut h, DriverEvent::Closed));
    assert_eq!(h.consecutive_failures, before + 1);
}

#[test]
fn the_answers_of_the_links_decide_who_carries() {
    let mut g = anytls::bond::BondGroup::new([1; 16]);
    let mut t = tcp_bond::bond::BondGroup::new([1; 16]);
    let mut best = Vec::new();
    let mut turns = Vec::new();
    for rtt in [30_000, 10_000, 20_000] {
        let mut h = health();
        h.rtt_us = rtt;
        let (tx, rx) = channel(1);
        g.add_link(h, tx);
        best.push(rx);
        let (tx, rx) = channel(1);
        t.add_link(h, tx);
        turns.push(rx);
    }
    // The healthiest with room, whatever the cursor.
    for (n, i) in [(1u8, 1usize), (2, 2), (3, 0)] {
        g.send(vec![n]).unwrap();
        assert_eq!(best[i].try_recv().unwrap(), vec![n]);
        g.links[i].health.rtt_us += 90_000;
    }
    for n in 4u8..7 {
        g.send(vec![n]).unwrap();
    }
    let e = g.send(vec![7]).unwrap_err();
    assert_eq!(e.message(), "unexpected result: `all bonded links busy/failed`");
    for (n, i) in [(4u8, 1usize), (5, 2), (6, 0)] {
        assert_eq!(best[i].try_recv().unwrap(), vec![n]);
        assert!(best[i].try_recv().is_err());
    }
    // In turn from the cursor; a link without room or without a receiver is passed over.
    t.send(vec![1]).unwrap();
    turns.remove(1);
    t.send(vec![2]).unwrap();
    assert_eq!(turns[1].try_recv().unwrap(), vec![2]);
    t.send(vec![3]).unwrap();
    assert!(t.send(vec![4]).is_err());
    assert_eq!(turns[0].try_recv().unwrap(), vec![1]);
    assert_eq!(turns[1].try_recv().unwrap(), vec![3]);
    let mut tried = vec![false, false, false];
    assert_eq!(g.next_link(0, &mut tried, None), Some(1));
    assert_eq!(g.next_link(0, &mut tried, Some(1)), Some(2));
    assert_eq!(g.next_link(0, &mut tried, Some(2)), Some(0));
    assert_eq!(g.next_link(0, &mut tried, Some(0)), None);
    assert_eq!(t.next_turn(1, 0), Some(0));
}

#[test]
fn a_links_reader_notes_what_comes_in() {
    let mut h = health();
    match reader_event(&mut h, ReadEvent::Packet(vec![1, 2]), 77) {
        ReadAction::Forward(p) => assert_eq!(p, vec![1, 2]),
        other => panic!("{:?}", other),
    }
    assert_eq!((h.total_bytes(), h.last_activity_secs()), (2, 77));
    // An empty frame only opens the stream.
    assert!(matches!(reader_event(&mut h, ReadEvent::Packet(vec![]), 90), ReadAction::Skip));
    assert_eq!(h.last_activity_secs(), 77);
    assert!(matches!(reader_event(&mut h, ReadEvent::Failed, 91), ReadAction::End));
    assert_eq!(h.consecutive_failures, 1);
    batch_flushed(&mut h, 40, 99);
    assert_eq!((h.total_bytes(), h.last_activity_secs()), (42, 99));
}

#[test]
fn only_the_first_stream_carries_data() {
    let mut seen = false;
    assert_eq!(inbound_stream(&mut seen), Inbound::Join);
    assert_eq!(inbound_stream(&mut seen), Inbound::Drop);
}
