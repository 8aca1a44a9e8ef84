use fluxpeer::anytls::config::AnytlsConfig;
use fluxpeer::clock::unix_now_secs;
use fluxpeer::health::ConnHealth;

fn default_config() -> AnytlsConfig {
    AnytlsConfig::default()
}

#[test]
fn test_new_initial_values() {
    let h = ConnHealth::new(&default_config());
    assert_eq!(h.weight(), 100);
    assert_eq!(h.rtt_ms(), 0);
    assert!(!h.is_dead());
    assert_eq!(h.active_streams(), 0);
    assert_eq!(h.total_bytes(), 0);
    // last_activity should be close to now
    let now = unix_now_secs();
    assert!(now.saturating_sub(h.last_activity_secs()) <= 1);
}

#[test]
fn test_record_rtt_first_sample() {
    let mut h = ConnHealth::new(&default_config());
    // First sample: no EWMA, use raw value
    h.record_rtt(10_000); // 10ms in us
    assert_eq!(h.rtt_ms(), 10); // 10_000 us / 1000 = 10 ms
}

#[test]
fn test_record_rtt_ewma() {
    let mut h = ConnHealth::new(&default_config());
    h.record_rtt(10_000); // first: 10_000
    h.record_rtt(20_000); // EWMA: (10000*7 + 20000*3)/10 = 13_000
    assert_eq!(h.rtt_us, 13_000);
}

#[test]
fn test_record_rtt_low_recovers_weight() {
    let cfg = AnytlsConfig {
        recovery_rtt_us: 100_000, // 100ms
        recovery_loss_permille: 50,
        ..Default::default()
    };
    let mut h = ConnHealth::new(&cfg);
    // Artificially reduce weight
    h.weight = 70;
    // Record low RTT (below recovery threshold) → weight should increase
    h.record_rtt(50_000); // 50ms < 100ms recovery threshold
    assert_eq!(h.weight(), 80); // 70 + 10 = 80
}

#[test]
fn test_record_rtt_high_degrades_weight() {
    let cfg = AnytlsConfig {
        degraded_rtt_us: 100_000, // 100ms
        ..Default::default()
    };
    let mut h = ConnHealth::new(&cfg);
    assert_eq!(h.weight(), 100);
    // Record high RTT (above degraded threshold)
    h.record_rtt(200_000); // 200ms > 100ms
    assert_eq!(h.weight(), 80); // 100 - 20 = 80
}

#[test]
fn test_record_rtt_clears_failures() {
    let mut h = ConnHealth::new(&default_config());
    h.record_failure();
    h.record_failure();
    assert_eq!(h.consecutive_failures, 2);
    h.record_rtt(1000);
    assert_eq!(h.consecutive_failures, 0);
}

#[test]
fn test_record_failure_degrades_after_max() {
    let cfg = AnytlsConfig {
        max_consecutive_failures: 3,
        ..Default::default()
    };
    let mut h = ConnHealth::new(&cfg);
    assert!(!h.is_dead());
    h.record_failure(); // 1
    assert!(!h.is_dead());
    h.record_failure(); // 2
    assert!(!h.is_dead());
    h.record_failure(); // 3 → dead
    assert!(h.is_dead());
    assert_eq!(h.weight(), 0);
}

#[test]
fn test_record_loss_ewma() {
    let mut h = ConnHealth::new(&default_config());
    // First sample: 100/1000 = 100 permille
    h.record_loss(100, 1000);
    assert_eq!(h.loss_permille, 100);
    // Second: EWMA (100*7 + 200*3)/10 = 130
    h.record_loss(200, 1000);
    assert_eq!(h.loss_permille, 130);
}

#[test]
fn test_record_loss_zero_total_noop() {
    let mut h = ConnHealth::new(&default_config());
    h.record_loss(10, 0);
    assert_eq!(h.loss_permille, 0);
}

#[test]
fn test_record_loss_high_degrades_weight() {
    let cfg = AnytlsConfig {
        degraded_loss_permille: 50, // 5%
        ..Default::default()
    };
    let mut h = ConnHealth::new(&cfg);
    // 100/1000 = 100 permille > 50 → degrade
    h.record_loss(100, 1000);
    assert_eq!(h.weight(), 80); // 100 - 20
}

#[test]
fn test_touch_activity_and_last_activity() {
    let mut h = ConnHealth::new(&default_config());
    let before = unix_now_secs();
    h.touch_activity();
    let after = unix_now_secs();
    let last = h.last_activity_secs();
    assert!(last >= before && last <= after);
}

#[test]
fn test_is_stale_dead_and_inactive() {
    let mut h = ConnHealth::new(&default_config());
    // weight=0 (dead) + inactive >90s → stale
    h.weight = 0;
    // Set last_activity to 100s ago
    let old = unix_now_secs().saturating_sub(100);
    h.last_activity = old;
    assert!(h.is_stale(90));
}

#[test]
fn test_is_stale_alive_not_stale() {
    let mut h = ConnHealth::new(&default_config());
    // weight > 0 → not stale even if inactive
    let old = unix_now_secs().saturating_sub(100);
    h.last_activity = old;
    assert!(!h.is_stale(90)); // weight=100, not dead
}

#[test]
fn test_is_stale_dead_but_recent_activity() {
    let mut h = ConnHealth::new(&default_config());
    h.weight = 0;
    h.touch_activity(); // just now
    assert!(!h.is_stale(90)); // dead but recently active
}

#[test]
fn test_score_dead_returns_max() {
    let mut h = ConnHealth::new(&default_config());
    h.weight = 0;
    assert_eq!(h.score(), u64::MAX);
}

#[test]
fn test_score_formula() {
    let mut h = ConnHealth::new(&default_config());
    // rtt=10ms (10_000 us), loss=50 permille, streams=2
    h.rtt_us = 10_000;
    h.loss_permille = 50;
    h.active_streams = 2;
    // score = rtt_ms*2 + loss*10 + streams*5 = 10*2 + 50*10 + 2*5 = 20+500+10 = 530
    assert_eq!(h.score(), 530);
}

#[test]
fn test_reset_weight() {
    let mut h = ConnHealth::new(&default_config());
    h.weight = 0;
    h.consecutive_failures = 5;
    h.reset_weight();
    assert_eq!(h.weight(), 100);
    assert_eq!(h.consecutive_failures, 0);
}

#[test]
fn test_streams_and_bytes() {
    let mut h = ConnHealth::new(&default_config());
    h.increment_streams();
    h.increment_streams();
    assert_eq!(h.active_streams(), 2);
    h.decrement_streams();
    assert_eq!(h.active_streams(), 1);
    h.add_bytes(1024);
    h.add_bytes(2048);
    assert_eq!(h.total_bytes(), 3072);
}

#[test]
fn test_ping_pong_records_rtt() {
    let mut h = ConnHealth::new(&default_config());
    h.mark_ping_sent(5_000);
    h.process_pong(6_000);
    // RTT should be > 0 after pong
    assert!(h.rtt_us > 0);
    assert_eq!(h.rtt_us, 1_000);
    // A second answer to the same ping says nothing.
    h.process_pong(9_000);
    assert_eq!(h.rtt_us, 1_000);
}

#[test]
fn test_weight_recovery_capped_at_100() {
    let cfg = AnytlsConfig {
        recovery_rtt_us: 1_000_000,
        recovery_loss_permille: 500,
        ..Default::default()
    };
    let mut h = ConnHealth::new(&cfg);
    h.weight = 95;
    h.record_rtt(100); // low RTT → recover +10, but cap at 100
    assert_eq!(h.weight(), 100);
}

#[test]
fn test_weight_degradation_floors_at_zero() {
    let cfg = AnytlsConfig {
        degraded_rtt_us: 100,
        ..Default::default()
    };
    let mut h = ConnHealth::new(&cfg);
    h.weight = 10;
    h.record_rtt(200); // high RTT → degrade -20, but floor at 0
    assert_eq!(h.weight(), 0);
}
