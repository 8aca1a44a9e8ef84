//! How well one bonded connection is doing.

use crate::clock::unix_now_secs;
use vstd::prelude::*;

verus! {

/// What a configuration says about judging a connection.
#[derive(Clone, Copy, Debug, PartialEq, Eq, Structural)]
pub struct Thresholds {
    /// Failures in a row that take a connection out of use.
    pub max_failures: u32,
    /// A round trip above this many microseconds costs weight.
    pub degraded_rtt_us: u64,
    /// A round trip below this many microseconds lets weight recover.
    pub recovery_rtt_us: u64,
    /// A loss above this many per mille costs weight.
    pub degraded_loss_permille: u32,
    /// A loss below this many per mille lets weight recover.
    pub recovery_loss_permille: u32,
}

/// A configuration that has thresholds.
pub trait HealthConfig {
    /// The thresholds, as a value.
    spec fn limits(&self) -> Thresholds;

    /// Reads the thresholds.
    fn thresholds(&self) -> (t: Thresholds)
        ensures
            t == self.limits(),
    ;
}

/// The health of a bond group.
#[derive(Clone, Copy, Debug, PartialEq, Eq, Structural)]
pub struct BondHealthSummary {
    pub alive_count: usize,
    pub dead_count: usize,
    pub avg_rtt_ms: u64,
    pub total_bytes: u64,
}

/// The measurements of one connection. Times of pings are microseconds of a monotonic clock,
/// `last_activity` is in seconds since the Unix epoch.
#[derive(Clone, Copy, Debug, PartialEq, Eq, Structural)]
pub struct ConnHealth {
    pub rtt_us: u64,
    pub loss_permille: u32,
    pub active_streams: u32,
    pub total_bytes: u64,
    pub weight: u32,
    pub consecutive_failures: u32,
    pub last_ping: u64,
    pub ping_sent_at: Option<u64>,
    pub last_activity: u64,
    pub limits: Thresholds,
}

/// Seven parts of the old value and three of the sample; the sample alone when there is no old
/// value.
pub open spec fn smoothed(old: int, sample: int) -> int {
    if old == 0 {
        sample
    } else {
        (old * 7 + sample * 3) / 10
    }
}

/// A smoothed value lies between the old value and the sample.
pub proof fn smoothed_bounds(old: int, sample: int)
    requires
        0 <= old,
        0 <= sample,
    ensures
        0 <= smoothed(old, sample),
        smoothed(old, sample) <= old || smoothed(old, sample) <= sample,
        old != 0 && old <= sample ==> old <= smoothed(old, sample),
        old != 0 && sample <= old ==> sample <= smoothed(old, sample),
{
}

/// `a` without `b`, not below zero.
pub open spec fn minus(a: int, b: int) -> int {
    if a < b {
        0
    } else {
        a - b
    }
}

impl ConnHealth {
    /// The measurements of a fresh connection.
    pub open spec fn fresh(limits: Thresholds, now_us: u64, now: u64) -> ConnHealth {
        ConnHealth {
            rtt_us: 0,
            loss_permille: 0,
            active_streams: 0,
            total_bytes: 0,
            weight: 100,
            consecutive_failures: 0,
            last_ping: now_us,
            ping_sent_at: None,
            last_activity: now,
            limits,
        }
    }

    /// Full weight is 100.
    pub open spec fn wf(self) -> bool {
        self.weight <= 100
    }

    /// The weight after a round trip whose smoothed time is `v`.
    pub open spec fn weight_after_rtt(self, v: int) -> int {
        let recovered = if v < self.limits.recovery_rtt_us && self.loss_permille
            < self.limits.recovery_loss_permille && self.weight < 100 {
            if self.weight + 10 > 100 {
                100
            } else {
                self.weight + 10
            }
        } else {
            self.weight as int
        };
        if v > self.limits.degraded_rtt_us {
            minus(recovered, 20)
        } else {
            recovered
        }
    }

    /// The measurements after a round trip of `rtt_us`.
    pub open spec fn after_rtt(self, rtt_us: u64) -> ConnHealth {
        let v = smoothed(self.rtt_us as int, rtt_us as int);
        ConnHealth {
            rtt_us: v as u64,
            consecutive_failures: 0,
            weight: self.weight_after_rtt(v) as u32,
            ..self
        }
    }

    /// The measurements after one more failure.
    pub open spec fn after_failure(self) -> ConnHealth {
        let f = self.consecutive_failures + 1;
        ConnHealth {
            consecutive_failures: f as u32,
            weight: if f >= self.limits.max_failures {
                0
            } else {
                self.weight
            },
            ..self
        }
    }

    /// The loss of `lost` out of `total` in per mille, kept to 32 bits.
    pub open spec fn loss_sample(lost: u32, total: u32) -> int {
        (lost * 1000 / total as int) % 0x1_0000_0000
    }

    /// The measurements after a loss of `lost` out of `total`.
    pub open spec fn after_loss(self, lost: u32, total: u32) -> ConnHealth {
        if total == 0 {
            self
        } else {
            let v = smoothed(self.loss_permille as int, Self::loss_sample(lost, total));
            ConnHealth {
                loss_permille: v as u32,
                weight: if v > self.limits.degraded_loss_permille {
                    minus(self.weight as int, 20) as u32
                } else {
                    self.weight
                },
                ..self
            }
        }
    }

    /// The score: two points for a millisecond, ten for a per mille of loss, five for a stream.
    pub open spec fn score_value(self) -> int {
        let points = self.rtt_us / 1000 * 2 + self.loss_permille * 10 + self.active_streams * 5;
        if self.weight == 0 || points > u64::MAX {
            u64::MAX as int
        } else {
            points
        }
    }

    /// A fresh connection, at a reading of the two clocks.
    pub fn new_at<C: HealthConfig>(config: &C, now_us: u64, now: u64) -> (h: ConnHealth)
        ensures
            h == ConnHealth::fresh(config.limits(), now_us, now),
    {
        ConnHealth {
            rtt_us: 0,
            loss_permille: 0,
            active_streams: 0,
            total_bytes: 0,
            weight: 100,
            consecutive_failures: 0,
            last_ping: now_us,
            ping_sent_at: None,
            last_activity: now,
            limits: config.thresholds(),
        }
    }

    /// A fresh connection that was active just now by the wall clock.
    pub fn new<C: HealthConfig>(config: &C) -> (h: ConnHealth)
        ensures
            h == ConnHealth::fresh(config.limits(), 0, h.last_activity),
    {
        ConnHealth::new_at(config, 0, unix_now_secs())
    }

    /// Lower is better; a connection without weight has the worst score.
    pub fn score(&self) -> (s: u64)
        ensures
            s == self.score_value(),
    {
        if self.weight == 0 {
            return u64::MAX;
        }
        let rtt_ms: u64 = self.rtt_us / 1000;
        let loss: u64 = self.loss_permille as u64 * 10;
        let streams: u64 = self.active_streams as u64 * 5;
        (rtt_ms * 2).saturating_add(loss).saturating_add(streams)
    }

    /// Takes in a measured round trip.
    pub fn record_rtt(&mut self, rtt_us: u64)
        ensures
            *final(self) == old(self).after_rtt(rtt_us),
    {
        proof {
            smoothed_bounds(self.rtt_us as int, rtt_us as int);
        }
        let v: u64 = if self.rtt_us == 0 {
            rtt_us
        } else {
            ((self.rtt_us as u128 * 7 + rtt_us as u128 * 3) / 10) as u64
        };
        self.rtt_us = v;
        self.consecutive_failures = 0;
        if v < self.limits.recovery_rtt_us && self.loss_permille
            < self.limits.recovery_loss_permille {
            if self.weight < 100 {
                self.weight = if self.weight + 10 > 100 {
                    100
                } else {
                    self.weight + 10
                };
            }
        }
        if v > self.limits.degraded_rtt_us {
            self.weight = self.weight.saturating_sub(20);
        }
    }

    /// Takes in a failure; too many in a row take the connection out of use.
    pub fn record_failure(&mut self)
        requires
            old(self).consecutive_failures < u32::MAX,
        ensures
            *final(self) == old(self).after_failure(),
    {
        let f: u32 = self.consecutive_failures + 1;
        self.consecutive_failures = f;
        if f >= self.limits.max_failures {
            self.weight = 0;
        }
    }

    /// Takes in a loss of `lost` packets out of `total`.
    pub fn record_loss(&mut self, lost: u32, total: u32)
        ensures
            *final(self) == old(self).after_loss(lost, total),
    {
        if total == 0 {
            return;
        }
        let permille: u64 = lost as u64 * 1000 / total as u64;
        let sample: u64 = permille % 0x1_0000_0000;
        proof {
            smoothed_bounds(self.loss_permille as int, sample as int);
        }
        let old_loss: u64 = self.loss_permille as u64;
        let v: u64 = if old_loss == 0 {
            sample
        } else {
            (old_loss * 7 + sample * 3) / 10
        };
        self.loss_permille = v as u32;
        if v as u32 > self.limits.degraded_loss_permille {
            self.weight = self.weight.saturating_sub(20);
        }
    }

    /// Notes when a ping was sent.
    pub fn mark_ping_sent(&mut self, now_us: u64)
        ensures
            *final(self) == (ConnHealth { ping_sent_at: Some(now_us), ..*old(self) }),
    {
        self.ping_sent_at = Some(now_us);
    }

    /// Takes in the answer to the ping that is under way, if there is one.
    pub fn process_pong(&mut self, now_us: u64)
        ensures
            match old(self).ping_sent_at {
                Some(t) => *final(self) == (ConnHealth {
                    ping_sent_at: None,
                    last_ping: now_us,
                    ..old(self).after_rtt(minus(now_us as int, t as int) as u64)
                }),
                None => *final(self) == *old(self),
            },
    {
        if let Some(t) = self.ping_sent_at {
            self.ping_sent_at = None;
            self.record_rtt(now_us.saturating_sub(t));
            self.last_ping = now_us;
        }
    }

    /// One stream more; the count wraps.
    pub fn increment_streams(&mut self)
        ensures
            *final(self) == (ConnHealth {
                active_streams: if old(self).active_streams == u32::MAX {
                    0
                } else {
                    (old(self).active_streams + 1) as u32
                },
                ..*old(self)
            }),
    {
        self.active_streams = self.active_streams.wrapping_add(1);
    }

    /// One stream less; the count wraps.
    pub fn decrement_streams(&mut self)
        ensures
            *final(self) == (ConnHealth {
                active_streams: if old(self).active_streams == 0 {
                    u32::MAX
                } else {
                    (old(self).active_streams - 1) as u32
                },
                ..*old(self)
            }),
    {
        self.active_streams = self.active_streams.wrapping_sub(1);
    }

    /// `n` bytes more; the count wraps.
    pub fn add_bytes(&mut self, n: u64)
        ensures
            *final(self) == (ConnHealth {
                total_bytes: ((old(self).total_bytes + n) % 0x1_0000_0000_0000_0000) as u64,
                ..*old(self)
            }),
    {
        self.total_bytes = self.total_bytes.wrapping_add(n);
    }

    /// The weight.
    pub fn weight(&self) -> (w: u32)
        ensures
            w == self.weight,
    {
        self.weight
    }

    /// Whether the connection is out of use.
    pub fn is_dead(&self) -> (b: bool)
        ensures
            b == (self.weight == 0),
    {
        self.weight == 0
    }

    /// The smoothed round trip in whole milliseconds.
    pub fn rtt_ms(&self) -> (ms: u64)
        ensures
            ms == self.rtt_us / 1000,
    {
        self.rtt_us / 1000
    }

    /// The number of open streams.
    pub fn active_streams(&self) -> (n: u32)
        ensures
            n == self.active_streams,
    {
        self.active_streams
    }

    /// Back to full weight and no failures.
    pub fn reset_weight(&mut self)
        ensures
            *final(self) == (ConnHealth { weight: 100, consecutive_failures: 0, ..*old(self) }),
    {
        self.weight = 100;
        self.consecutive_failures = 0;
    }

    /// Notes activity at a reading of the wall clock.
    pub fn touch_activity_at(&mut self, now: u64)
        ensures
            *final(self) == (ConnHealth { last_activity: now, ..*old(self) }),
    {
        self.last_activity = now;
    }

    /// Notes activity just now.
    pub fn touch_activity(&mut self)
        ensures
            *final(self) == (ConnHealth {
                last_activity: final(self).last_activity,
                ..*old(self)
            }),
    {
        self.touch_activity_at(unix_now_secs());
    }

    /// Unix timestamp (seconds) of the last activity.
    pub fn last_activity_secs(&self) -> (t: u64)
        ensures
            t == self.last_activity,
    {
        self.last_activity
    }

    /// Whether at `now` the connection is out of use and has been silent for more than
    /// `timeout_secs`.
    pub open spec fn stale(self, now: u64, timeout_secs: u64) -> bool {
        minus(now as int, self.last_activity as int) > timeout_secs && self.weight == 0
    }

    /// Whether at `now` the connection is out of use and has been silent for more than
    /// `timeout_secs`.
    pub fn is_stale_at(&self, now: u64, timeout_secs: u64) -> (b: bool)
        ensures
            b == self.stale(now, timeout_secs),
    {
        now.saturating_sub(self.last_activity) > timeout_secs && self.weight == 0
    }

    /// Whether the connection is out of use and has been silent for more than `timeout_secs`.
    pub fn is_stale(&self, timeout_secs: u64) -> (b: bool)
        ensures
            exists|now: u64| b == #[trigger] self.stale(now, timeout_secs),
    {
        let now: u64 = unix_now_secs();
        let b = self.is_stale_at(now, timeout_secs);
        assert(b == self.stale(now, timeout_secs));
        b
    }

    /// The bytes carried.
    pub fn total_bytes(&self) -> (n: u64)
        ensures
            n == self.total_bytes,
    {
        self.total_bytes
    }
}

/// No measurement takes the weight above full.
pub proof fn weight_stays_bounded(h: ConnHealth, rtt_us: u64, lost: u32, total: u32)
    requires
        h.wf(),
    ensures
        h.after_rtt(rtt_us).wf(),
        h.after_failure().wf(),
        h.after_loss(lost, total).wf(),
{
    smoothed_bounds(h.rtt_us as int, rtt_us as int);
    smoothed_bounds(
        h.loss_permille as int,
        if total == 0 {
            0
        } else {
            ConnHealth::loss_sample(lost, total)
        },
    );
}

/// The measurements after `n` failures.
pub open spec fn failing(h: ConnHealth, n: nat) -> ConnHealth
    decreases n,
{
    if n == 0 {
        h
    } else {
        failing(h, (n - 1) as nat).after_failure()
    }
}

/// As many failures in a row as the configuration allows take the connection out of use, and a
/// round trip in between starts the count again.
pub proof fn failures_kill(h: ConnHealth, rtt_us: u64, n: nat)
    requires
        n <= h.limits.max_failures,
    ensures
        failing(h.after_rtt(rtt_us), n).consecutive_failures == n,
        failing(h.after_rtt(rtt_us), n).limits == h.limits,
        0 < n < h.limits.max_failures ==> failing(h.after_rtt(rtt_us), n).weight == h.after_rtt(
            rtt_us,
        ).weight,
        0 < n == h.limits.max_failures ==> failing(h.after_rtt(rtt_us), n).weight == 0,
    decreases n,
{
    if n > 0 {
        failures_kill(h, rtt_us, (n - 1) as nat);
    }
}

/// A usable connection scores better than an unusable one whenever its score is not saturated.
pub proof fn dead_scores_worst(alive: ConnHealth, dead: ConnHealth)
    requires
        alive.weight > 0,
        dead.weight == 0,
    ensures
        alive.score_value() <= dead.score_value(),
        alive.rtt_us < u64::MAX / 4 ==> alive.score_value() < dead.score_value(),
{
}

/// The estimate moves three tenths of the way to a measurement; the first one is taken as it is.
pub proof fn estimates_move_three_tenths(old: int, sample: int)
    requires
        0 <= old,
        0 <= sample,
    ensures
        old == 0 ==> smoothed(old, sample) == sample,
        old > 0 ==> 10 * smoothed(old, sample) <= 7 * old + 3 * sample < 10 * smoothed(old, sample)
            + 10,
{
}

/// A measured round trip ends a row of failures. Where the estimate is then above the limit for
/// degraded connections twenty points of weight are lost; where it is below that for recovery, and
/// so is the loss, ten are won back, to a hundred at most; in between the weight stays.
pub proof fn round_trips_move_the_weight(h: ConnHealth, rtt_us: u64)
    requires
        h.wf(),
        h.limits.recovery_rtt_us <= h.limits.degraded_rtt_us,
    ensures
        ({
            let q = h.after_rtt(rtt_us);
            let v = q.rtt_us;
            let low_loss = h.loss_permille < h.limits.recovery_loss_permille;
            &&& q.consecutive_failures == 0
            &&& v > h.limits.degraded_rtt_us && h.weight >= 20 ==> q.weight == h.weight - 20
            &&& v > h.limits.degraded_rtt_us && h.weight < 20 ==> q.weight == 0
            &&& v < h.limits.recovery_rtt_us && low_loss && h.weight <= 90 ==> q.weight == h.weight
                + 10
            &&& v < h.limits.recovery_rtt_us && low_loss && h.weight > 90 ==> q.weight == 100
            &&& v < h.limits.recovery_rtt_us && !low_loss ==> q.weight == h.weight
            &&& h.limits.recovery_rtt_us <= v <= h.limits.degraded_rtt_us ==> q.weight == h.weight
            &&& q.loss_permille == h.loss_permille
            &&& q.active_streams == h.active_streams
            &&& q.total_bytes == h.total_bytes
            &&& q.limits == h.limits
            &&& h.rtt_us == 0 ==> v == rtt_us
            &&& h.rtt_us > 0 ==> 10 * v <= 7 * h.rtt_us + 3 * rtt_us < 10 * v + 10
        }),
{
    smoothed_bounds(h.rtt_us as int, rtt_us as int);
}

/// Each failure is counted; the one that reaches the limit takes the connection out of use, and
/// none before it does.
pub proof fn failures_are_counted(h: ConnHealth)
    requires
        h.consecutive_failures < u32::MAX,
    ensures
        h.after_failure().consecutive_failures == h.consecutive_failures + 1,
        h.consecutive_failures + 1 >= h.limits.max_failures ==> h.after_failure().weight == 0,
        h.consecutive_failures + 1 < h.limits.max_failures ==> h.after_failure().weight == h.weight,
        h.after_failure().rtt_us == h.rtt_us,
        h.after_failure().active_streams == h.active_streams,
        h.after_failure().total_bytes == h.total_bytes,
{
}

/// A loss is the lost packets per thousand, smoothed; above the limit it costs twenty points of
/// weight. Nothing sent is nothing measured.
pub proof fn losses_cost_weight(h: ConnHealth, lost: u32, total: u32)
    requires
        h.wf(),
        h.loss_permille == 0,
        lost <= total,
    ensures
        total == 0 ==> h.after_loss(lost, total) == h,
        total > 0 ==> {
            let q = h.after_loss(lost, total);
            &&& q.loss_permille * total <= lost * 1000 < (q.loss_permille + 1) * total
            &&& q.loss_permille > h.limits.degraded_loss_permille && h.weight >= 20 ==> q.weight
                == h.weight - 20
            &&& q.loss_permille > h.limits.degraded_loss_permille && h.weight < 20 ==> q.weight == 0
            &&& q.loss_permille <= h.limits.degraded_loss_permille ==> q.weight == h.weight
            &&& q.rtt_us == h.rtt_us
            &&& q.consecutive_failures == h.consecutive_failures
        },
{
    if total > 0 {
        let x = lost * 1000;
        let t = total as int;
        vstd::arithmetic::div_mod::lemma_fundamental_div_mod(x, t);
        let d = x / t;
        assert(0 <= d <= 1000) by (nonlinear_arith)
            requires
                x == t * d + x % t,
                0 <= x % t < t,
                0 <= x <= 1000 * t,
                t > 0,
        ;
        vstd::arithmetic::div_mod::lemma_small_mod(d as nat, 0x1_0000_0000);
        assert(d * t <= x < (d + 1) * t) by (nonlinear_arith)
            requires
                x == t * d + x % t,
                0 <= x % t < t,
        ;
    }
}

/// A connection in use is better the shorter its round trip, the smaller its loss and the fewer its
/// streams: a millisecond costs two points, a per mille of loss ten, a stream five.
pub proof fn score_counts_what_is_bad(h: ConnHealth, ms: int, loss: int, streams: int)
    requires
        h.weight > 0,
        h.rtt_us == ms * 1000,
        h.loss_permille == loss,
        h.active_streams == streams,
        ms < 0x1_0000_0000_0000,
    ensures
        h.score_value() == 2 * ms + 10 * loss + 5 * streams,
{
}

/// A connection is stale exactly if it is out of use and nothing went over it for longer than the
/// limit.
pub proof fn stale_is_dead_and_quiet(h: ConnHealth, now: u64, limit: u64)
    requires
        h.last_activity <= now,
    ensures
        h.stale(now, limit) <==> h.weight == 0 && now - h.last_activity > limit,
{
}

/// A fresh connection has full weight and nothing to its name.
pub proof fn fresh_is_at_full_weight(limits: Thresholds, now_us: u64, now: u64)
    ensures
        ({
            let h = ConnHealth::fresh(limits, now_us, now);
            &&& h.weight == 100
            &&& h.consecutive_failures == 0
            &&& h.active_streams == 0
            &&& h.total_bytes == 0
            &&& h.rtt_us == 0
            &&& h.loss_permille == 0
            &&& h.ping_sent_at is None
            &&& h.last_activity == now
            &&& h.limits == limits
            &&& h.score_value() == 0
        }),
{
}

} // verus!
