//! Settings of the bonded TCP transport.

use crate::anytls::config::clamped;
use crate::health::{HealthConfig, Thresholds};
use std::time::Duration;
use vstd::prelude::*;

verus! {

/// Settings of the bonded TCP transport.
#[derive(Clone, Copy, Debug)]
pub struct TcpBondConfig {
    /// The number of bonded connections, in use between 1 and 8.
    pub bond_connections: usize,
    /// How long further connections may join a bond.
    pub bond_join_timeout: Duration,
    /// The time between attempts to replace a dead connection.
    pub bond_reconnect_interval: Duration,
    /// The time between pings of a connection.
    pub health_check_interval: Duration,
    /// How long a ping may take.
    pub health_check_timeout: Duration,
    /// Failures in a row that take a connection out of use.
    pub max_consecutive_failures: u32,
    /// A round trip above this many microseconds costs weight.
    pub degraded_rtt_us: u64,
    /// A round trip below this many microseconds lets weight recover.
    pub recovery_rtt_us: u64,
    /// A loss above this many per mille costs weight.
    pub degraded_loss_permille: u32,
    /// A loss below this many per mille lets weight recover.
    pub recovery_loss_permille: u32,
}

impl HealthConfig for TcpBondConfig {
    open spec fn limits(&self) -> Thresholds {
        Thresholds {
            max_failures: self.max_consecutive_failures,
            degraded_rtt_us: self.degraded_rtt_us,
            recovery_rtt_us: self.recovery_rtt_us,
            degraded_loss_permille: self.degraded_loss_permille,
            recovery_loss_permille: self.recovery_loss_permille,
        }
    }

    fn thresholds(&self) -> (t: Thresholds) {
        Thresholds {
            max_failures: self.max_consecutive_failures,
            degraded_rtt_us: self.degraded_rtt_us,
            recovery_rtt_us: self.recovery_rtt_us,
            degraded_loss_permille: self.degraded_loss_permille,
            recovery_loss_permille: self.recovery_loss_permille,
        }
    }
}

impl TcpBondConfig {
    /// Whether these are the defaults.
    pub open spec fn is_default(self) -> bool {
        &&& self.bond_connections == 3
        &&& self.bond_join_timeout == crate::clock::seconds(10)
        &&& self.bond_reconnect_interval == crate::clock::seconds(5)
        &&& self.health_check_interval == crate::clock::seconds(30)
        &&& self.health_check_timeout == crate::clock::seconds(5)
        &&& self.max_consecutive_failures == 3
        &&& self.degraded_rtt_us == 5_000_000
        &&& self.recovery_rtt_us == 2_000_000
        &&& self.degraded_loss_permille == 100
        &&& self.recovery_loss_permille == 30
    }

    /// The number of bonded connections that is used.
    pub fn effective_bond_connections(&self) -> (n: usize)
        ensures
            n == clamped(self.bond_connections),
            1 <= n <= 8,
    {
        if self.bond_connections < 1 {
            1
        } else if self.bond_connections > 8 {
            8
        } else {
            self.bond_connections
        }
    }
}

impl Default for TcpBondConfig {
    fn default() -> (c: TcpBondConfig)
        ensures
            c.is_default(),
    {
        TcpBondConfig {
            bond_connections: 3,
            bond_join_timeout: Duration::from_secs(10),
            bond_reconnect_interval: Duration::from_secs(5),
            health_check_interval: Duration::from_secs(30),
            health_check_timeout: Duration::from_secs(5),
            max_consecutive_failures: 3,
            degraded_rtt_us: 5_000_000,
            recovery_rtt_us: 2_000_000,
            degraded_loss_permille: 100,
            recovery_loss_permille: 30,
        }
    }
}

/// Makes `config` the one that is in force.
pub fn set_tcp_bond_config(slot: &mut Option<TcpBondConfig>, config: TcpBondConfig)
    ensures
        *final(slot) == Some(config),
{
    *slot = Some(config);
}

/// A copy of the settings in force, the defaults where none were set.
pub fn get_config_cloned(slot: &Option<TcpBondConfig>) -> (c: TcpBondConfig)
    ensures
        *slot matches Some(set) ==> c == set,
        *slot is None ==> c.is_default(),
{
    match slot {
        Some(set) => *set,
        None => TcpBondConfig::default(),
    }
}

/// The version of the bonded transport.
pub fn version() -> (v: &'static str)
    ensures
        v@ == crate::transport::base::VERSION@,
{
    crate::transport::base::VERSION
}

/// A bond has three connections unless it is told otherwise, waits ten seconds for all of them and
/// five between attempts, looks after each every thirty seconds and gives it up after three
/// failures. A link is bad above five seconds or a tenth lost, and good again below two and three
/// hundredths.
pub proof fn what_a_bond_does_by_default(c: TcpBondConfig)
    requires
        c.is_default(),
    ensures
        c.bond_connections == 3,
        c.bond_join_timeout == crate::clock::seconds(10),
        c.bond_reconnect_interval == crate::clock::seconds(5),
        c.health_check_interval == crate::clock::seconds(30),
        c.health_check_timeout == crate::clock::seconds(5),
        c.max_consecutive_failures == 3,
        c.degraded_rtt_us == 5_000_000,
        c.recovery_rtt_us == 2_000_000,
        c.degraded_loss_permille == 100,
        c.recovery_loss_permille == 30,
{
}

} // verus!
