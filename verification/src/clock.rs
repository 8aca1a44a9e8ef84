//! Durations and the wall clock.

use std::time::{Duration, SystemTime, SystemTimeError, UNIX_EPOCH};
use vstd::prelude::*;

verus! {

/// `std::time::SystemTime`, a reading of the wall clock.
#[verifier::external_type_specification]
#[verifier::external_body]
pub struct ExSystemTime(SystemTime);

/// `std::time::SystemTimeError`: a reading that lies before the one it was compared with.
#[verifier::external_type_specification]
#[verifier::external_body]
pub struct ExSystemTimeError(SystemTimeError);

/// The duration of a whole number of seconds.
pub uninterp spec fn seconds(secs: u64) -> Duration;

/// The whole seconds of a duration, its fraction aside.
pub uninterp spec fn whole_secs(d: Duration) -> u64;

/// `Duration::from_secs` makes a duration of whole seconds.
pub assume_specification[ Duration::from_secs ](secs: u64) -> (d: Duration)
    ensures
        d == seconds(secs),
        whole_secs(d) == secs,
;

/// `Duration::as_secs` gives the whole seconds of a duration.
pub assume_specification[ Duration::as_secs ](d: &Duration) -> (secs: u64)
    ensures
        secs == whole_secs(*d),
;

/// `SystemTime::now` reads the wall clock. Nothing is claimed of the reading.
pub assume_specification[ SystemTime::now ]() -> SystemTime
;

/// `SystemTime::duration_since` with the Unix epoch: the time from the epoch to `t`, an error if
/// `t` is earlier. The reading is opaque, so nothing is claimed of the duration.
#[verifier::external_body]
fn since_epoch(t: SystemTime) -> Result<Duration, SystemTimeError> {
    t.duration_since(UNIX_EPOCH)
}

/// The seconds that a comparison with the epoch stands for: zero before the epoch.
pub fn epoch_secs(since: Result<Duration, SystemTimeError>) -> (secs: u64)
    ensures
        secs == match since {
            Ok(d) => whole_secs(d),
            Err(_) => 0,
        },
{
    match since {
        Ok(d) => d.as_secs(),
        Err(_) => 0,
    }
}

/// Seconds since the Unix epoch by the wall clock.
pub fn unix_now_secs() -> u64 {
    epoch_secs(since_epoch(SystemTime::now()))
}

} // verus!
