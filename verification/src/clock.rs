//! Points in time, and the system clock.

use std::time::{Duration, UNIX_EPOCH};
use vstd::prelude::*;

verus! {

/// Number of nanoseconds in a second.
pub const NANOS_PER_SECOND: u128 = 1_000_000_000;

/// A point in time: the nanoseconds that have passed since the Unix epoch.
#[derive(Clone, Copy, Debug, PartialEq, Eq, Structural)]
pub struct Timestamp {
    pub nanos: u128,
}

impl Timestamp {
    /// More than `seconds` seconds lie between `earlier` and this point in
    /// time. A point in time that lies before `earlier` is not later than it
    /// by any margin.
    pub open spec fn later_by_more_than(self, earlier: Timestamp, seconds: u64) -> bool {
        self.nanos - earlier.nanos > seconds * NANOS_PER_SECOND
    }

    /// The point in time `secs` seconds after the Unix epoch.
    pub fn from_secs(secs: u64) -> (t: Timestamp)
        ensures
            t.nanos == secs * NANOS_PER_SECOND,
    {
        Timestamp { nanos: (secs as u128) * NANOS_PER_SECOND }
    }

    /// Whether more than `seconds` seconds lie between `earlier` and this
    /// point in time.
    pub fn is_later_by_more_than(&self, earlier: Timestamp, seconds: u64) -> (r: bool)
        ensures
            r == self.later_by_more_than(earlier, seconds),
    {
        self.nanos > earlier.nanos && self.nanos - earlier.nanos > (seconds as u128)
            * NANOS_PER_SECOND
    }

    /// The current reading of the system clock. A clock that is set before
    /// the Unix epoch reads as the epoch.
    ///
    /// Nothing more is known of the reading: two calls may give any two
    /// points in time.
    pub fn now() -> Timestamp {
        let elapsed: Option<u128> = match since_epoch() {
            Some(duration) => Some(duration.as_nanos()),
            None => None,
        };
        Timestamp::from_elapsed(elapsed)
    }

    /// The point in time that a reading of the clock stands for: that many
    /// nanoseconds after the Unix epoch, or the epoch itself where the clock
    /// gave no time since the epoch.
    pub open spec fn of_elapsed(elapsed: Option<u128>) -> Timestamp {
        match elapsed {
            Some(nanos) => Timestamp { nanos },
            None => Timestamp { nanos: 0 },
        }
    }

    /// The point in time that a reading of the clock stands for.
    pub fn from_elapsed(elapsed: Option<u128>) -> (t: Timestamp)
        ensures
            t == Timestamp::of_elapsed(elapsed),
    {
        match elapsed {
            Some(nanos) => Timestamp { nanos },
            None => Timestamp { nanos: 0 },
        }
    }
}

/// The time that has passed since the Unix epoch by the system clock, read
/// with `SystemTime::elapsed` on `UNIX_EPOCH`; `None` where the clock is set
/// before the epoch. Nothing is claimed of the result.
#[verifier::external_body]
fn since_epoch() -> Option<Duration> {
    match UNIX_EPOCH.elapsed() {
        Ok(duration) => Some(duration),
        Err(_) => None,
    }
}

/// `Duration::as_nanos` gives the whole number of nanoseconds of a duration.
/// Nothing is claimed of the result.
pub assume_specification[ Duration::as_nanos ](duration: &Duration) -> (nanos: u128)
;

} // verus!
