//! Points in time, the clock and random waits.

use vstd::prelude::*;

verus! {

/// The latest second that a point in time can stand for.
pub const MAX_SECS: i64 = 8_210_266_876_799;

/// The last nanosecond of a second.
pub const MAX_NANOS: u32 = 999_999_999;

/// A point in time in UTC: seconds since the start of 1970, and nanoseconds.
#[derive(Debug, Clone, Copy, PartialEq, Eq, Structural)]
pub struct UtcTime {
    /// The whole seconds since the start of 1970
    pub secs: i64,
    /// The nanoseconds behind the whole seconds
    pub nanos: u32,
}

impl UtcTime {
    /// Whether this point in time is at or after another.
    pub open spec fn at_or_after(self, other: UtcTime) -> bool {
        self.secs > other.secs || (self.secs == other.secs && self.nanos >= other.nanos)
    }

    /// The point in time `wait` seconds later, or the last one that there is where
    /// time ends before that.
    pub open spec fn later(self, wait: nat) -> UtcTime {
        if self.secs + wait <= MAX_SECS {
            UtcTime { secs: (self.secs + wait) as i64, nanos: self.nanos }
        } else {
            UtcTime { secs: MAX_SECS, nanos: MAX_NANOS }
        }
    }

    /// The point in time `wait` seconds later, or the last one that there is where
    /// time ends before that.
    pub fn add_secs(self, wait: u64) -> (r: UtcTime)
        ensures
            r == self.later(wait as nat),
    {
        let secs: i128 = self.secs as i128 + wait as i128;
        if secs <= MAX_SECS as i128 {
            UtcTime { secs: secs as i64, nanos: self.nanos }
        } else {
            UtcTime { secs: MAX_SECS, nanos: MAX_NANOS }
        }
    }

    /// Whether this point in time is at or after another.
    pub fn reached(self, other: UtcTime) -> (r: bool)
        ensures
            r == self.at_or_after(other),
    {
        self.secs > other.secs || (self.secs == other.secs && self.nanos >= other.nanos)
    }
}

/// `chrono::Utc::now`: the present time of the system clock. Nothing is said of which
/// time that is.
#[verifier::external_body]
pub(crate) fn now() -> (r: UtcTime)
    ensures
        0 <= r.secs <= MAX_SECS,
        r.nanos <= MAX_NANOS,
{
    let now = chrono::Utc::now();
    UtcTime { secs: now.timestamp(), nanos: now.timestamp_subsec_nanos() }
}

/// `Rng::random_range` of `rand`'s thread-local generator: some number between the two
/// given ones, which are both possible.
#[verifier::external_body]
pub(crate) fn random_between(low: u64, high: u64) -> (r: u64)
    requires
        low <= high,
    ensures
        low <= r <= high,
{
    rand::Rng::random_range(&mut rand::rng(), low..=high)
}

} // verus!
