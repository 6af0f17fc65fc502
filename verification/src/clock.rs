//! Points in time.

use std::time::Instant;
use vstd::prelude::*;

verus! {

/// `std::time::Instant`, carried through without being looked into.
#[verifier::external_type_specification]
#[verifier::external_body]
pub struct ExInstant(Instant);

/// A point in time: seconds since the start of 1970 in UTC, and nanoseconds
/// since the second began.
#[derive(Debug, Clone, Copy, PartialEq, Eq, Structural)]
pub struct Timestamp {
    pub seconds: i64,
    pub nanos: u32,
}

impl Timestamp {
    /// The point in time as one number of nanoseconds.
    pub open spec fn unix_nanos(self) -> int {
        self.seconds * 1_000_000_000 + self.nanos
    }

    /// Whether the calendar can hold the point in time.
    pub open spec fn in_calendar(self) -> bool {
        &&& -200_000_000_000_000 <= self.seconds <= 200_000_000_000_000
        &&& self.nanos < 2_000_000_000
    }

    /// The nanoseconds from `earlier` to this point in time; negative where
    /// `earlier` is the later one.
    pub fn nanos_since(&self, earlier: &Timestamp) -> (r: i128)
        ensures
            r == self.unix_nanos() - earlier.unix_nanos(),
    {
        (self.seconds as i128 - earlier.seconds as i128) * 1_000_000_000 + (self.nanos as i128
            - earlier.nanos as i128)
    }

    /// The whole milliseconds since the start of 1970.
    pub open spec fn millis(self) -> int {
        self.seconds * 1000 + self.nanos as int / 1_000_000
    }

    /// The whole milliseconds since the start of 1970.
    pub fn unix_millis(&self) -> (r: i64)
        requires
            self.in_calendar(),
        ensures
            r == self.millis(),
    {
        self.seconds * 1000 + (self.nanos / 1_000_000) as i64
    }
}

/// `chrono::Utc::now`: the current time, which the calendar holds. Which time
/// that is depends on the machine's clock.
#[verifier::external_body]
pub(crate) fn utc_now() -> (r: Timestamp)
    ensures
        r.in_calendar(),
{
    let now = chrono::Utc::now();
    Timestamp { seconds: now.timestamp(), nanos: now.timestamp_subsec_nanos() }
}

/// `std::time::Instant::now`. Nothing is claimed of the instant.
#[verifier::external_body]
pub(crate) fn instant_now() -> Instant {
    Instant::now()
}

/// `std::time::Instant::elapsed`, in whole seconds. Nothing is claimed of the
/// number: it depends on the machine's clock.
#[verifier::external_body]
pub(crate) fn elapsed_seconds(since: &Instant) -> u64 {
    since.elapsed().as_secs()
}

} // verus!
