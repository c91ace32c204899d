//! Points in time, counted in nanoseconds on a clock that does not go
//! backwards and is read outside, and timestamps from the time of day.

use vstd::prelude::*;

verus! {

/// A point in time.
#[derive(Debug, Clone, Copy, PartialEq, Eq, Structural)]
pub struct Instant {
    /// Nanoseconds since the clock's origin.
    pub nanos: u64,
}

/// Nanoseconds in a millisecond.
pub const NANOS_PER_MILLI: u64 = 1_000_000;

/// Nanoseconds in a second.
pub const NANOS_PER_SEC: u64 = 1_000_000_000;

/// Nanoseconds from `from` to `to`: none where `to` is not later.
pub open spec fn nanos_between(from: Instant, to: Instant) -> int {
    if to.nanos >= from.nanos {
        to.nanos - from.nanos
    } else {
        0
    }
}

impl Instant {
    /// Nanoseconds from `earlier` to this instant; none where it is not earlier.
    pub fn duration_since(self, earlier: Instant) -> (r: u64)
        ensures
            r == nanos_between(earlier, self),
    {
        self.nanos.saturating_sub(earlier.nanos)
    }

    /// Whole seconds from `earlier` to this instant, in 32 bits.
    pub fn seconds_since(self, earlier: Instant) -> (r: u32)
        ensures
            r == (nanos_between(earlier, self) / NANOS_PER_SEC as int) % 0x1_0000_0000,
    {
        let secs: u64 = self.duration_since(earlier) / NANOS_PER_SEC;
        assert(#[verifier::truncate] (secs as u32) == secs % 0x1_0000_0000) by (bit_vector);
        #[verifier::truncate]
        let r: u32 = secs as u32;
        r
    }
}

/// Calls `chrono::Utc::now` and `timestamp_micros`: the time of day in
/// microseconds. Nothing is said of the result, which depends on the clock.
#[verifier::external_body]
pub(crate) fn utc_micros() -> (r: i64) {
    chrono::Utc::now().timestamp_micros()
}

/// Calls `chrono::Local::now` and formats the result. Nothing is said of the
/// text, which depends on the clock and the time zone. The two formats are
/// valid: formatting panics on one that is not.
#[verifier::external_body]
pub(crate) fn local_time_text(format: &str) -> (r: String)
    requires
        format@ == "%Y%m%d_%H%M%S"@ || format@ == "%Y-%m-%d %H:%M:%S"@,
{
    chrono::Local::now().format(format).to_string()
}

} // verus!
