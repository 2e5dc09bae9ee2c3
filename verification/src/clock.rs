//! The wall clock: the local time of the `chrono` crate.

use chrono::Local;
use vstd::prelude::*;

verus! {

/// A point in time: whole seconds since the start of 1970, UTC, and the
/// nanoseconds that have passed since that second began.
#[derive(Clone, Copy, Debug, PartialEq, Eq)]
pub struct Timestamp {
    pub seconds: i64,
    pub nanoseconds: u32,
}

impl Timestamp {
    /// The nanoseconds from the start of 1970 to this point in time.
    pub open spec fn nanos(self) -> int {
        self.seconds * 1_000_000_000 + self.nanoseconds
    }
}

/// Calls `chrono::Local::now` and reads the time off with
/// `DateTime::timestamp` and `DateTime::timestamp_subsec_nanos`. Nothing is
/// claimed of the time that comes back: a clock may be set back between two
/// calls.
#[verifier::external_body]
pub(crate) fn now() -> Timestamp {
    let time = Local::now();
    Timestamp { seconds: time.timestamp(), nanoseconds: time.timestamp_subsec_nanos() }
}

} // verus!
