//! The wall clock.
use vstd::prelude::*;

verus! {

/// Nanoseconds since the Unix epoch by the system clock (`SystemTime::now`),
/// saturating; 0 if the clock is set before the epoch. Nothing is promised
/// of the value: two reads may give any values.
#[verifier::external_body]
pub(crate) fn now_nanos() -> u64 {
    match std::time::SystemTime::now().duration_since(std::time::UNIX_EPOCH) {
        Ok(d) => u64::try_from(d.as_nanos()).unwrap_or(u64::MAX),
        Err(_) => 0,
    }
}

/// Whole milliseconds since the Unix epoch by the system clock.
pub fn now_millis() -> u64 {
    now_nanos() / 1_000_000
}

} // verus!
