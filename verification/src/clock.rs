//! The wall clock.

use vstd::prelude::*;

verus! {

/// Reads `std::time::SystemTime::now`, as nanoseconds since the Unix epoch.
/// `None` when the clock stands before the epoch. Nothing else is claimed of
/// the reading.
#[verifier::external_body]
pub(crate) fn since_epoch() -> (nanos: Option<u128>) {
    std::time::SystemTime::now()
        .duration_since(std::time::UNIX_EPOCH)
        .ok()
        .map(|d| d.as_nanos())
}

/// The seed that a clock reading stands for: its low 64 bits, or a fixed value
/// where there is no reading.
pub open spec fn seed_of(nanos: Option<u128>) -> u64 {
    match nanos {
        Some(n) => n as u64,
        None => 0x5EED,
    }
}

/// A seed from a clock reading.
pub fn clock_seed(nanos: Option<u128>) -> (seed: u64)
    ensures
        seed == seed_of(nanos),
{
    match nanos {
        Some(n) => n as u64,
        None => 0x5EED,
    }
}

/// The Unix time, in whole seconds, of a clock reading. Zero for a clock that
/// stands before the epoch.
pub open spec fn seconds_of(nanos: Option<u128>) -> i64 {
    match nanos {
        Some(n) => (n / 1_000_000_000) as u64 as i64,
        None => 0,
    }
}

/// Whole seconds since the epoch.
pub fn unix_seconds(nanos: Option<u128>) -> (secs: i64)
    ensures
        secs == seconds_of(nanos),
{
    match nanos {
        Some(n) => (n / 1_000_000_000) as u64 as i64,
        None => 0,
    }
}

/// The current Unix time in seconds.
pub fn now_unix() -> (secs: i64)
    ensures
        exists|nanos: Option<u128>| secs == #[trigger] seconds_of(nanos),
{
    unix_seconds(since_epoch())
}

} // verus!
