//! Wall-clock readings.

use vstd::prelude::*;

verus! {

/// Milliseconds since the Unix epoch, from `std::time::SystemTime::now`
/// (0 if the system clock reads before the epoch). Nothing is promised of
/// the value: it depends on the machine's clock.
#[verifier::external_body]
pub(crate) fn unix_time_ms() -> u64 {
    std::time::SystemTime::now().duration_since(std::time::UNIX_EPOCH).map(|d| d.as_millis() as u64).unwrap_or(0)
}

} // verus!
