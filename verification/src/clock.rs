//! The wall clock.

use vstd::prelude::*;

verus! {

/// The seconds since the Unix epoch, read from the system clock with
/// `SystemTime::now`; zero where the clock stands before the epoch. Nothing
/// is promised of the value.
#[verifier::external_body]
pub(crate) fn unix_now() -> u64 {
    std::time::SystemTime::now().duration_since(std::time::UNIX_EPOCH).map(|d| d.as_secs()).unwrap_or(
        0,
    )
}

} // verus!
