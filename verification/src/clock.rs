//! Wall-clock reads. Nothing can be promised of the current time, so these
//! carry no contract; every function that decides something takes the time as
//! a plain argument and is verified for every value of it.

use std::time::{Duration, SystemTime, UNIX_EPOCH};
use vstd::prelude::*;

verus! {

/// Relies on `std::time::SystemTime::now`: microseconds since the Unix epoch,
/// zero when the clock reads earlier than the epoch or past `u64` range.
#[verifier::external_body]
pub fn now_us() -> u64 {
    let now = SystemTime::now().duration_since(UNIX_EPOCH).unwrap_or_else(
        |_| Duration::from_secs(0),
    );
    now.as_micros().try_into().unwrap_or(0)
}

/// Relies on `std::time::SystemTime::now`: milliseconds since the Unix epoch,
/// zero when the clock reads earlier than the epoch or past `u64` range.
#[verifier::external_body]
pub fn now_ms() -> u64 {
    let now = SystemTime::now().duration_since(UNIX_EPOCH).unwrap_or_else(
        |_| Duration::from_secs(0),
    );
    now.as_millis().try_into().unwrap_or(0)
}

} // verus!
