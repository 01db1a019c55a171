//! The wall clock, read as milliseconds since the Unix epoch.

use vstd::prelude::*;

verus! {

/// Relies on std::time::SystemTime::now (read through duration_since and
/// as_millis) for the current wall-clock time in milliseconds; nothing can
/// be promised of a clock reading. A clock before the epoch or beyond the
/// range of u64 reads as 0.
#[verifier::external_body]
pub fn timestamp() -> u64 {
    match std::time::SystemTime::now().duration_since(std::time::UNIX_EPOCH) {
        Ok(elapsed) => u64::try_from(elapsed.as_millis()).unwrap_or(0),
        Err(_) => 0,
    }
}

} // verus!
