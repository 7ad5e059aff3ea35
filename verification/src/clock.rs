//! Access to the wall clock. The time that comes back is outside the
//! library's control, so nothing is promised of the value; every function
//! that consumes it states what holds whatever time came back.
use vstd::prelude::*;

verus! {

/// Relies on std::time::SystemTime::now: the wall clock, read once and
/// converted to whole milliseconds since the Unix epoch (zero if the
/// clock lies before the epoch). No promise is made about the value.
#[verifier::external_body]
pub fn now_millis() -> u64 {
    std::time::SystemTime::now()
        .duration_since(std::time::SystemTime::UNIX_EPOCH)
        .map(|d| d.as_millis() as u64)
        .unwrap_or(0)
}

} // verus!
