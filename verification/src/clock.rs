//! Wall-clock readings, taken on trust: nothing is promised about the
//! values, since they depend on the moment of the call.

use vstd::prelude::*;

verus! {

/// Relies on chrono::Utc::now and DateTime::to_rfc3339: returns the
/// current time as an RFC 3339 string.  The value depends on the clock, so
/// nothing is claimed about it.  chrono panics when the system clock is
/// set before the Unix epoch; no `requires` can exclude that condition.
#[verifier::external_body]
pub fn now_rfc3339() -> (r: String) {
    chrono::Utc::now().to_rfc3339()
}

/// Relies on chrono::Utc::now and DateTime::timestamp: returns the current
/// Unix time in seconds.  The value depends on the clock, so nothing is
/// claimed about it.  chrono panics when the system clock is set before
/// the Unix epoch; no `requires` can exclude that condition.
#[verifier::external_body]
pub fn now_unix() -> (r: i64) {
    chrono::Utc::now().timestamp()
}

} // verus!
