//! Wall-clock readings for timestamps and fresh identifiers.
//!
//! Nothing is promised of either value: both depend on the system clock at
//! the moment of the call, so contracts elsewhere never speak of them.

use vstd::prelude::*;

verus! {

/// Relies on `chrono::Utc::now`, read out through
/// `chrono::DateTime::timestamp_millis`: the current time as milliseconds
/// since the Unix epoch.
#[verifier::external_body]
pub fn now_millis() -> i64 {
    chrono::Utc::now().timestamp_millis()
}

/// Relies on `chrono::Utc::now`, read out through
/// `chrono::DateTime::timestamp_millis` and rendered by
/// `chrono::DateTime::to_rfc3339`: one clock reading, as milliseconds since
/// the Unix epoch and as the RFC 3339 string of the same instant. Records
/// stamped with this pair get an identifier derived from their creation
/// time.
#[verifier::external_body]
pub fn now_instant() -> (i64, String) {
    let now = chrono::Utc::now();
    (now.timestamp_millis(), now.to_rfc3339())
}

} // verus!
