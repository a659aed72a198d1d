use vstd::prelude::*;

verus! {

/// Relies on chrono's `Utc::now().timestamp_millis()`: the current UTC
/// wall-clock time in milliseconds since the Unix epoch. Nothing is
/// promised of the value; every caller states what holds of any reading.
#[verifier::external_body]
pub(crate) fn now_millis() -> i64 {
    chrono::Utc::now().timestamp_millis()
}

} // verus!
