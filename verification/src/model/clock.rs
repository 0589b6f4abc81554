use vstd::prelude::*;

verus! {

/// Microseconds since the Unix epoch, in UTC.
pub type Timestamp = i64;

/// The current time.
///
/// Calls `chrono::Utc::now` and reads it with `DateTime::timestamp_micros`.
/// Nothing is promised of the value: it is whatever the system clock says.
#[verifier::external_body]
pub(crate) fn now() -> (t: Timestamp) {
    chrono::Utc::now().timestamp_micros()
}

} // verus!
