//! The clock and the identifier source: the two inputs of the library that
//! depend on the moment and on chance.

use vstd::prelude::*;

verus! {

/// The largest number of milliseconds since the Unix epoch that chrono can
/// represent: the last millisecond of the year 262142, chrono's last year.
pub const MAX_TIMESTAMP_MILLIS: i64 = 8210266876799999;

/// Calls `chrono::Utc::now().timestamp_millis()`.
///
/// Of every outcome the contract claims only the range: chrono's `Utc::now`
/// panics when the system time lies before the Unix epoch, and a
/// `DateTime<Utc>` cannot lie after the year 262142 (chrono unwraps the
/// `None` that `DateTime::from_timestamp` gives beyond it). Which moment it is, is
/// left unsaid.
#[verifier::external_body]
pub(crate) fn now_millis() -> (t: i64)
    ensures
        0 <= t <= MAX_TIMESTAMP_MILLIS,
{
    chrono::Utc::now().timestamp_millis()
}

/// Calls `uuid::Uuid::new_v4().to_string()`.
///
/// The contract claims only that the text is 36 characters long (uuid's
/// hyphenated form); the random value itself is left unsaid.
#[verifier::external_body]
pub(crate) fn new_id() -> (s: String)
    ensures
        s@.len() == 36,
{
    uuid::Uuid::new_v4().to_string()
}

} // verus!
