use vstd::prelude::*;
use time::OffsetDateTime;

verus! {

/// The current UTC time, in nanoseconds since the Unix epoch.
///
/// Calls `time::OffsetDateTime::now_utc` and `unix_timestamp_nanos`. The
/// value depends on the system clock, so nothing is claimed of it.
#[verifier::external_body]
pub(crate) fn now_unix_nanos() -> (t: i128) {
    OffsetDateTime::now_utc().unix_timestamp_nanos()
}

} // verus!
