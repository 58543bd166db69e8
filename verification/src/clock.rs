//! The time of day.

use vstd::prelude::*;
use crate::types::plan::Timestamp;

verus! {

/// `chrono::Utc::now`, as seconds since the Unix epoch and the nanoseconds
/// within the second. Nothing is known of the time that comes back.
#[verifier::external_body]
pub(crate) fn current_timestamp() -> Timestamp {
    let now = chrono::Utc::now();
    Timestamp { secs: now.timestamp(), nanos: now.timestamp_subsec_nanos() }
}

} // verus!
