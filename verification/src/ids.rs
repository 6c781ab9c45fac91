//! Fresh identifiers and the clock.

use vstd::prelude::*;

verus! {

/// `uuid::Uuid::new_v4().to_string()`: a random identifier. Nothing is
/// claimed of its value.
#[verifier::external_body]
pub(crate) fn fresh_id() -> String {
    uuid::Uuid::new_v4().to_string()
}

/// `chrono::Utc::now().timestamp_millis()`: the current time in
/// milliseconds since the Unix epoch. Nothing is claimed of its value.
#[verifier::external_body]
pub(crate) fn now_millis() -> i64 {
    chrono::Utc::now().timestamp_millis()
}

} // verus!
