//! The time of day, as text.

use vstd::prelude::*;

verus! {

/// Calls `chrono::Utc::now` and writes the time with
/// `DateTime::to_rfc3339`. The result depends on when the call is made:
/// nothing is promised of it.
#[verifier::external_body]
pub(crate) fn now_rfc3339() -> (out: String) {
    chrono::Utc::now().to_rfc3339()
}

} // verus!
