//! The clock.  Timestamps run through the model as opaque RFC 3339 text;
//! only this wrapper produces fresh ones.

use vstd::prelude::*;

verus! {

/// Relies on `chrono::Local::now` and `DateTime::to_rfc3339`: the current
/// local time, formatted as RFC 3339 text.  The value depends on the
/// clock, so nothing is promised about it.
#[verifier::external_body]
pub fn current_timestamp() -> (r: String) {
    chrono::Local::now().to_rfc3339()
}

} // verus!
