//! The time of day.

use vstd::prelude::*;

verus! {

/// The whole seconds since 1970 of `std::time::SystemTime::now`, 0 before that.
/// What time it is nothing here says.
#[verifier::external_body]
pub(crate) fn system_seconds() -> (r: u64) {
    std::time::SystemTime::now().duration_since(std::time::UNIX_EPOCH).map(|d| d.as_secs()).unwrap_or(0)
}

} // verus!
