//! The system clock, as seconds since the Unix epoch.

use vstd::prelude::*;

verus! {

/// Seconds since the Unix epoch, from the system clock (`SystemTime::now` of std);
/// zero when the clock is before the epoch. Nothing is claimed of the value.
#[verifier::external_body]
pub(crate) fn now_unix_secs() -> (r: u64) {
    std::time::SystemTime::now().duration_since(std::time::UNIX_EPOCH).unwrap_or_default().as_secs()
}

} // verus!
