//! The wall clock.

use vstd::prelude::*;

verus! {

/// Reads the wall clock with `std::time::SystemTime::now` and gives the
/// milliseconds since the Unix epoch, or 0 for a clock set before it.
///
/// Nothing is claimed of the result: two calls may give any two values.
#[verifier::external_body]
pub fn system_millis() -> u64 {
    std::time::SystemTime::now().duration_since(std::time::UNIX_EPOCH).unwrap_or_default().as_millis() as u64
}

} // verus!
