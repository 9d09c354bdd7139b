//! The one place where the library reads the wall clock. Every other
//! function takes the reading as an argument, so the temporal logic is
//! verified for every possible clock value.

use vstd::prelude::*;

verus! {

/// Relies on `chrono::Utc::now` and `chrono::DateTime::timestamp`: the
/// current time as whole seconds since the Unix epoch. The result depends on
/// the machine's clock, so nothing is promised of it.
#[verifier::external_body]
fn utc_timestamp() -> i64 {
    chrono::Utc::now().timestamp()
}

/// The current clock reading on the non-negative seconds scale the library
/// uses; readings before the epoch are clamped to zero. The value is a clock
/// sample, so no more can be said of it.
pub fn now_seconds() -> u64 {
    let t = utc_timestamp();
    if t < 0 {
        0
    } else {
        t as u64
    }
}

} // verus!
