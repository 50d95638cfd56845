//! The wall clock, behind trusted wrappers: the time is outside the
//! program, so nothing is promised of the values, and the search is
//! verified for every reading.

use std::time::Instant;
use vstd::prelude::*;

verus! {

#[verifier::external_type_specification]
#[verifier::external_body]
pub struct ExInstant(Instant);

/// Relies on `std::time::Instant::now`: an opaque reading of the
/// monotonic clock.
#[verifier::external_body]
pub(crate) fn instant_now() -> (r: Instant) {
    Instant::now()
}

/// Relies on `std::time::Instant::elapsed`: the time since `start`,
/// converted to whole milliseconds.  The clock is outside the program,
/// so no value is promised.
#[verifier::external_body]
pub(crate) fn elapsed_ms(start: &Instant) -> (r: u64) {
    start.elapsed().as_millis() as u64
}

} // verus!
