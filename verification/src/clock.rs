//! The clock by which the library times a fetch. Nothing is known of a reading but its
//! type.

use vstd::prelude::*;

verus! {

/// A moment on the monotonic clock of `std`, carried through and never looked into.
#[verifier::external_type_specification]
#[verifier::external_body]
pub struct ExInstant(std::time::Instant);

/// `Instant::now` reads the clock: nothing is claimed of what it returns.
pub assume_specification[ std::time::Instant::now ]() -> (r: std::time::Instant);

/// `Instant::elapsed` gives the time since the moment: nothing is claimed of what it
/// returns, which depends on the time of the call.
pub assume_specification[ std::time::Instant::elapsed ](at: &std::time::Instant) -> (r:
    std::time::Duration);

/// `Duration::as_secs` gives the whole seconds of a duration. The durations of this
/// library are readings of the clock: nothing is claimed of the number.
pub assume_specification[ std::time::Duration::as_secs ](d: &std::time::Duration) -> (r: u64);

/// `Duration::as_millis` gives the whole milliseconds of a duration. The durations of
/// this library are readings of the clock: nothing is claimed of the number.
pub assume_specification[ std::time::Duration::as_millis ](d: &std::time::Duration) -> (r: u128);

} // verus!
