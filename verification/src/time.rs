//! What the library knows of `std::time`: the two parts of a `Duration`,
//! and the clock that stamps each record.
use vstd::prelude::*;
use std::time::Duration;
use std::time::Instant;

verus! {

/// `std::time::Instant`, which the library carries from the clock to the
/// record and never looks into.
#[verifier::external_type_specification]
#[verifier::external_body]
pub struct ExInstant(std::time::Instant);

/// The whole seconds in a duration: what `Duration::as_secs` returns.
pub uninterp spec fn secs_part(d: Duration) -> u64;

/// The part of a duration below one second, in nanoseconds: what
/// `Duration::subsec_nanos` returns.
pub uninterp spec fn nanos_part(d: Duration) -> u32;

/// `Duration::as_secs` is not verified here; the contract only gives its
/// result the name `secs_part`.
pub assume_specification[ std::time::Duration::as_secs ](d: &Duration) -> (s: u64)
    ensures
        s == secs_part(*d),
;

/// `Duration::subsec_nanos` is not verified here; the contract only gives
/// its result the name `nanos_part`.
pub assume_specification[ std::time::Duration::subsec_nanos ](d: &Duration) -> (n: u32)
    ensures
        n == nanos_part(*d),
;

/// `Duration` is `Copy`: its `clone` returns the value itself.
pub assume_specification[ <std::time::Duration as std::clone::Clone>::clone ](
    d: &Duration,
) -> (c: Duration)
    ensures
        c == *d,
;

/// `Duration::from_millis` is not verified here. As the standard library
/// documents it, the result is the duration of that many milliseconds:
/// its whole seconds are the thousands, and what is left stands in the
/// nanoseconds.
pub assume_specification[ std::time::Duration::from_millis ](ms: u64) -> (d: Duration)
    ensures
        secs_part(d) == ms / 1000,
        nanos_part(d) == (ms % 1000) * 1_000_000,
;

/// A duration in whole milliseconds; what is below a millisecond is cut
/// off, not rounded.
pub open spec fn millis(d: Duration) -> nat {
    (1000 * secs_part(d) + nanos_part(d) / 1_000_000) as nat
}

/// Reads the clock by `Instant::now`. Nothing is claimed of the result:
/// it differs from call to call.
#[verifier::external_body]
pub(crate) fn now() -> (t: Instant) {
    Instant::now()
}

} // verus!
