//! The monotonic clock of std.

use vstd::prelude::*;
use std::time::{Duration, Instant};

verus! {

/// `Instant` of std, so that it can be named. Nothing is known of its values.
#[verifier::external_type_specification]
#[verifier::external_body]
pub struct ExInstant(Instant);

/// `Instant::now` of std: the present reading of the monotonic clock. Nothing is
/// known of it.
pub assume_specification[ Instant::now ]() -> (r: Instant);

/// `Instant::elapsed` of std: the time since the reading was taken. Nothing is
/// known of it.
pub assume_specification[ Instant::elapsed ](start: &Instant) -> (r: Duration);

/// `Duration::as_nanos` of std: the length in nanoseconds. The length of a
/// `Duration` is hidden from contracts, so nothing is stated.
pub assume_specification[ Duration::as_nanos ](d: &Duration) -> (r: u128);

/// The nanoseconds that have passed since `start`, and the largest `u64` where they
/// do not fit. What the clock reads is not known before it is read.
pub fn nanos_since(start: &Instant) -> (r: u64) {
    let elapsed = start.elapsed();
    let nanos: u128 = elapsed.as_nanos();
    saturating_nanos(nanos)
}

/// A number of nanoseconds in 64 bits: the number itself where it fits, and the
/// largest `u64` where it does not.
pub open spec fn saturated(nanos: u128) -> u64 {
    if nanos > u64::MAX {
        u64::MAX
    } else {
        nanos as u64
    }
}

/// A number of nanoseconds in 64 bits: the number itself where it fits, and the
/// largest `u64` where it does not.
pub fn saturating_nanos(nanos: u128) -> (r: u64)
    ensures
        r == saturated(nanos),
{
    if nanos > 0xffff_ffff_ffff_ffff {
        0xffff_ffff_ffff_ffff
    } else {
        nanos as u64
    }
}

} // verus!
