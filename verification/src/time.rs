//! Instants and time spans.
//!
//! An instant is a count of nanoseconds on a monotonic clock, which the
//! caller reads. A clock that seems to run backwards counts as standing still.

use vstd::prelude::*;
use crate::constants::NANOS_PER_SECOND;

verus! {

/// The nanoseconds from `earlier` to `later`, none where `later` is not later.
pub open spec fn elapsed(earlier: u64, later: u64) -> int {
    if later >= earlier {
        later - earlier
    } else {
        0
    }
}

/// The nanoseconds from `earlier` to `later`, none where `later` is not later.
pub fn elapsed_nanos(earlier: u64, later: u64) -> (r: u64)
    ensures
        r == elapsed(earlier, later),
{
    if later >= earlier {
        later - earlier
    } else {
        0
    }
}

/// The nanoseconds in `seconds` seconds.
pub fn nanos_of(seconds: u64) -> (r: u128)
    ensures
        r == seconds * 1_000_000_000,
{
    assert(seconds * 1_000_000_000 <= 0xFFFF_FFFF_FFFF_FFFF * 1_000_000_000) by (nonlinear_arith)
        requires
            seconds <= 0xFFFF_FFFF_FFFF_FFFF,
    ;
    (seconds as u128) * (NANOS_PER_SECOND as u128)
}

/// Whether at least `seconds` seconds lie between `earlier` and `later`.
pub fn has_elapsed(earlier: u64, later: u64, seconds: u64) -> (r: bool)
    ensures
        r == (elapsed(earlier, later) >= seconds * 1_000_000_000),
{
    let span: u128 = elapsed_nanos(earlier, later) as u128;
    let need: u128 = nanos_of(seconds);
    span >= need
}

/// Whether more than `seconds` seconds lie between `earlier` and `later`.
pub fn is_older_than(earlier: u64, later: u64, seconds: u64) -> (r: bool)
    ensures
        r == (elapsed(earlier, later) > seconds * 1_000_000_000),
{
    let span: u128 = elapsed_nanos(earlier, later) as u128;
    let need: u128 = nanos_of(seconds);
    span > need
}

} // verus!
