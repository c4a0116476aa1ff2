//! Durations built from millisecond counts.

use std::time::Duration;
use vstd::prelude::*;

verus! {

/// What `Duration::from_millis(ms)` returns.
pub uninterp spec fn duration_of_millis(ms: u64) -> Duration;

/// A `Duration` of `ms` milliseconds.
///
/// Calls `Duration::from_millis`; the contract only ties the result to its
/// argument through `duration_of_millis`.
#[verifier::external_body]
pub(crate) fn millis(ms: u64) -> (d: Duration)
    ensures
        d == duration_of_millis(ms),
{
    Duration::from_millis(ms)
}

} // verus!
