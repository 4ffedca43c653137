//! Elapsed time, counted in nanoseconds.

use vstd::prelude::*;

verus! {

/// The time waited once `nanos` more have gone by; it stops at the largest
/// number there is.
pub open spec fn waited(before: u64, nanos: u64) -> u64 {
    if before + nanos > u64::MAX {
        u64::MAX
    } else {
        (before + nanos) as u64
    }
}

/// Adds the time gone by to the time waited.
pub fn wait(before: u64, nanos: u64) -> (r: u64)
    ensures
        r == waited(before, nanos),
{
    if nanos > u64::MAX - before {
        u64::MAX
    } else {
        before + nanos
    }
}

} // verus!
