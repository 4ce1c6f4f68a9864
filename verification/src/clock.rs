//! Time-of-day conversion for the environment shim.
//!
//! The statically linked transport expects a time-of-day entry point
//! reporting seconds and microseconds, while the host clock offers only a
//! millisecond reading. The reading is truncated to whole seconds and the
//! microsecond part is always reported as zero.

use vstd::prelude::*;

verus! {

/// Seconds-and-microseconds form of a host clock reading of `ms`
/// milliseconds, truncated to second precision.
pub fn timeval_from_millis(ms: u64) -> (r: (u64, u32))
    ensures
        r.0 == ms / 1000,
        r.1 == 0,
{
    (ms / 1000, 0)
}

} // verus!
