//! The reserved lock-time range.

use vstd::prelude::*;

verus! {

/// Upper bound, inclusive, of the lock-time values that are recorded.
pub const LOCK_TIME_THRESHOLD: u32 = 1000;

/// Whether a lock time lies in the reserved range `(0, LOCK_TIME_THRESHOLD]`.
pub open spec fn is_reserved_lock_time(lock_time: u32) -> bool {
    0 < lock_time <= LOCK_TIME_THRESHOLD
}

/// Tells whether a transaction with this lock time is recorded.
pub fn lock_time_is_reserved(lock_time: u32) -> (reserved: bool)
    ensures
        reserved == is_reserved_lock_time(lock_time),
{
    lock_time > 0 && lock_time <= LOCK_TIME_THRESHOLD
}

} // verus!
