//! Sequence numbers, one independent run of them per lock time.
//!
//! The table keeps, for each lock time that a number was issued for, the
//! number issued last. The first number of a lock time is 0.

use crate::error::MintError;
use std::collections::HashMap;
use vstd::prelude::*;

verus! {

broadcast use vstd::std_specs::hash::group_hash_axioms;

/// The number that follows `latest`: 0 where none was issued yet.
pub open spec fn next_number(latest: Option<u32>) -> nat {
    match latest {
        Some(number) => number as nat + 1,
        None => 0,
    }
}

/// How many numbers `numbers` records as issued for `lock_time`.
pub open spec fn issued_count(numbers: Map<u32, u32>, lock_time: u32) -> nat {
    next_number(numbers.get(lock_time))
}

/// Computes the number to issue after `latest`, or `None` where 32 bits
/// cannot hold it.
pub fn next_lock_time_number(latest: Option<u32>) -> (next: Option<u32>)
    ensures
        next_number(latest) <= u32::MAX ==> next == Some(next_number(latest) as u32),
        next_number(latest) > u32::MAX ==> next is None,
{
    match latest {
        Some(number) => number.checked_add(1),
        None => Some(0),
    }
}

/// The table from lock time to the number issued last.
pub struct LockTimeNumbers {
    latest: HashMap<u32, u32>,
}

impl View for LockTimeNumbers {
    type V = Map<u32, u32>;

    closed spec fn view(&self) -> Map<u32, u32> {
        self.latest@
    }
}

impl LockTimeNumbers {
    /// A table in which no number was issued.
    pub fn new() -> (numbers: Self)
        ensures
            numbers@ == Map::<u32, u32>::empty(),
    {
        LockTimeNumbers { latest: HashMap::new() }
    }

    /// The number issued last for `lock_time`, if any was.
    pub fn latest(&self, lock_time: u32) -> (latest: Option<u32>)
        ensures
            latest == self@.get(lock_time),
    {
        match self.latest.get(&lock_time) {
            Some(number) => Some(*number),
            None => None,
        }
    }

    /// How many numbers were issued for `lock_time`.
    pub fn issued(&self, lock_time: u32) -> (count: u64)
        ensures
            count == issued_count(self@, lock_time),
    {
        match self.latest(lock_time) {
            Some(number) => number as u64 + 1,
            None => 0,
        }
    }

    /// Notes `number` as the one issued last for `lock_time`.
    pub(crate) fn set_latest(&mut self, lock_time: u32, number: u32)
        ensures
            final(self)@ == old(self)@.insert(lock_time, number),
    {
        self.latest.insert(lock_time, number);
    }
}

/// Issues the next number for `lock_time` and notes it in the table.
///
/// The first number of a lock time is 0 and each later one is the one before
/// plus 1; the numbers of other lock times are not touched. Once a lock time
/// has reached the largest 32-bit number, nothing is issued and the table
/// stays as it is.
pub fn get_next_lock_time_number(numbers: &mut LockTimeNumbers, lock_time: u32) -> (result: Result<
    u32,
    MintError,
>)
    ensures
        match result {
            Ok(number) => {
                &&& number == issued_count(old(numbers)@, lock_time)
                &&& final(numbers)@ == old(numbers)@.insert(lock_time, number)
            },
            Err(error) => {
                &&& error == MintError::NumberExhausted
                &&& issued_count(old(numbers)@, lock_time) > u32::MAX
                &&& final(numbers)@ == old(numbers)@
            },
        },
{
    match next_lock_time_number(numbers.latest(lock_time)) {
        Some(number) => {
            numbers.set_latest(lock_time, number);
            Ok(number)
        },
        None => Err(MintError::NumberExhausted),
    }
}

} // verus!
