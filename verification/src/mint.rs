//! What is computed from one transaction before it is recorded: whether it
//! is recorded at all, its fee, its first output, its first satoshi, and the
//! entry that these make.

use crate::entry::{LockTimeOrdinalEntry, TxidValue};
use crate::error::MintError;
use crate::numbers::{next_lock_time_number, next_number};
use crate::sat_range::{attributed_sat, first_sat};
use crate::threshold::{is_reserved_lock_time, lock_time_is_reserved};
use vstd::prelude::*;

verus! {

/// The parts of a transaction that recording reads.
#[derive(Debug, Clone, PartialEq, Eq)]
pub struct MintTransaction {
    /// Identifier of the transaction, in its fixed-width byte encoding.
    pub transaction_id: TxidValue,
    /// Lock time as the plain 32-bit consensus value.
    pub lock_time: u32,
    /// Number of inputs.
    pub input_count: usize,
    /// Value of each output, in output order.
    pub output_values: Vec<u64>,
    /// Total serialized size.
    pub total_size: u64,
    /// Weight in weight units.
    pub weight: u64,
}

/// What is derived from a transaction and the values of the outputs it spends.
#[derive(Debug, Clone, Copy, PartialEq, Eq)]
pub struct MintAttributes {
    /// Value of the inputs less value of the outputs.
    pub fee: u64,
    /// Total serialized size.
    pub size: u64,
    /// Weight in weight units.
    pub weight: u64,
    /// Value of the first output.
    pub value: u64,
    /// Ordinal of the first satoshi of the first input, 0 where unknown.
    pub sat: u64,
}

/// The sum of `values`.
pub open spec fn total(values: Seq<u64>) -> nat
    decreases values.len(),
{
    if values.len() == 0 {
        0
    } else {
        total(values.drop_last()) + values.last() as nat
    }
}

/// The fee of `tx` where `input_utxo_values` holds, input by input, the
/// value that each input spends: what goes in less what comes out. Values
/// beyond the last input are not counted.
pub open spec fn fee_of(tx: MintTransaction, input_utxo_values: Seq<u64>) -> int {
    total(input_utxo_values.take(tx.input_count as int)) - total(tx.output_values@)
}

/// The fee as a 64-bit value, or why there is none.
pub open spec fn fee_outcome(tx: MintTransaction, input_utxo_values: Seq<u64>) -> Result<
    u64,
    MintError,
> {
    if input_utxo_values.len() < tx.input_count {
        Err(MintError::MissingInputValue)
    } else if fee_of(tx, input_utxo_values) < 0 {
        Err(MintError::FeeUnderflow)
    } else if fee_of(tx, input_utxo_values) > u64::MAX {
        Err(MintError::FeeOverflow)
    } else {
        Ok(fee_of(tx, input_utxo_values) as u64)
    }
}

/// The attributes of `tx`, or why it has none: first what is wrong with the
/// fee, then a missing first output.
pub open spec fn attributes_outcome(
    tx: MintTransaction,
    input_sat_ranges: Option<Vec<&[u8]>>,
    input_utxo_values: Seq<u64>,
) -> Result<MintAttributes, MintError> {
    match fee_outcome(tx, input_utxo_values) {
        Err(error) => Err(error),
        Ok(fee) => if tx.output_values@.len() == 0 {
            Err(MintError::MissingOutput)
        } else {
            Ok(
                MintAttributes {
                    fee,
                    size: tx.total_size,
                    weight: tx.weight,
                    value: tx.output_values@[0],
                    sat: first_sat(input_sat_ranges) as u64,
                },
            )
        },
    }
}

/// The entry for `tx` in the block at `height` with header time `block_time`,
/// under the sequence number `number`.
pub open spec fn entry_of(
    tx: MintTransaction,
    attributes: MintAttributes,
    number: u32,
    height: u32,
    block_time: u32,
) -> LockTimeOrdinalEntry {
    LockTimeOrdinalEntry {
        transaction_id: tx.transaction_id,
        lock_time: tx.lock_time,
        number,
        block_height: height,
        block_time,
        fee: attributes.fee,
        size: attributes.size,
        weight: attributes.weight,
        value: attributes.value,
        sat: attributes.sat,
    }
}

/// What recording `tx` comes to, given whether the transaction is recorded
/// already and which number was issued last for its lock time.
///
/// `Ok(None)` stands for nothing to do: the lock time is not reserved, or the
/// transaction is recorded already and gets no second number. `Ok(Some(..))`
/// holds the entry to record, whose number is also the latest of its lock
/// time from then on.
pub open spec fn planned_mint(
    tx: MintTransaction,
    input_sat_ranges: Option<Vec<&[u8]>>,
    input_utxo_values: Seq<u64>,
    block_time: u32,
    height: u32,
    recorded: bool,
    latest: Option<u32>,
) -> Result<Option<LockTimeOrdinalEntry>, MintError> {
    if !is_reserved_lock_time(tx.lock_time) {
        Ok(None)
    } else {
        match attributes_outcome(tx, input_sat_ranges, input_utxo_values) {
            Err(error) => Err(error),
            Ok(attributes) => if recorded {
                Ok(None)
            } else if next_number(latest) > u32::MAX {
                Err(MintError::NumberExhausted)
            } else {
                Ok(Some(entry_of(tx, attributes, next_number(latest) as u32, height, block_time)))
            },
        }
    }
}

/// Sums the first `count` of `values`. Sixty-four bits may not hold the sum
/// of that many values, twice as many bits do.
fn total_value(values: &[u64], count: usize) -> (sum: u128)
    requires
        count <= values@.len(),
    ensures
        sum == total(values@.take(count as int)),
{
    let mut sum: u128 = 0;
    let mut done: usize = 0;
    while done < count
        invariant
            done <= count <= values@.len(),
            sum == total(values@.take(done as int)),
            sum <= done * u64::MAX,
        decreases count - done,
    {
        proof {
            let next = values@.take(done + 1);
            assert(next.drop_last() =~= values@.take(done as int));
            assert(next.last() == values@[done as int]);
            assert(done * u64::MAX + u64::MAX <= usize::MAX * u64::MAX) by (nonlinear_arith)
                requires
                    done < usize::MAX,
            ;
        }
        sum = sum + values[done] as u128;
        done = done + 1;
        assert(sum <= done * u64::MAX) by (nonlinear_arith)
            requires
                sum <= (done - 1) * u64::MAX + u64::MAX,
        ;
    }
    sum
}

/// Computes the fee of `tx` from the values that its inputs spend, given in
/// input order.
pub fn mint_fee(tx: &MintTransaction, input_utxo_values: &[u64]) -> (result: Result<u64, MintError>)
    ensures
        result == fee_outcome(*tx, input_utxo_values@),
{
    if input_utxo_values.len() < tx.input_count {
        return Err(MintError::MissingInputValue);
    }
    let total_input_value = total_value(input_utxo_values, tx.input_count);
    let outputs = tx.output_values.as_slice();
    assert(outputs@.take(outputs@.len() as int) =~= tx.output_values@);
    let total_output_value = total_value(outputs, outputs.len());
    if total_input_value < total_output_value {
        return Err(MintError::FeeUnderflow);
    }
    let fee = total_input_value - total_output_value;
    if fee > u64::MAX as u128 {
        return Err(MintError::FeeOverflow);
    }
    Ok(fee as u64)
}

/// Derives the attributes of `tx`: the fee, size and weight, the value of the
/// first output, and the first satoshi of the first input, which is 0 where
/// no satoshi ranges were supplied.
pub fn mint_attributes(
    tx: &MintTransaction,
    input_sat_ranges: &Option<Vec<&[u8]>>,
    input_utxo_values: &[u64],
) -> (result: Result<MintAttributes, MintError>)
    ensures
        result == attributes_outcome(*tx, *input_sat_ranges, input_utxo_values@),
{
    let fee = match mint_fee(tx, input_utxo_values) {
        Ok(fee) => fee,
        Err(error) => {
            return Err(error);
        },
    };
    if tx.output_values.len() == 0 {
        return Err(MintError::MissingOutput);
    }
    let sat = attributed_sat(input_sat_ranges);
    Ok(
        MintAttributes {
            fee,
            size: tx.total_size,
            weight: tx.weight,
            value: tx.output_values[0],
            sat,
        },
    )
}

/// Assembles the entry of `tx` under the sequence number `number`.
pub fn mint_entry(
    tx: &MintTransaction,
    attributes: &MintAttributes,
    number: u32,
    height: u32,
    block_time: u32,
) -> (entry: LockTimeOrdinalEntry)
    ensures
        entry == entry_of(*tx, *attributes, number, height, block_time),
{
    LockTimeOrdinalEntry {
        transaction_id: tx.transaction_id,
        lock_time: tx.lock_time,
        number,
        block_height: height,
        block_time,
        fee: attributes.fee,
        size: attributes.size,
        weight: attributes.weight,
        value: attributes.value,
        sat: attributes.sat,
    }
}

/// Decides what recording `tx` comes to, for a store that reports `recorded`
/// for the transaction's identifier and `latest` as the number issued last
/// for its lock time.
///
/// On `Ok(Some(entry))` the store is to keep `entry` under its transaction
/// identifier and `entry.number` as the latest number of `entry.lock_time`,
/// both or neither. On `Ok(None)` and on an error it is to change nothing.
pub fn plan_mint(
    tx: &MintTransaction,
    input_sat_ranges: &Option<Vec<&[u8]>>,
    input_utxo_values: &[u64],
    block_time: u32,
    height: u32,
    recorded: bool,
    latest: Option<u32>,
) -> (plan: Result<Option<LockTimeOrdinalEntry>, MintError>)
    ensures
        plan == planned_mint(
            *tx,
            *input_sat_ranges,
            input_utxo_values@,
            block_time,
            height,
            recorded,
            latest,
        ),
{
    if !lock_time_is_reserved(tx.lock_time) {
        return Ok(None);
    }
    let attributes = match mint_attributes(tx, input_sat_ranges, input_utxo_values) {
        Ok(attributes) => attributes,
        Err(error) => {
            return Err(error);
        },
    };
    if recorded {
        return Ok(None);
    }
    match next_lock_time_number(latest) {
        Some(number) => Ok(Some(mint_entry(tx, &attributes, number, height, block_time))),
        None => Err(MintError::NumberExhausted),
    }
}

} // verus!
