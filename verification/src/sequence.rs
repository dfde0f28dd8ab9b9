//! What holds of a ledger over several transactions processed in turn.

use crate::entry::TxidValue;
use crate::ledger::LedgerView;
use crate::mint::{attributes_outcome, MintTransaction};
use crate::numbers::issued_count;
use crate::threshold::is_reserved_lock_time;
use vstd::prelude::*;

verus! {

/// What one call of `process_mint` is given besides the ledger.
pub struct MintCall<'a> {
    /// The transaction.
    pub tx: MintTransaction,
    /// The packed satoshi ranges of its inputs, where satoshis are tracked.
    pub input_sat_ranges: Option<Vec<&'a [u8]>>,
    /// The value that each of its inputs spends.
    pub input_utxo_values: Seq<u64>,
    /// The header time of its block.
    pub block_time: u32,
    /// The height of its block.
    pub height: u32,
}

impl<'a> MintCall<'a> {
    /// Whether the call asks for an entry: the lock time is reserved and the
    /// transaction's attributes can be derived.
    pub open spec fn mints(self) -> bool {
        &&& is_reserved_lock_time(self.tx.lock_time)
        &&& attributes_outcome(self.tx, self.input_sat_ranges, self.input_utxo_values) is Ok
    }
}

/// The ledger after one call.
pub open spec fn after_call(ledger: LedgerView, call: MintCall) -> LedgerView {
    ledger.after_mint(
        call.tx,
        call.input_sat_ranges,
        call.input_utxo_values,
        call.block_time,
        call.height,
    )
}

/// The ledger after the calls were made in order.
pub open spec fn after_calls(ledger: LedgerView, calls: Seq<MintCall>) -> LedgerView
    decreases calls.len(),
{
    if calls.len() == 0 {
        ledger
    } else {
        after_call(after_calls(ledger, calls.drop_last()), calls.last())
    }
}

/// How many of the calls ask for an entry with this lock time.
pub open spec fn mints_with(calls: Seq<MintCall>, lock_time: u32) -> nat
    decreases calls.len(),
{
    if calls.len() == 0 {
        0
    } else {
        mints_with(calls.drop_last(), lock_time) + if calls.last().mints() && calls.last().tx.lock_time
            == lock_time {
            1nat
        } else {
            0nat
        }
    }
}

/// Whether one of the calls is for the transaction `id`.
pub open spec fn calls_for(calls: Seq<MintCall>, id: TxidValue) -> bool {
    exists|i: int| 0 <= i < calls.len() && #[trigger] calls[i].tx.transaction_id == id
}

/// The calls are for transactions that differ from each other and from
/// those that the ledger holds.
pub open spec fn calls_are_new(ledger: LedgerView, calls: Seq<MintCall>) -> bool {
    &&& forall|i: int, j: int|
        0 <= i < j < calls.len() ==> calls[i].tx.transaction_id != calls[j].tx.transaction_id
    &&& forall|i: int|
        0 <= i < calls.len() ==> !ledger.entries.contains_key(
            #[trigger] calls[i].tx.transaction_id,
        )
}

/// No lock time runs out of 32-bit numbers over the calls.
pub open spec fn numbers_suffice(ledger: LedgerView, calls: Seq<MintCall>) -> bool {
    forall|lock_time: u32|
        issued_count(ledger.numbers, lock_time) + #[trigger] mints_with(calls, lock_time)
            <= u32::MAX + 1
}

/// Sequence numbers follow the order of processing.
///
/// Over calls for new transactions, each transaction that asks for an entry
/// is recorded under the number that tells how many transactions with its
/// lock time were recorded before it: those of the ledger at the start and
/// those of the earlier calls. Calls with other lock times, calls whose lock
/// time is not reserved and calls that fail do not count, wherever they
/// stand among the others, and leave no entry.
pub proof fn lemma_numbers_follow_order(ledger: LedgerView, calls: Seq<MintCall>)
    requires
        calls_are_new(ledger, calls),
        numbers_suffice(ledger, calls),
    ensures
        forall|i: int|
            0 <= i < calls.len() && (#[trigger] calls[i]).mints() ==> {
                let id = calls[i].tx.transaction_id;
                let lock_time = calls[i].tx.lock_time;
                &&& after_calls(ledger, calls).entries.contains_key(id)
                &&& after_calls(ledger, calls).entries[id].lock_time == lock_time
                &&& after_calls(ledger, calls).entries[id].number == issued_count(
                    ledger.numbers,
                    lock_time,
                ) + mints_with(calls.take(i), lock_time)
            },
        forall|i: int|
            0 <= i < calls.len() && !(#[trigger] calls[i]).mints() ==> !after_calls(
                ledger,
                calls,
            ).entries.contains_key(calls[i].tx.transaction_id),
        forall|lock_time: u32|
            issued_count(after_calls(ledger, calls).numbers, lock_time) == issued_count(
                ledger.numbers,
                lock_time,
            ) + #[trigger] mints_with(calls, lock_time),
        forall|id: TxidValue| #[trigger]
            after_calls(ledger, calls).entries.contains_key(id) ==> ledger.entries.contains_key(id)
                || calls_for(calls, id),
        forall|id: TxidValue| #[trigger]
            ledger.entries.contains_key(id) ==> after_calls(ledger, calls).entries.contains_key(id)
                && after_calls(ledger, calls).entries[id] == ledger.entries[id],
    decreases calls.len(),
{
    if calls.len() > 0 {
        let rest = calls.drop_last();
        let call = calls.last();
        let id = call.tx.transaction_id;
        let lock_time = call.tx.lock_time;
        assert forall|i: int| 0 <= i < rest.len() implies !ledger.entries.contains_key(
            #[trigger] rest[i].tx.transaction_id,
        ) by {
            assert(rest[i] == calls[i]);
        }
        assert forall|other: u32|
            issued_count(ledger.numbers, other) + #[trigger] mints_with(rest, other) <= u32::MAX
                + 1 by {
            assert(mints_with(rest, other) <= mints_with(calls, other));
        }
        lemma_numbers_follow_order(ledger, rest);
        let before = after_calls(ledger, rest);
        let after = after_calls(ledger, calls);
        assert(after == after_call(before, call));
        assert(!before.entries.contains_key(id)) by {
            assert(calls[calls.len() - 1].tx.transaction_id == id);
            if calls_for(rest, id) {
                let i = choose|i: int|
                    0 <= i < rest.len() && #[trigger] rest[i].tx.transaction_id == id;
                assert(calls[i].tx.transaction_id == id);
            }
        }
        assert(issued_count(before.numbers, lock_time) == issued_count(ledger.numbers, lock_time)
            + mints_with(rest, lock_time));
        assert(calls.take(calls.len() - 1) =~= rest);
        assert forall|i: int| 0 <= i < rest.len() implies calls.take(i) =~= rest.take(i)
            && #[trigger] calls[i] == rest[i] by {}
        assert forall|i: int| 0 <= i < calls.len() && (#[trigger] calls[i]).mints() implies {
            let id = calls[i].tx.transaction_id;
            let lock_time = calls[i].tx.lock_time;
            &&& after.entries.contains_key(id)
            &&& after.entries[id].lock_time == lock_time
            &&& after.entries[id].number == issued_count(ledger.numbers, lock_time) + mints_with(
                calls.take(i),
                lock_time,
            )
        } by {
            if i < rest.len() {
                assert(rest[i].mints());
                assert(calls.take(i) =~= rest.take(i));
                assert(calls[i].tx.transaction_id != id);
            } else {
                assert(mints_with(calls, lock_time) == mints_with(rest, lock_time) + 1);
            }
        }
        assert forall|i: int| 0 <= i < calls.len() && !(#[trigger] calls[i]).mints() implies
            !after.entries.contains_key(calls[i].tx.transaction_id) by {
            if i < rest.len() {
                assert(!rest[i].mints());
                assert(calls[i].tx.transaction_id != id);
            }
        }
        assert forall|other: u32|
            issued_count(after.numbers, other) == issued_count(ledger.numbers, other)
                + #[trigger] mints_with(calls, other) by {
            assert(issued_count(before.numbers, other) == issued_count(ledger.numbers, other)
                + mints_with(rest, other));
            if call.mints() {
                assert(mints_with(calls, lock_time) == mints_with(rest, lock_time) + 1);
            }
        }
        assert forall|known: TxidValue| #[trigger]
            after.entries.contains_key(known) implies ledger.entries.contains_key(known)
            || calls_for(calls, known) by {
            if known == id {
                assert(calls[calls.len() - 1].tx.transaction_id == known);
            } else if !ledger.entries.contains_key(known) {
                assert(before.entries.contains_key(known));
                let i = choose|i: int|
                    0 <= i < rest.len() && #[trigger] rest[i].tx.transaction_id == known;
                assert(calls[i].tx.transaction_id == known);
            }
        }
        assert forall|known: TxidValue| #[trigger]
            ledger.entries.contains_key(known) implies after.entries.contains_key(known)
            && after.entries[known] == ledger.entries[known] by {
            assert(before.entries.contains_key(known));
        }
    }
}

/// On a ledger that starts empty, the transactions recorded with one lock
/// time carry the numbers 0, 1, 2 and so on in the order of their calls,
/// whatever calls stand between them.
pub proof fn lemma_numbers_count_from_zero(calls: Seq<MintCall>, i: int)
    requires
        calls_are_new(LedgerView::empty(), calls),
        calls.len() <= u32::MAX + 1,
        0 <= i < calls.len(),
        calls[i].mints(),
    ensures
        after_calls(LedgerView::empty(), calls).entries.contains_key(calls[i].tx.transaction_id),
        after_calls(LedgerView::empty(), calls).entries[calls[i].tx.transaction_id].number
            == mints_with(calls.take(i), calls[i].tx.lock_time),
{
    assert forall|lock_time: u32|
        issued_count(LedgerView::empty().numbers, lock_time) + #[trigger] mints_with(
            calls,
            lock_time,
        ) <= u32::MAX + 1 by {
        lemma_mints_with_bound(calls, lock_time);
    }
    lemma_numbers_follow_order(LedgerView::empty(), calls);
}

/// No more calls ask for an entry than there are calls.
proof fn lemma_mints_with_bound(calls: Seq<MintCall>, lock_time: u32)
    ensures
        mints_with(calls, lock_time) <= calls.len(),
    decreases calls.len(),
{
    if calls.len() > 0 {
        lemma_mints_with_bound(calls.drop_last(), lock_time);
    }
}

/// A transaction is numbered once.
///
/// Once a transaction with a reserved lock time was processed without
/// error, processing a transaction with the same identifier again changes
/// nothing, whatever else the second call is given: the entry stays and no
/// lock time gets a further number.
pub proof fn lemma_second_call_changes_nothing(
    ledger: LedgerView,
    first: MintCall,
    second: MintCall,
)
    requires
        is_reserved_lock_time(first.tx.lock_time),
        ledger.mint_result(
            first.tx,
            first.input_sat_ranges,
            first.input_utxo_values,
            first.block_time,
            first.height,
        ) is Ok,
        second.tx.transaction_id == first.tx.transaction_id,
    ensures
        after_call(ledger, first).entries.contains_key(first.tx.transaction_id),
        after_call(after_call(ledger, first), second) == after_call(ledger, first),
{
}

} // verus!
