//! The ledger: the entries, keyed by transaction identifier, and the number
//! issued last for each lock time. Recording a transaction changes both or
//! neither.

use crate::entry::{LockTimeOrdinalEntry, TxidValue};
use crate::error::MintError;
use crate::mint::{fee_of, plan_mint, planned_mint, MintTransaction};
use crate::numbers::{issued_count, LockTimeNumbers};
use crate::sat_range::first_sat;
use crate::threshold::is_reserved_lock_time;
use vstd::prelude::*;

verus! {

/// What a ledger holds, as two maps.
pub struct LedgerView {
    /// The entry of each recorded transaction, by transaction identifier.
    pub entries: Map<TxidValue, LockTimeOrdinalEntry>,
    /// The number issued last for each lock time that has one.
    pub numbers: Map<u32, u32>,
}

impl LedgerView {
    /// The ledger in which nothing is recorded.
    pub open spec fn empty() -> LedgerView {
        LedgerView { entries: Map::empty(), numbers: Map::empty() }
    }

    /// Whether some entry has this lock time and this number.
    pub open spec fn holds_number(self, lock_time: u32, number: u32) -> bool {
        exists|id: TxidValue| #[trigger]
            self.entries.contains_key(id) && self.entries[id].lock_time == lock_time
                && self.entries[id].number == number
    }

    /// What holds of every ledger that recording has built.
    ///
    /// Each entry is kept under its own identifier and has a reserved lock
    /// time. The numbers of the entries of one lock time are those from 0 to
    /// the lock time's latest number, each of them once.
    pub open spec fn consistent(self) -> bool {
        &&& forall|id: TxidValue| #[trigger]
            self.entries.contains_key(id) ==> {
                &&& self.entries[id].transaction_id == id
                &&& is_reserved_lock_time(self.entries[id].lock_time)
                &&& self.numbers.contains_key(self.entries[id].lock_time)
                &&& self.entries[id].number <= self.numbers[self.entries[id].lock_time]
            }
        &&& forall|first: TxidValue, second: TxidValue|
            #![trigger self.entries.contains_key(first), self.entries.contains_key(second)]
            self.entries.contains_key(first) && self.entries.contains_key(second) && first
                != second && self.entries[first].lock_time == self.entries[second].lock_time
                ==> self.entries[first].number != self.entries[second].number
        &&& forall|lock_time: u32, number: u32|
            self.numbers.contains_key(lock_time) && number <= self.numbers[lock_time]
                ==> #[trigger] self.holds_number(lock_time, number)
    }

    /// What recording `tx` comes to on this ledger.
    pub open spec fn plan(
        self,
        tx: MintTransaction,
        input_sat_ranges: Option<Vec<&[u8]>>,
        input_utxo_values: Seq<u64>,
        block_time: u32,
        height: u32,
    ) -> Result<Option<LockTimeOrdinalEntry>, MintError> {
        planned_mint(
            tx,
            input_sat_ranges,
            input_utxo_values,
            block_time,
            height,
            self.entries.contains_key(tx.transaction_id),
            self.numbers.get(tx.lock_time),
        )
    }

    /// The ledger with `entry` kept under its identifier and its number as
    /// the latest of its lock time.
    pub open spec fn with_entry(self, entry: LockTimeOrdinalEntry) -> LedgerView {
        LedgerView {
            entries: self.entries.insert(entry.transaction_id, entry),
            numbers: self.numbers.insert(entry.lock_time, entry.number),
        }
    }

    /// The ledger after `tx` was processed: with the planned entry where
    /// there is one, and unchanged otherwise.
    pub open spec fn after_mint(
        self,
        tx: MintTransaction,
        input_sat_ranges: Option<Vec<&[u8]>>,
        input_utxo_values: Seq<u64>,
        block_time: u32,
        height: u32,
    ) -> LedgerView {
        match self.plan(tx, input_sat_ranges, input_utxo_values, block_time, height) {
            Ok(Some(entry)) => self.with_entry(entry),
            _ => self,
        }
    }

    /// What processing `tx` reports.
    pub open spec fn mint_result(
        self,
        tx: MintTransaction,
        input_sat_ranges: Option<Vec<&[u8]>>,
        input_utxo_values: Seq<u64>,
        block_time: u32,
        height: u32,
    ) -> Result<(), MintError> {
        match self.plan(tx, input_sat_ranges, input_utxo_values, block_time, height) {
            Ok(_) => Ok(()),
            Err(error) => Err(error),
        }
    }

    /// Recording an entry that is new, has a reserved lock time and carries
    /// the next number of that lock time keeps a ledger consistent.
    pub proof fn lemma_with_entry_consistent(self, entry: LockTimeOrdinalEntry)
        requires
            self.consistent(),
            !self.entries.contains_key(entry.transaction_id),
            is_reserved_lock_time(entry.lock_time),
            entry.number == issued_count(self.numbers, entry.lock_time),
        ensures
            self.with_entry(entry).consistent(),
    {
        let after = self.with_entry(entry);
        assert forall|lock_time: u32, number: u32|
            after.numbers.contains_key(lock_time) && number
                <= after.numbers[lock_time] implies #[trigger] after.holds_number(
            lock_time,
            number,
        ) by {
            if lock_time == entry.lock_time && number == entry.number {
                assert(after.entries.contains_key(entry.transaction_id));
            } else {
                assert(self.numbers.contains_key(lock_time) && number <= self.numbers[lock_time]);
                assert(self.holds_number(lock_time, number));
                let id = choose|id: TxidValue| #[trigger]
                    self.entries.contains_key(id) && self.entries[id].lock_time == lock_time
                        && self.entries[id].number == number;
                assert(after.entries.contains_key(id));
            }
        }
    }
}

/// The map that a list of entries stands for: each entry under its own
/// identifier, a later one in place of an earlier one with the same.
pub closed spec fn entry_map(entries: Seq<LockTimeOrdinalEntry>) -> Map<
    TxidValue,
    LockTimeOrdinalEntry,
>
    decreases entries.len(),
{
    if entries.len() == 0 {
        Map::empty()
    } else {
        entry_map(entries.drop_last()).insert(entries.last().transaction_id, entries.last())
    }
}

/// No two entries of the list have the same identifier.
spec fn distinct_ids(entries: Seq<LockTimeOrdinalEntry>) -> bool {
    forall|i: int, j: int|
        0 <= i < j < entries.len() ==> entries[i].transaction_id != entries[j].transaction_id
}

/// Whether the list holds an entry with this identifier.
spec fn lists_id(entries: Seq<LockTimeOrdinalEntry>, id: TxidValue) -> bool {
    exists|i: int| 0 <= i < entries.len() && #[trigger] entries[i].transaction_id == id
}

/// The map of a list without repeated identifiers holds just the listed
/// entries, each under its identifier.
proof fn lemma_entry_map(entries: Seq<LockTimeOrdinalEntry>)
    requires
        distinct_ids(entries),
    ensures
        forall|id: TxidValue| #[trigger]
            entry_map(entries).contains_key(id) <==> lists_id(entries, id),
        forall|i: int|
            0 <= i < entries.len() ==> entry_map(entries)[#[trigger] entries[i].transaction_id]
                == entries[i],
    decreases entries.len(),
{
    if entries.len() > 0 {
        let rest = entries.drop_last();
        lemma_entry_map(rest);
        assert forall|id: TxidValue| #[trigger]
            entry_map(entries).contains_key(id) <==> lists_id(entries, id) by {
            if id == entries.last().transaction_id {
                assert(entries[entries.len() - 1].transaction_id == id);
            } else if entry_map(rest).contains_key(id) {
                let i = choose|i: int| 0 <= i < rest.len() && #[trigger] rest[i].transaction_id == id;
                assert(entries[i].transaction_id == id);
            } else if lists_id(entries, id) {
                let i = choose|i: int|
                    0 <= i < entries.len() && #[trigger] entries[i].transaction_id == id;
                assert(rest[i].transaction_id == id);
            }
        }
        assert forall|i: int| 0 <= i < entries.len() implies entry_map(
            entries,
        )[#[trigger] entries[i].transaction_id] == entries[i] by {
            if i < entries.len() - 1 {
                assert(rest[i] == entries[i]);
            }
        }
    }
}

/// Compares two transaction identifiers byte by byte.
fn same_txid(first: &TxidValue, second: &TxidValue) -> (same: bool)
    ensures
        same == (*first == *second),
{
    let mut i: usize = 0;
    while i < 32
        invariant
            i <= 32,
            forall|j: int| 0 <= j < i ==> first@[j] == second@[j],
        decreases 32 - i,
    {
        if first[i] != second[i] {
            return false;
        }
        i = i + 1;
    }
    assert(*first =~= *second);
    true
}

/// A ledger held in memory.
pub struct LockTimeLedger {
    entries: Vec<LockTimeOrdinalEntry>,
    numbers: LockTimeNumbers,
}

impl View for LockTimeLedger {
    type V = LedgerView;

    closed spec fn view(&self) -> LedgerView {
        LedgerView { entries: entry_map(self.entries@), numbers: self.numbers@ }
    }
}

impl LockTimeLedger {
    /// Whether the ledger is one that `new` and `process_mint` have built.
    pub closed spec fn wf(&self) -> bool {
        &&& distinct_ids(self.entries@)
        &&& self@.consistent()
    }

    /// A well-formed ledger is consistent.
    pub proof fn lemma_consistent(&self)
        requires
            self.wf(),
        ensures
            self@.consistent(),
    {
    }

    /// A ledger in which nothing is recorded.
    pub fn new() -> (ledger: Self)
        ensures
            ledger.wf(),
            ledger@ == LedgerView::empty(),
    {
        let ledger = LockTimeLedger { entries: Vec::new(), numbers: LockTimeNumbers::new() };
        assert(ledger@.entries =~= Map::empty());
        ledger
    }

    /// Where in the list the entry of `transaction_id` stands.
    fn position(&self, transaction_id: &TxidValue) -> (found: Option<usize>)
        ensures
            match found {
                Some(i) => i < self.entries@.len() && self.entries@[i as int].transaction_id
                    == *transaction_id,
                None => !lists_id(self.entries@, *transaction_id),
            },
    {
        let mut i: usize = 0;
        while i < self.entries.len()
            invariant
                i <= self.entries@.len(),
                forall|j: int| 0 <= j < i ==> self.entries@[j].transaction_id != *transaction_id,
            decreases self.entries@.len() - i,
        {
            if same_txid(&self.entries[i].transaction_id, transaction_id) {
                return Some(i);
            }
            i = i + 1;
        }
        None
    }

    /// Looks up the entry of a transaction. A transaction that was not
    /// recorded has none, which is no error.
    pub fn entry(&self, transaction_id: &TxidValue) -> (entry: Option<LockTimeOrdinalEntry>)
        requires
            self.wf(),
        ensures
            entry == self@.entries.get(*transaction_id),
    {
        proof {
            lemma_entry_map(self.entries@);
        }
        match self.position(transaction_id) {
            Some(i) => Some(self.entries[i]),
            None => None,
        }
    }

    /// The number issued last for `lock_time`, if any was.
    pub fn latest_number(&self, lock_time: u32) -> (latest: Option<u32>)
        ensures
            latest == self@.numbers.get(lock_time),
    {
        self.numbers.latest(lock_time)
    }

    /// How many transactions are recorded with `lock_time`.
    pub fn issued(&self, lock_time: u32) -> (count: u64)
        ensures
            count == issued_count(self@.numbers, lock_time),
    {
        self.numbers.issued(lock_time)
    }
}

/// Processes one transaction of the block at `height` whose header carries
/// `block_time`: records it where its lock time is reserved, and does
/// nothing where it is not.
///
/// `input_utxo_values` holds, input by input, the value that each input
/// spends, and `input_sat_ranges`, where satoshis are tracked, the packed
/// satoshi ranges of each input.
///
/// A recorded transaction gets the next number of its lock time, which is
/// how many transactions were recorded with that lock time before it. A
/// transaction that is recorded already keeps its entry and gets no second
/// number. Where an error is returned the ledger is as it was.
pub fn process_mint(
    tx: &MintTransaction,
    input_sat_ranges: Option<Vec<&[u8]>>,
    input_utxo_values: &[u64],
    block_time: u32,
    height: u32,
    ledger: &mut LockTimeLedger,
) -> (result: Result<(), MintError>)
    requires
        old(ledger).wf(),
    ensures
        final(ledger).wf(),
        final(ledger)@.consistent(),
        result == old(ledger)@.mint_result(
            *tx,
            input_sat_ranges,
            input_utxo_values@,
            block_time,
            height,
        ),
        final(ledger)@ == old(ledger)@.after_mint(
            *tx,
            input_sat_ranges,
            input_utxo_values@,
            block_time,
            height,
        ),
        !is_reserved_lock_time(tx.lock_time) ==> result is Ok && final(ledger)@ == old(ledger)@,
        result is Err ==> final(ledger)@ == old(ledger)@,
        old(ledger)@.entries.contains_key(tx.transaction_id) ==> final(ledger)@ == old(ledger)@,
        is_reserved_lock_time(tx.lock_time) && result is Ok ==> {
            &&& final(ledger)@.entries.contains_key(tx.transaction_id)
            &&& final(ledger)@.entries.dom() == old(ledger)@.entries.dom().insert(
                tx.transaction_id,
            )
        },
        is_reserved_lock_time(tx.lock_time) && result is Ok && !old(ledger)@.entries.contains_key(
            tx.transaction_id,
        ) ==> {
            let entry = final(ledger)@.entries[tx.transaction_id];
            &&& entry.transaction_id == tx.transaction_id
            &&& entry.lock_time == tx.lock_time
            &&& entry.number == issued_count(old(ledger)@.numbers, tx.lock_time)
            &&& entry.block_height == height
            &&& entry.block_time == block_time
            &&& entry.fee == fee_of(*tx, input_utxo_values@)
            &&& entry.size == tx.total_size
            &&& entry.weight == tx.weight
            &&& entry.value == tx.output_values@[0]
            &&& entry.sat == first_sat(input_sat_ranges)
            &&& final(ledger)@.numbers == old(ledger)@.numbers.insert(tx.lock_time, entry.number)
        },
{
    proof {
        lemma_entry_map(ledger.entries@);
    }
    let recorded = ledger.position(&tx.transaction_id).is_some();
    let latest = ledger.numbers.latest(tx.lock_time);
    let plan = plan_mint(
        tx,
        &input_sat_ranges,
        input_utxo_values,
        block_time,
        height,
        recorded,
        latest,
    );
    match plan {
        Ok(Some(entry)) => {
            proof {
                old(ledger)@.lemma_with_entry_consistent(entry);
                assert(ledger.entries@.push(entry).drop_last() =~= ledger.entries@);
            }
            ledger.numbers.set_latest(entry.lock_time, entry.number);
            ledger.entries.push(entry);
            Ok(())
        },
        Ok(None) => {
            proof {
                if is_reserved_lock_time(tx.lock_time) {
                    assert(lists_id(ledger.entries@, tx.transaction_id));
                    assert(ledger@.entries.dom().insert(tx.transaction_id)
                        =~= ledger@.entries.dom());
                }
            }
            Ok(())
        },
        Err(error) => Err(error),
    }
}

} // verus!
