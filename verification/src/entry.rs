//! The record kept for one recorded transaction, and its stored form.

use vstd::prelude::*;

verus! {

/// A transaction identifier in its fixed-width byte encoding.
pub type TxidValue = [u8; 32];

/// What is recorded about one transaction whose lock time is reserved.
#[derive(Debug, PartialEq, Eq, Copy, Clone)]
pub struct LockTimeOrdinalEntry {
    /// Identifier of the transaction; the key under which the entry is kept.
    pub transaction_id: TxidValue,
    /// The transaction's lock time.
    pub lock_time: u32,
    /// Position of the transaction among those recorded with the same lock
    /// time, counted from zero.
    pub number: u32,
    /// Height of the block that holds the transaction.
    pub block_height: u32,
    /// Timestamp of that block's header.
    pub block_time: u32,
    /// Value of the inputs less value of the outputs.
    pub fee: u64,
    /// Total serialized size of the transaction.
    pub size: u64,
    /// Weight of the transaction in weight units.
    pub weight: u64,
    /// Value of the first output.
    pub value: u64,
    /// Ordinal of the first satoshi of the first input.
    pub sat: u64,
}

/// The stored form of an entry: its ten fields in declaration order.
pub type LockTimeOrdinalEntryValue = (TxidValue, u32, u32, u32, u32, u64, u64, u64, u64, u64);

impl LockTimeOrdinalEntry {
    /// The entry that a stored tuple stands for.
    pub open spec fn loaded(value: LockTimeOrdinalEntryValue) -> Self {
        LockTimeOrdinalEntry {
            transaction_id: value.0,
            lock_time: value.1,
            number: value.2,
            block_height: value.3,
            block_time: value.4,
            fee: value.5,
            size: value.6,
            weight: value.7,
            value: value.8,
            sat: value.9,
        }
    }

    /// The tuple under which an entry is stored.
    pub open spec fn stored(self) -> LockTimeOrdinalEntryValue {
        (
            self.transaction_id,
            self.lock_time,
            self.number,
            self.block_height,
            self.block_time,
            self.fee,
            self.size,
            self.weight,
            self.value,
            self.sat,
        )
    }

    /// Rebuilds an entry from its stored form. Nothing is validated here.
    pub fn load(value: LockTimeOrdinalEntryValue) -> (entry: Self)
        ensures
            entry == Self::loaded(value),
    {
        let (
            transaction_id,
            lock_time,
            number,
            block_height,
            block_time,
            fee,
            size,
            weight,
            value,
            sat,
        ) = value;
        LockTimeOrdinalEntry {
            transaction_id,
            lock_time,
            number,
            block_height,
            block_time,
            fee,
            size,
            weight,
            value,
            sat,
        }
    }

    /// Gives the stored form of an entry.
    pub fn store(self) -> (value: LockTimeOrdinalEntryValue)
        ensures
            value == self.stored(),
    {
        (
            self.transaction_id,
            self.lock_time,
            self.number,
            self.block_height,
            self.block_time,
            self.fee,
            self.size,
            self.weight,
            self.value,
            self.sat,
        )
    }

    /// Loading what was stored gives the entry back, whatever its fields hold.
    pub proof fn lemma_load_store(entry: LockTimeOrdinalEntry)
        ensures
            Self::loaded(entry.stored()) == entry,
    {
    }

    /// Storing what was loaded gives the tuple back: no two tuples stand for
    /// the same entry.
    pub proof fn lemma_store_load(value: LockTimeOrdinalEntryValue)
        ensures
            Self::loaded(value).stored() == value,
    {
    }
}

} // verus!
