//! What a page that shows a recorded transaction is given.

use crate::entry::{LockTimeOrdinalEntry, TxidValue};
use vstd::prelude::*;

verus! {

/// Names one inscription: the transaction that made it and its place among
/// the inscriptions of that transaction.
#[derive(Debug, PartialEq, Eq, Clone, Copy)]
pub struct InscriptionId {
    /// Identifier of the transaction.
    pub txid: TxidValue,
    /// Place among the transaction's inscriptions, counted from zero.
    pub index: u32,
}

/// The part of a recorded transaction that its preview shows.
#[derive(Debug, PartialEq, Eq, Clone)]
pub struct PreviewCat21Html {
    /// The inscription that the transaction counts as.
    pub inscription_id: InscriptionId,
    /// Hash of the block that holds the transaction, as the page prints it.
    pub block_hash: String,
    /// Fee of the transaction.
    pub fee: u64,
    /// Weight of the transaction.
    pub weight: u64,
}

impl PreviewCat21Html {
    /// The preview of a recorded transaction, which counts as the first
    /// inscription of that transaction.
    pub fn for_entry(entry: &LockTimeOrdinalEntry, block_hash: String) -> (preview: Self)
        ensures
            preview.inscription_id.txid == entry.transaction_id,
            preview.inscription_id.index == 0,
            preview.block_hash == block_hash,
            preview.fee == entry.fee,
            preview.weight == entry.weight,
    {
        PreviewCat21Html {
            inscription_id: InscriptionId { txid: entry.transaction_id, index: 0 },
            block_hash,
            fee: entry.fee,
            weight: entry.weight,
        }
    }
}

} // verus!
