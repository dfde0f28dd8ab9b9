//! Why a transaction with a reserved lock time could not be recorded.

use vstd::prelude::*;

verus! {

/// A breach of what the supplier of the transaction data guarantees, or the
/// end of a lock time's numbers. Each one leaves the ledger as it was, and
/// the block that holds the transaction should not be recorded further.
#[derive(Debug, PartialEq, Eq, Clone, Copy, Structural)]
pub enum MintError {
    /// Fewer input values were supplied than the transaction has inputs.
    MissingInputValue,
    /// The outputs are worth more than the inputs.
    FeeUnderflow,
    /// The fee does not fit in 64 bits.
    FeeOverflow,
    /// The transaction has no output.
    MissingOutput,
    /// The lock time's latest number is the largest that 32 bits hold.
    NumberExhausted,
}

} // verus!
