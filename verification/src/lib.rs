//! Detection and recording of transactions whose lock time falls in a
//! reserved range, with a gap-free sequence number per lock-time value.

pub mod entry;
pub mod error;
pub mod ledger;
pub mod mint;
pub mod numbers;
pub mod preview;
pub mod sat_range;
pub mod sequence;
pub mod threshold;

pub use entry::{LockTimeOrdinalEntry, LockTimeOrdinalEntryValue, TxidValue};
pub use error::MintError;
pub use ledger::{process_mint, LockTimeLedger};
pub use mint::{MintAttributes, MintTransaction};
pub use numbers::{get_next_lock_time_number, LockTimeNumbers};
pub use threshold::LOCK_TIME_THRESHOLD;
