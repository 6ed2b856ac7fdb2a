//! Ledgers for file records, share permissions and reward points, kept as
//! deterministic state machines with verified contracts.
pub mod identity;
pub mod laws;
pub mod records;
pub mod reward;
pub mod sync;
pub mod table;

pub use identity::Identity;
pub use records::{
    FileBook, FileRecord, LedgerError, ShareBook, SharePermission, SyncStats, UserFiles,
    MISSING_FILE_NAME, NULL_ADDRESS,
};
pub use reward::RewardLedger;
pub use sync::StreamSyncContract;
