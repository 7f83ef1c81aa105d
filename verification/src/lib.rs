//! Compaction planning for an append-only account store.
//!
//! Accounts of one slot live in small per-slot segments. This crate decides
//! whether a slot's accounts have to move into a large, multi-slot "ancient"
//! segment, and splits the accounts that move into the part that still fits
//! the ancient segment and the part that spills into the next one.
//!
//! Account ids and content hashes are the SDK's `Pubkey` and `Hash`; the
//! library only carries them, it never looks inside one.

pub mod sdk_types;
pub mod append_vec;
pub mod accounts_db;
pub mod accounts_to_store;
pub mod ancient_append_vecs;

pub use accounts_db::{AccountStorageEntry, AppendVecId, FoundStoredAccount, SnapshotStorage};
pub use accounts_to_store::{AccountsToStore, StorageSelector};
pub use ancient_append_vecs::{
    get_ancient_append_vec_capacity, is_ancient, is_full_ancient,
    should_move_to_ancient_append_vec,
};
pub use append_vec::{
    AccountMeta, AppendVec, StoredAccountMeta, StoredMeta, MAXIMUM_APPEND_VEC_FILE_SIZE,
};
