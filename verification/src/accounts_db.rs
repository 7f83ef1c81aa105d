//! What the account store hands to the planner: the accounts found live in a
//! slot, and the segments that back a slot.

use crate::append_vec::{AppendVec, StoredAccountMeta};
use solana_sdk::clock::Slot;
use std::sync::Arc;
use vstd::prelude::*;

verus! {

/// Identifies a segment.
pub type AppendVecId = u32;

/// The segments that currently back one slot. Normally there is one.
pub type SnapshotStorage = Vec<Arc<AccountStorageEntry>>;

/// An account found live in a slot.
#[derive(Debug)]
pub struct FoundStoredAccount<'a> {
    pub account: StoredAccountMeta<'a>,
    /// the segment the account was found in
    pub store_id: AppendVecId,
    /// bytes the account takes when it is written into another segment;
    /// not the length of its data
    pub account_size: usize,
}

/// A segment together with the slot it serves.
#[derive(Debug)]
pub struct AccountStorageEntry {
    pub id: AppendVecId,
    pub slot: Slot,
    pub accounts: AppendVec,
}

impl AccountStorageEntry {
    /// An entry for `slot` with an empty segment of `file_size` bytes.
    pub fn new(slot: Slot, id: AppendVecId, file_size: u64) -> (entry: Self)
        ensures
            entry.id == id,
            entry.slot == slot,
            entry.accounts.spec_capacity() == file_size,
            entry.accounts.spec_len() == 0,
    {
        AccountStorageEntry { id, slot, accounts: AppendVec::new(file_size) }
    }
}

} // verus!
