//! helpers for squashing append vecs into ancient append vecs
//! an ancient append vec is:
//! 1. a slot that is older than an epoch old
//! 2. multiple 'slots' squashed into a single older (ie. ancient) slot for convenience and performance
//! Otherwise, an ancient append vec is the same as any other append vec

use crate::accounts_db::{AccountStorageEntry, SnapshotStorage};
use crate::append_vec::{AppendVec, MAXIMUM_APPEND_VEC_FILE_SIZE};
use solana_sdk::clock::Slot;
use std::sync::Arc;
use vstd::prelude::*;

verus! {

/// Bytes by which an ancient append vec is smaller than the largest file.
/// Some functions add slop on allocation.
pub const ANCIENT_CAPACITY_SLACK_BYTES: u64 = 2048;

/// An ancient append vec with fewer free bytes than this counts as full.
/// Append vecs can't usually be made entirely full.
pub const FULL_ANCIENT_THRESHOLD_BYTES: u64 = 10_000;

/// Capacity of an ancient append vec, as a number.
pub open spec fn ancient_append_vec_capacity() -> u64 {
    (MAXIMUM_APPEND_VEC_FILE_SIZE - ANCIENT_CAPACITY_SLACK_BYTES) as u64
}

/// `storage` was made at least as large as an ancient append vec.
pub open spec fn ancient(storage: &AppendVec) -> bool {
    storage.spec_capacity() >= ancient_append_vec_capacity()
}

/// `storage` is ancient and has fewer free bytes than the threshold.
pub open spec fn full_ancient(storage: &AppendVec) -> bool {
    ancient(storage) && storage.spec_remaining_bytes() < FULL_ANCIENT_THRESHOLD_BYTES
}

/// capacity of an ancient append vec
#[verifier::when_used_as_spec(ancient_append_vec_capacity)]
pub fn get_ancient_append_vec_capacity() -> (capacity: u64)
    ensures
        capacity == MAXIMUM_APPEND_VEC_FILE_SIZE - 2048,
        capacity == ancient_append_vec_capacity(),
{
    // smaller than max by a bit just in case
    // some functions add slop on allocation
    MAXIMUM_APPEND_VEC_FILE_SIZE - ANCIENT_CAPACITY_SLACK_BYTES
}

/// true iff storage is ancient size and is almost completely full
#[verifier::when_used_as_spec(full_ancient)]
pub fn is_full_ancient(storage: &AppendVec) -> (full: bool)
    ensures
        full == (ancient(storage) && storage.spec_remaining_bytes() < 10_000),
        !ancient(storage) ==> !full,
{
    is_ancient(storage) && storage.remaining_bytes() < FULL_ANCIENT_THRESHOLD_BYTES
}

/// is this a max-size append vec designed to be used as an ancient append vec?
#[verifier::when_used_as_spec(ancient)]
pub fn is_ancient(storage: &AppendVec) -> (is: bool)
    ensures
        is == (storage.spec_capacity() >= ancient_append_vec_capacity()),
{
    storage.capacity() >= get_ancient_append_vec_capacity()
}

/// No ancient append vec is being filled yet, and the slot's only storage is
/// itself ancient.
pub open spec fn lone_ancient(
    all_storages: Seq<Arc<AccountStorageEntry>>,
    current_ancient: Option<(Slot, Arc<AccountStorageEntry>)>,
) -> bool {
    &&& current_ancient is None
    &&& all_storages.len() == 1
    &&& ancient(&all_storages[0].accounts)
}

/// Whether the accounts of the slot have to be moved.
pub open spec fn must_move(
    all_storages: Seq<Arc<AccountStorageEntry>>,
    current_ancient: Option<(Slot, Arc<AccountStorageEntry>)>,
) -> bool {
    !lone_ancient(all_storages, current_ancient)
}

/// The ancient append vec to fill after the slot was looked at: the slot's
/// own storage where that is a lone ancient one with room left, else the one
/// from before.
pub open spec fn next_current_ancient(
    all_storages: Seq<Arc<AccountStorageEntry>>,
    current_ancient: Option<(Slot, Arc<AccountStorageEntry>)>,
    slot: Slot,
) -> Option<(Slot, Arc<AccountStorageEntry>)> {
    if lone_ancient(all_storages, current_ancient) && !full_ancient(&all_storages[0].accounts) {
        Some((slot, all_storages[0]))
    } else {
        current_ancient
    }
}

/// A lone ancient storage with room left becomes the one to fill, and its
/// slot is not moved. From then on every slot is moved, whatever backs it,
/// and the storage to fill stays the same.
pub proof fn lemma_adopted_ancient_stays(
    all_storages: Seq<Arc<AccountStorageEntry>>,
    slot: Slot,
    later_storages: Seq<Arc<AccountStorageEntry>>,
    later_slot: Slot,
)
    requires
        all_storages.len() == 1,
        ancient(&all_storages[0].accounts),
        !full_ancient(&all_storages[0].accounts),
    ensures
        !must_move(all_storages, None),
        next_current_ancient(all_storages, None, slot) == Some((slot, all_storages[0])),
        must_move(later_storages, next_current_ancient(all_storages, None, slot)),
        next_current_ancient(
            later_storages,
            next_current_ancient(all_storages, None, slot),
            later_slot,
        ) == next_current_ancient(all_storages, None, slot),
{
}

/// A slot is moved, and the storage to fill is left as it was, whenever
/// one is being filled already, the slot has not exactly one storage, or
/// its storage is not ancient. A lone ancient storage that is full is
/// skipped: its slot is not moved, and it does not become the one to fill.
pub proof fn lemma_state_changes_only_on_adoption(
    all_storages: Seq<Arc<AccountStorageEntry>>,
    current_ancient: Option<(Slot, Arc<AccountStorageEntry>)>,
    slot: Slot,
)
    ensures
        current_ancient is Some || all_storages.len() != 1 || !ancient(&all_storages[0].accounts)
            ==> must_move(all_storages, current_ancient) && next_current_ancient(
            all_storages,
            current_ancient,
            slot,
        ) == current_ancient,
        current_ancient is None && all_storages.len() == 1 && full_ancient(
            &all_storages[0].accounts,
        ) ==> !must_move(all_storages, current_ancient) && next_current_ancient(
            all_storages,
            current_ancient,
            slot,
        ) is None,
{
}

/// Whether a storage is ancient depends on its capacity alone, so
/// appending to it never changes that; and no storage is full that is not
/// ancient, however little room it has left.
pub proof fn lemma_ancient_by_capacity(before: &AppendVec, after: &AppendVec)
    requires
        before.spec_capacity() == after.spec_capacity(),
    ensures
        ancient(before) == ancient(after),
        !ancient(after) ==> !full_ancient(after),
        ancient(after) && after.spec_remaining_bytes() < 10_000 ==> full_ancient(after),
{
}

/// `Arc::clone`: one more handle to the storage that `storage` points to.
#[verifier::external_body]
fn share(storage: &Arc<AccountStorageEntry>) -> (handle: Arc<AccountStorageEntry>)
    ensures
        handle == *storage,
{
    Arc::clone(storage)
}

/// return true if the accounts in this slot should be moved to an ancient append vec
/// otherwise, return false and the caller can skip this slot
/// side effect could be updating 'current_ancient'
pub fn should_move_to_ancient_append_vec(
    all_storages: &SnapshotStorage,
    current_ancient: &mut Option<(Slot, Arc<AccountStorageEntry>)>,
    slot: Slot,
) -> (should_move: bool)
    ensures
        should_move == must_move(all_storages@, *old(current_ancient)),
        *final(current_ancient) == next_current_ancient(
            all_storages@,
            *old(current_ancient),
            slot,
        ),
{
    if current_ancient.is_none() && all_storages.len() == 1 {
        let first_storage = all_storages.first().unwrap();
        if is_ancient(&first_storage.accounts) {
            if is_full_ancient(&first_storage.accounts) {
                return false;  // skip this full ancient append vec completely
            }
            // this slot is ancient and can become the 'current' ancient for other slots to be squashed into
            *current_ancient = Some((slot, share(first_storage)));
            return false;  // we're done with this slot - this slot IS the ancient append vec
        }
    }
    true
}

} // verus!
