use ancient_append_vecs::{
    get_ancient_append_vec_capacity, is_ancient, is_full_ancient,
    should_move_to_ancient_append_vec, AccountStorageEntry, AppendVec, SnapshotStorage,
    MAXIMUM_APPEND_VEC_FILE_SIZE,
};
use std::sync::Arc;

fn lone_storage(slot: u64, size: u64) -> SnapshotStorage {
    vec![Arc::new(AccountStorageEntry::new(slot, 0, size))]
}

#[test]
fn test_get_ancient_append_vec_capacity() {
    assert_eq!(get_ancient_append_vec_capacity(), MAXIMUM_APPEND_VEC_FILE_SIZE - 2048);
}

#[test]
fn test_ancient_capacity_value() {
    assert_eq!(MAXIMUM_APPEND_VEC_FILE_SIZE, 17_179_869_184);
    assert_eq!(get_ancient_append_vec_capacity(), 17_179_867_136);
}

#[test]
fn test_is_ancient() {
    for (size, expected_ancient) in [
        (get_ancient_append_vec_capacity() + 1, true),
        (get_ancient_append_vec_capacity(), true),
        (get_ancient_append_vec_capacity() - 1, false),
    ] {
        let av = AppendVec::new(size);

        assert_eq!(expected_ancient, is_ancient(&av));
        assert!(!is_full_ancient(&av));
    }
}

#[test]
fn test_is_full_ancient() {
    let size: u64 = get_ancient_append_vec_capacity();
    let mut av = AppendVec::new(size);
    assert!(is_ancient(&av));
    assert!(!is_full_ancient(&av));
    let overhead: u64 = 400;
    let data_len: u64 = size - overhead;
    assert_eq!(av.append_bytes(data_len), Some(0));
    assert!(is_ancient(&av));
    assert!(is_full_ancient(&av), "Remaining: {}", av.remaining_bytes());
}

#[test]
fn test_full_threshold_is_exact() {
    let size: u64 = get_ancient_append_vec_capacity();
    let mut av = AppendVec::new(size);
    assert_eq!(av.append_bytes(size - 10_000), Some(0));
    assert_eq!(av.remaining_bytes(), 10_000);
    assert!(!is_full_ancient(&av));
    assert_eq!(av.append_bytes(1), Some(size - 10_000));
    assert_eq!(av.remaining_bytes(), 9_999);
    assert!(is_full_ancient(&av));
    assert!(is_ancient(&av));
}

#[test]
fn test_small_storage_is_never_full_ancient() {
    let size: u64 = get_ancient_append_vec_capacity() - 1;
    let mut av = AppendVec::new(size);
    assert_eq!(av.append_bytes(size), Some(0));
    assert_eq!(av.remaining_bytes(), 0);
    assert!(!is_ancient(&av));
    assert!(!is_full_ancient(&av));
    let empty = AppendVec::new(0);
    assert!(!is_full_ancient(&empty));
}

#[test]
fn test_append_bytes_accounting() {
    let mut av = AppendVec::new(100);
    assert_eq!(av.capacity(), 100);
    assert_eq!(av.len(), 0);
    assert_eq!(av.remaining_bytes(), 100);
    assert_eq!(av.append_bytes(60), Some(0));
    assert_eq!(av.append_bytes(0), Some(60));
    assert_eq!(av.append_bytes(41), None);
    assert_eq!(av.len(), 60);
    assert_eq!(av.remaining_bytes(), 40);
    assert_eq!(av.append_bytes(40), Some(60));
    assert_eq!(av.remaining_bytes(), 0);
    assert_eq!(av.append_bytes(1), None);
    assert_eq!(av.capacity(), 100);
    assert_eq!(av.len(), 100);
}

#[test]
fn test_should_move_adopts_lone_ancient() {
    let storages = lone_storage(5, get_ancient_append_vec_capacity());
    let mut current_ancient = None;
    assert!(!should_move_to_ancient_append_vec(&storages, &mut current_ancient, 5));
    let (slot, handle) = current_ancient.clone().unwrap();
    assert_eq!(slot, 5);
    // the handle shares the slot's own storage
    assert!(Arc::ptr_eq(&handle, &storages[0]));
    assert_eq!(Arc::strong_count(&storages[0]), 3);

    // from now on every slot is moved and the choice stays
    let small = lone_storage(6, 1024);
    assert!(should_move_to_ancient_append_vec(&small, &mut current_ancient, 6));
    let other_ancient = lone_storage(7, get_ancient_append_vec_capacity());
    assert!(should_move_to_ancient_append_vec(&other_ancient, &mut current_ancient, 7));
    assert!(should_move_to_ancient_append_vec(&storages, &mut current_ancient, 5));
    let (slot, kept) = current_ancient.unwrap();
    assert_eq!(slot, 5);
    assert!(Arc::ptr_eq(&kept, &storages[0]));
}

#[test]
fn test_should_move_skips_full_ancient() {
    let size: u64 = get_ancient_append_vec_capacity();
    let mut entry = AccountStorageEntry::new(5, 0, size);
    assert_eq!(entry.accounts.append_bytes(size - 9_999), Some(0));
    let storages: SnapshotStorage = vec![Arc::new(entry)];
    let mut current_ancient = None;
    assert!(!should_move_to_ancient_append_vec(&storages, &mut current_ancient, 5));
    assert!(current_ancient.is_none());
}

#[test]
fn test_should_move_small_storage() {
    let storages = lone_storage(5, get_ancient_append_vec_capacity() - 1);
    let mut current_ancient = None;
    assert!(should_move_to_ancient_append_vec(&storages, &mut current_ancient, 5));
    assert!(current_ancient.is_none());
}

#[test]
fn test_should_move_when_not_one_storage() {
    let size: u64 = get_ancient_append_vec_capacity();
    let mut current_ancient = None;
    let none: SnapshotStorage = vec![];
    assert!(should_move_to_ancient_append_vec(&none, &mut current_ancient, 5));
    assert!(current_ancient.is_none());
    let two: SnapshotStorage = vec![
        Arc::new(AccountStorageEntry::new(5, 0, size)),
        Arc::new(AccountStorageEntry::new(5, 1, size)),
    ];
    assert!(should_move_to_ancient_append_vec(&two, &mut current_ancient, 5));
    assert!(current_ancient.is_none());
}
