//! Storage and change-tracking tests: the sparse set, the exclusive view,
//! and the local storage.

use shipyard::BorrowInfo;
use shipyard::EntityId;
use shipyard::TypeId;
use shipyard::TypeInfo;
use shipyard::LocalStorage;
use shipyard::LocalViewMut;
use shipyard::SparseSet;
use shipyard::ViewMut;
use shipyard::tracking::is_track_within_bounds;

#[test]
fn track_window() {
    // Strictly after `last`, up to and including `current`.
    assert!(!is_track_within_bounds(5, 5, 10));
    assert!(is_track_within_bounds(6, 5, 10));
    assert!(is_track_within_bounds(10, 5, 10));
    assert!(!is_track_within_bounds(11, 5, 10));
    // The window follows the counter across a wrap-around.
    assert!(is_track_within_bounds(u32::MAX, u32::MAX - 1, 2));
    assert!(is_track_within_bounds(1, u32::MAX - 1, 2));
    assert!(!is_track_within_bounds(3, u32::MAX - 1, 2));
}

#[test]
fn sparse_set_insert_and_remove() {
    let mut storage: SparseSet<u64> = SparseSet::new();
    let a = EntityId::new(3);
    let b = EntityId::new(7);

    assert!(storage.is_empty());
    assert_eq!(storage.insert(a, 30, 1), None);
    assert_eq!(storage.insert(b, 70, 1), None);
    assert_eq!(storage.len(), 2);
    assert!(storage.contains(a));
    assert!(storage.contains(b));

    // Replacing marks the slot modified and hands the old value back.
    assert_eq!(storage.insert(a, 31, 2), Some(30));
    assert_eq!(storage.len(), 2);

    assert_eq!(storage.actual_remove(a), Some(31));
    assert!(!storage.contains(a));
    assert!(storage.contains(b));
    assert_eq!(storage.actual_remove(a), None);
    assert_eq!(storage.len(), 1);
}

#[test]
fn view_tracking_queries() {
    let mut storage: SparseSet<u64> = SparseSet::new();
    let early = EntityId::new(0);
    let late = EntityId::new(1);
    storage.insert(early, 1, 2);
    storage.insert(late, 2, 5);
    storage.insert(late, 3, 6);

    // The window (3, 8] sees only the late insertion and the modification.
    let view = ViewMut::new(storage, 3, 3, 3, 8);
    assert!(!view.is_inserted(early));
    assert!(view.is_inserted(late));
    assert!(view.is_modified(late));
    assert!(!view.is_modified(early));
    assert!(view.is_inserted_or_modified(late));
    assert!(!view.is_inserted_or_modified(early));
    assert_eq!(view.inserted(), vec![late]);
    assert_eq!(view.modified(), vec![late]);
    assert_eq!(view.inserted_or_modified(), vec![late]);
}

#[test]
fn view_clear_records_deletions() {
    let mut storage: SparseSet<u64> = SparseSet::new();
    let a = EntityId::new(0);
    let b = EntityId::new(1);
    storage.insert(a, 10, 1);
    storage.insert(b, 20, 1);

    let mut view = ViewMut::new(storage, 0, 0, 0, 4);
    view.clear();
    assert!(view.sparse_set.dense.is_empty());
    assert!(!view.sparse_set.contains(a));
    assert_eq!(view.sparse_set.deletion_data.len(), 2);

    assert!(view.is_deleted(a));
    assert!(view.is_deleted(b));
    assert!(!view.is_removed(a));
    assert!(view.is_removed_or_deleted(a));
    assert_eq!(view.deleted(), vec![a, b]);
    assert_eq!(view.removed_or_deleted(), vec![a, b]);
}

#[test]
fn view_drain_records_removals() {
    let mut storage: SparseSet<u64> = SparseSet::new();
    let a = EntityId::new(0);
    let b = EntityId::new(1);
    storage.insert(a, 10, 1);
    storage.insert(b, 20, 1);

    let mut view = ViewMut::new(storage, 0, 0, 0, 4);
    let components = view.drain();
    assert_eq!(components, vec![10, 20]);
    assert!(view.sparse_set.dense.is_empty());
    assert_eq!(view.sparse_set.removal_data.len(), 2);

    assert!(view.is_removed(a));
    assert!(view.is_removed(b));
    assert!(!view.is_deleted(a));
    assert_eq!(view.removed(), vec![a, b]);
    assert_eq!(view.removed_or_deleted(), vec![a, b]);
}

#[test]
fn view_clear_all_flags() {
    let mut storage: SparseSet<u64> = SparseSet::new();
    let a = EntityId::new(0);
    storage.insert(a, 10, 3);

    let view = ViewMut::new(storage, 0, 0, 0, 5);
    assert!(view.is_inserted(a));
    let storage = view.clear_all_inserted();
    assert_eq!(storage.last_insert, 5);

    // A fresh view whose window starts at the cleared point no longer sees
    // the insertion.
    let view = ViewMut::new(storage, 5, 5, 5, 7);
    assert!(!view.is_inserted(a));

    let storage = view.clear_all_modified();
    assert_eq!(storage.last_modification, 7);
    let view = ViewMut::new(storage, 7, 7, 7, 9);
    let storage = view.clear_all_inserted_and_modified();
    assert_eq!(storage.last_insert, 9);
    assert_eq!(storage.last_modification, 9);
}

#[test]
fn local_storage_tracking() {
    // A local value inserted at the current timestamp counts as inserted
    // for the same window.
    let storage = LocalStorage::new(41u64, 3);
    let view = LocalViewMut::new(storage, 0, 0, 3);
    assert!(view.is_inserted());
    assert!(!view.is_modified());
    assert_eq!(*view.as_ref(), 41);

    // Writing through the view marks the value modified now.
    let mut view = view;
    view.set(42);
    assert!(view.is_modified());
    assert!(view.is_inserted_or_modified());
    assert_eq!(*view.as_ref(), 42);

    // Clearing the flags moves the window forward.
    let storage = view.clear_inserted_and_modified();
    assert_eq!(storage.last_insert, 3);
    assert_eq!(storage.last_modification, 3);
    let view = LocalViewMut::new(storage, 3, 3, 3);
    assert!(!view.is_inserted());
    assert!(!view.is_modified());

    let storage = view.clear_inserted();
    let view = LocalViewMut::new(storage, 0, 0, 5);
    let storage = view.clear_modified();
    assert_eq!(storage.last_modification, 5);
}

#[test]
fn local_views_between_runs() {
    // A second run of the same system sees the first run's modification
    // only while it lies inside the window.
    let storage = LocalStorage::new(0u64, 1);
    let mut view = LocalViewMut::new(storage, 0, 0, 1);
    view.set(1);
    let storage = view.clear_inserted_and_modified();

    let view = LocalViewMut::new(storage, 1, 1, 2);
    assert!(!view.is_inserted());
    assert!(!view.is_modified());
}

#[test]
fn tracked_remove_and_delete() {
    let mut storage: SparseSet<u64> = SparseSet::new();
    let a = EntityId::new(0);
    let b = EntityId::new(1);
    storage.insert(a, 10, 1);
    storage.insert(b, 20, 1);

    assert_eq!(storage.remove(a, 3), Some(10));
    assert_eq!(storage.removal_data, vec![(a, 3)]);
    assert_eq!(storage.remove(a, 4), None);
    assert_eq!(storage.removal_data, vec![(a, 3)]);

    assert!(storage.delete(b, 5));
    assert_eq!(storage.deletion_data.len(), 1);
    assert_eq!(storage.deletion_data[0].0, b);
    assert_eq!(storage.deletion_data[0].1, 5);
    assert!(!storage.delete(b, 6));

    let view = ViewMut::new(storage, 2, 2, 2, 6);
    assert!(view.is_removed(a));
    assert!(view.is_deleted(b));

    let mut storage = view.sparse_set;
    storage.clear_all_removed_and_deleted();
    assert!(storage.removal_data.is_empty());
    assert!(storage.deletion_data.is_empty());
}

#[test]
fn cleanup_keeps_recent_records() {
    let mut storage: SparseSet<u64> = SparseSet::new();
    let a = EntityId::new(0);
    let b = EntityId::new(1);
    storage.insert(a, 10, 1);
    storage.insert(b, 20, 1);
    storage.remove(a, 2);
    storage.remove(b, 9);

    // Records stamped before the cutoff are forgotten; newer ones stay.
    storage.clear_all_removed_and_deleted_older_than_timestamp(5);
    assert_eq!(storage.removal_data, vec![(b, 9)]);
}

#[test]
fn borrow_info_appends_descriptors() {
    let one = TypeInfo::view_of(TypeId::new(1), "view");
    let two = TypeInfo::view_mut_of(TypeId::new(2), "view_mut");
    let pair = vec![one, two];

    let mut info: Vec<TypeInfo> = Vec::new();
    one.borrow_info(&mut info);
    pair.borrow_info(&mut info);
    assert_eq!(info.len(), 3);
    // Descriptors compare by storage and mutability.
    assert_eq!(info[0], one);
    assert_eq!(info[1], one);
    assert_eq!(info[2], two);
    assert_ne!(info[0], two);
}

#[test]
fn apply_combines_two_components() {
    let mut storage: SparseSet<u64> = SparseSet::new();
    let a = EntityId::new(0);
    let b = EntityId::new(1);
    storage.insert(a, 10, 1);
    storage.insert(b, 32, 1);

    let mut view = ViewMut::new(storage, 1, 1, 1, 4);
    let sum = view.apply(a, b, |x: u64, y: &u64| (x + *y, x + *y));
    assert_eq!(sum, 42);

    let da = view.sparse_set.index_of(a).unwrap();
    assert_eq!(view.sparse_set.data[da], 42);
    assert!(view.is_modified(a));
    assert!(!view.is_modified(b));
}

#[test]
fn apply_mut_swaps_two_components() {
    let mut storage: SparseSet<u64> = SparseSet::new();
    let a = EntityId::new(0);
    let b = EntityId::new(1);
    storage.insert(a, 1, 1);
    storage.insert(b, 2, 1);

    let mut view = ViewMut::new(storage, 1, 1, 1, 4);
    // Swap the two components, in both argument orders.
    view.apply_mut(a, b, |x: u64, y: u64| (y, x, ()));
    let da = view.sparse_set.index_of(a).unwrap();
    let db = view.sparse_set.index_of(b).unwrap();
    assert_eq!(view.sparse_set.data[da], 2);
    assert_eq!(view.sparse_set.data[db], 1);
    assert!(view.is_modified(a));
    assert!(view.is_modified(b));

    view.apply_mut(b, a, |x: u64, y: u64| (y, x, ()));
    assert_eq!(view.sparse_set.data[da], 1);
    assert_eq!(view.sparse_set.data[db], 2);
}
