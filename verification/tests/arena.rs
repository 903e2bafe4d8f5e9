use trussfs::arena::Arena;
use trussfs::{trussfs_is_handle_valid, trussfs_version, INVALID_HANDLE, VERSION_NUMBER};

#[test]
fn version_is_plain_number() {
    assert_eq!(trussfs_version(), VERSION_NUMBER);
}

#[test]
fn sentinel_handle_is_never_valid_shaped() {
    assert!(!trussfs_is_handle_valid(INVALID_HANDLE));
    assert!(trussfs_is_handle_valid(0));
    assert!(trussfs_is_handle_valid(42));
}

#[test]
fn insert_then_get_then_remove() {
    let mut a: Arena<u64> = Arena::new();
    let h = a.insert(77);
    assert_ne!(h, INVALID_HANDLE);
    assert_eq!(a.get(h), Some(&77));
    assert_eq!(a.remove(h), Some(77));
    assert_eq!(a.get(h), None);
}

#[test]
fn remove_is_noop_on_dead_handle() {
    let mut a: Arena<u64> = Arena::new();
    let h = a.insert(5);
    assert_eq!(a.remove(h), Some(5));
    assert_eq!(a.remove(h), None);
    assert_eq!(a.remove(INVALID_HANDLE), None);
}

#[test]
fn generational_reuse_never_aliases() {
    let mut a: Arena<u64> = Arena::new();
    let first = a.insert(1);
    assert_eq!(a.remove(first), Some(1));
    let second = a.insert(2);
    // The single slot is reused, under a new generation.
    assert_eq!(a.slot_total(), 1);
    assert_ne!(first, second);
    assert_eq!(a.get(first), None);
    assert_eq!(a.get(second), Some(&2));
}

#[test]
fn stale_handle_stays_invalid_across_many_reuses() {
    let mut a: Arena<u64> = Arena::new();
    let first = a.insert(10);
    a.remove(first);
    for round in 0..50u64 {
        let h = a.insert(round);
        assert_eq!(a.get(first), None);
        assert_eq!(a.get(h), Some(&round));
        a.remove(h);
    }
    assert_eq!(a.get(first), None);
}

#[test]
fn lookups_on_garbage_handles_report_absence() {
    let mut a: Arena<u64> = Arena::new();
    let h = a.insert(3);
    // The reserved sentinel.
    assert_eq!(a.get(INVALID_HANDLE), None);
    assert!(a.get_mut(INVALID_HANDLE).is_none());
    // Out-of-range slot index.
    assert_eq!(a.get(h + 1000), None);
    assert!(a.get_mut(h + 1000).is_none());
    // Same slot, wrong generation.
    let forged = h.wrapping_add(1u64 << 32);
    assert_eq!(a.get(forged), None);
    assert!(a.get_mut(forged).is_none());
    // The real handle still works.
    assert_eq!(a.get(h), Some(&3));
}

#[test]
fn get_mut_writes_through_the_handle() {
    let mut a: Arena<u64> = Arena::new();
    let h = a.insert(1);
    if let Some(v) = a.get_mut(h) {
        *v = 99;
    } else {
        panic!("live handle must be reachable");
    }
    assert_eq!(a.get(h), Some(&99));
}

#[test]
fn handles_of_other_slots_survive_removal() {
    let mut a: Arena<u64> = Arena::new();
    let h1 = a.insert(1);
    let h2 = a.insert(2);
    let h3 = a.insert(3);
    assert_eq!(a.remove(h2), Some(2));
    assert_eq!(a.get(h1), Some(&1));
    assert_eq!(a.get(h3), Some(&3));
    let h4 = a.insert(4);
    assert_eq!(a.get(h1), Some(&1));
    assert_eq!(a.get(h3), Some(&3));
    assert_eq!(a.get(h4), Some(&4));
    assert_eq!(a.get(h2), None);
}
