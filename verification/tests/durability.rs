use golem_rust::durability::{mark_atomic_operation, use_idempotence_mode, use_persistence_level, PersistenceLevel};

#[test]
fn persistence_level_guard_restores() {
    let mut level = PersistenceLevel::Smart;
    let guard = use_persistence_level(&mut level, PersistenceLevel::PersistNothing);
    assert_eq!(level, PersistenceLevel::PersistNothing);
    guard.restore(&mut level);
    assert_eq!(level, PersistenceLevel::Smart);
}

#[test]
fn nested_persistence_level_guards_restore_in_reverse() {
    let mut level = PersistenceLevel::Smart;
    let outer = use_persistence_level(&mut level, PersistenceLevel::PersistRemoteSideEffects);
    let inner = use_persistence_level(&mut level, PersistenceLevel::PersistNothing);
    assert_eq!(level, PersistenceLevel::PersistNothing);
    inner.restore(&mut level);
    assert_eq!(level, PersistenceLevel::PersistRemoteSideEffects);
    outer.restore(&mut level);
    assert_eq!(level, PersistenceLevel::Smart);
}

#[test]
fn idempotence_mode_guard_restores() {
    let mut mode = true;
    let guard = use_idempotence_mode(&mut mode, false);
    assert!(!mode);
    guard.restore(&mut mode);
    assert!(mode);
}

#[test]
fn atomic_operation_ends_at_its_beginning() {
    let guard = mark_atomic_operation(42);
    assert_eq!(guard.end(), 42);
}
