//! Scoped changes to an agent's durability settings.
//!
//! Each `use_*` function records the setting in force, switches it to the
//! requested one and returns a guard; when the guard is released the recorded
//! setting is put back. The setting itself lives in the host: callers read it
//! from the host, pass it in here, and write back what these functions leave
//! in it.

use vstd::prelude::*;

verus! {

/// An index into the agent's operation log.
pub type OplogIndex = u64;

/// How much of the agent's execution the host persists.
#[derive(Clone, Copy, PartialEq, Eq, Structural, Debug)]
pub enum PersistenceLevel {
    PersistNothing,
    PersistRemoteSideEffects,
    Smart,
}

/// Holds the persistence level that was in force before it was changed.
pub struct PersistenceLevelGuard {
    original_level: PersistenceLevel,
}

impl PersistenceLevelGuard {
    /// The level to restore.
    pub closed spec fn original(&self) -> PersistenceLevel {
        self.original_level
    }

    /// Releases the guard: the level becomes the one that was in force when
    /// the guard was taken.
    pub fn restore(self, current: &mut PersistenceLevel)
        ensures
            *final(current) == self.original(),
    {
        *current = self.original_level;
    }
}

/// Temporarily sets the persistence level to `level`; the returned guard
/// restores the level that was in force.
pub fn use_persistence_level(current: &mut PersistenceLevel, level: PersistenceLevel) -> (guard:
    PersistenceLevelGuard)
    ensures
        *final(current) == level,
        guard.original() == *old(current),
{
    let original_level = *current;
    *current = level;
    PersistenceLevelGuard { original_level }
}

/// Holds the idempotence mode that was in force before it was changed.
pub struct IdempotenceModeGuard {
    original: bool,
}

impl IdempotenceModeGuard {
    /// The mode to restore.
    pub closed spec fn original(&self) -> bool {
        self.original
    }

    /// Releases the guard: the mode becomes the one that was in force when
    /// the guard was taken.
    pub fn restore(self, current: &mut bool)
        ensures
            *final(current) == self.original(),
    {
        *current = self.original;
    }
}

/// Temporarily sets the idempotence mode to `mode`; the returned guard
/// restores the mode that was in force.
pub fn use_idempotence_mode(current: &mut bool, mode: bool) -> (guard: IdempotenceModeGuard)
    ensures
        *final(current) == mode,
        guard.original() == *old(current),
{
    let original = *current;
    *current = mode;
    IdempotenceModeGuard { original }
}

/// Marks an atomic region of the oplog, from the index at which it began.
pub struct AtomicOperationGuard {
    begin: OplogIndex,
}

impl AtomicOperationGuard {
    /// Where the atomic region began.
    pub closed spec fn begin(&self) -> OplogIndex {
        self.begin
    }

    /// Releases the guard: the index that commits the operation, the one at
    /// which it began.
    pub fn end(self) -> (r: OplogIndex)
        ensures
            r == self.begin(),
    {
        self.begin
    }
}

/// Starts an atomic operation that began at oplog index `begin`. When the
/// guard is released the operation is committed; on a failure before that the
/// whole operation is re-executed on retry.
pub fn mark_atomic_operation(begin: OplogIndex) -> (guard: AtomicOperationGuard)
    ensures
        guard.begin() == begin,
{
    AtomicOperationGuard { begin }
}

/// Releasing the guard of `use_persistence_level` puts back the level that
/// was in force before.
pub proof fn law_persistence_level_restored(
    before: PersistenceLevel,
    level: PersistenceLevel,
    during: PersistenceLevel,
    guard: PersistenceLevelGuard,
    after: PersistenceLevel,
)
    requires
        during == level,
        guard.original() == before,
        after == guard.original(),
    ensures
        after == before,
{
}

/// Guards released in the reverse order of taking them put back the level
/// in force before the first: after `use(a)` then `use(b)`, releasing the
/// second guard gives `a` and then releasing the first gives the starting level.
pub proof fn law_nested_persistence_levels_restored(
    start: PersistenceLevel,
    a: PersistenceLevel,
    b: PersistenceLevel,
    first: PersistenceLevelGuard,
    second: PersistenceLevelGuard,
    after_second: PersistenceLevel,
    after_first: PersistenceLevel,
)
    requires
        first.original() == start,
        second.original() == a,
        after_second == second.original(),
        after_first == first.original(),
    ensures
        after_second == a,
        after_first == start,
{
}

/// Releasing the guard of `use_idempotence_mode` puts back the mode that was
/// in force before.
pub proof fn law_idempotence_mode_restored(
    before: bool,
    mode: bool,
    during: bool,
    guard: IdempotenceModeGuard,
    after: bool,
)
    requires
        during == mode,
        guard.original() == before,
        after == guard.original(),
    ensures
        after == before,
{
}

/// An atomic operation is committed at the index at which it began.
pub proof fn law_atomic_operation_ends_where_it_began(
    begin: OplogIndex,
    guard: AtomicOperationGuard,
    end: OplogIndex,
)
    requires
        guard.begin() == begin,
        end == guard.begin(),
    ensures
        end == begin,
{
}

} // verus!
