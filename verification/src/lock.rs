//! A fail-fast exclusivity lock: at most one guard may be live for a value at
//! a time, and acquiring while a guard is live fails instead of blocking, so
//! callers choose their own retry policy and cannot deadlock.

use vstd::prelude::*;

verus! {

/// Failure of a fail-fast guard acquisition.
#[derive(Debug, Clone, Copy, PartialEq, Eq, Structural)]
pub enum Error {
    /// A guard is already live for the protected value.
    AlreadyLocked,
}

/// Owns a value and hands out at most one live guard for it at a time.
pub struct Lock<T> {
    cell: Option<T>,
}

/// Proof token of unique live access to the value a `Lock` protects: while a
/// guard is live no second guard can be acquired from the same lock. The
/// protected value travels with the guard and returns to the lock on release.
pub struct LockGuard<T> {
    /// The value the guard grants unique access to.
    pub data: T,
}

impl<T> Lock<T> {
    /// Whether a guard is currently live for this lock.
    pub closed spec fn is_locked(self) -> bool {
        self.cell is None
    }

    /// The protected value, while no guard is live.
    pub closed spec fn value(self) -> T
        recommends
            !self.is_locked(),
    {
        self.cell->Some_0
    }

    /// Makes a lock protecting `data`, with no guard live.
    pub fn new(data: T) -> (r: Lock<T>)
        ensures
            !r.is_locked(),
            r.value() == data,
    {
        Lock { cell: Some(data) }
    }

    /// Acquires the unique guard. Never blocks: while another guard is live
    /// the acquisition fails `AlreadyLocked` at once and the lock is left as
    /// it was; otherwise it succeeds and the returned guard carries the
    /// protected value.
    pub fn try_lock(&mut self) -> (r: Result<LockGuard<T>, Error>)
        ensures
            old(self).is_locked() ==> r == Result::<LockGuard<T>, Error>::Err(Error::AlreadyLocked)
                && *final(self) == *old(self),
            !old(self).is_locked() ==> (r matches Ok(g) && g.data == old(self).value()
                && final(self).is_locked()),
    {
        match self.cell.take() {
            Some(data) => Ok(LockGuard { data }),
            None => Err(Error::AlreadyLocked),
        }
    }

    /// Hands a guard back: the protected value returns to the lock and a new
    /// guard can be acquired again.
    pub fn release(&mut self, guard: LockGuard<T>)
        requires
            old(self).is_locked(),
        ensures
            !final(self).is_locked(),
            final(self).value() == guard.data,
    {
        self.cell = Some(guard.data);
    }
}

} // verus!
