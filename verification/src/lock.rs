//! The update lock: at most one refresh of the registry mirror at a time.
//! Acquiring never waits; while the lock is held, a further attempt is
//! denied.

use crate::error::Error;
use vstd::prelude::*;

verus! {

/// The state of the update lock.
#[derive(Clone, Copy, Debug, PartialEq, Eq, Structural)]
pub enum LockState {
    Free,
    Held,
}

/// What an update lock is, as plain values: the number that tells it from
/// other locks, and its state.
pub struct LockView {
    pub id: u64,
    pub state: LockState,
}

/// What a guard is, as plain values: the number of the lock that gave it, and
/// whether the attempt was denied.
pub struct GuardView {
    pub lock: u64,
    pub denied: bool,
}

/// The lock after an attempt to acquire it, and the guard that the attempt
/// gets: the attempt is denied exactly when the lock was held already, and
/// the lock is held afterwards either way.
pub open spec fn acquired(lock: LockView) -> (LockView, GuardView) {
    (
        LockView { id: lock.id, state: LockState::Held },
        GuardView { lock: lock.id, denied: lock.state == LockState::Held },
    )
}

/// The lock after a guard is given back to it: a guard that this lock
/// granted frees it; a guard that was denied, or that another lock gave,
/// leaves it as it is.
pub open spec fn released(lock: LockView, guard: GuardView) -> LockView {
    if !guard.denied && guard.lock == lock.id {
        LockView { id: lock.id, state: LockState::Free }
    } else {
        lock
    }
}

/// While a granted guard is alive a second attempt is denied, and giving the
/// denied guard back does not free the lock. Once the granted guard is given
/// back the lock is free, and the next attempt is granted.
pub proof fn lemma_lock_excludes(id: u64)
    ensures
        ({
            let free = LockView { id, state: LockState::Free };
            let (first_lock, first) = acquired(free);
            let (second_lock, second) = acquired(first_lock);
            let after_denied_gone = released(second_lock, second);
            let after_granted_gone = released(after_denied_gone, first);
            let (_, third) = acquired(after_granted_gone);
            &&& !first.denied
            &&& second.denied
            &&& after_denied_gone.state == LockState::Held
            &&& after_granted_gone.state == LockState::Free
            &&& !third.denied
        }),
{
}

/// Whatever the state, an attempt on a held lock is denied and an attempt on
/// a free lock is granted, so two granted guards of one lock are never alive
/// at once.
pub proof fn lemma_granted_only_when_free(lock: LockView)
    ensures
        acquired(lock).1.denied <==> lock.state == LockState::Held,
        acquired(lock).0.state == LockState::Held,
        acquired(lock).1.lock == lock.id,
{
}

/// A guard that another lock gave frees nothing, granted or not.
pub proof fn lemma_foreign_guard_frees_nothing(lock: LockView, guard: GuardView)
    requires
        guard.lock != lock.id,
    ensures
        released(lock, guard) == lock,
{
}

/// The update lock of one process. A lock is told from other locks by the
/// number that it is made with, so each lock of a process gets a number of
/// its own.
#[derive(Debug)]
pub struct UpdateLock {
    id: u64,
    held: bool,
}

/// What an attempt to acquire the update lock returned. A guard must be
/// given back to its lock with `release` when the protected operation ends,
/// however it ends: a granted guard that is merely dropped leaves the lock
/// held for good.
#[derive(Debug)]
#[must_use]
pub struct UpdateGuard {
    lock: u64,
    denied: bool,
}

impl View for UpdateLock {
    type V = LockView;

    closed spec fn view(&self) -> LockView {
        LockView {
            id: self.id,
            state: if self.held {
                LockState::Held
            } else {
                LockState::Free
            },
        }
    }
}

impl View for UpdateGuard {
    type V = GuardView;

    closed spec fn view(&self) -> GuardView {
        GuardView { lock: self.lock, denied: self.denied }
    }
}

impl UpdateGuard {
    /// Whether another update was in progress when the lock was asked for.
    pub fn denied(&self) -> (b: bool)
        ensures
            b == self@.denied,
    {
        self.denied
    }
}

impl UpdateLock {
    /// A free lock with the number `id`.
    pub fn new(id: u64) -> (r: Self)
        ensures
            r@ == (LockView { id, state: LockState::Free }),
    {
        UpdateLock { id, held: false }
    }

    /// The lock's state.
    pub fn state(&self) -> (r: LockState)
        ensures
            r == self@.state,
    {
        if self.held {
            LockState::Held
        } else {
            LockState::Free
        }
    }

    /// Tries to acquire the lock, without waiting.
    pub fn lock_updates(&mut self) -> (guard: UpdateGuard)
        ensures
            final(self)@ == acquired(old(self)@).0,
            guard@ == acquired(old(self)@).1,
    {
        let denied = self.held;
        self.held = true;
        UpdateGuard { lock: self.id, denied }
    }

    /// Takes a guard back when its holder is done. Only a guard that this
    /// lock granted frees it.
    pub fn release(&mut self, guard: UpdateGuard)
        ensures
            final(self)@ == released(old(self)@, guard@),
    {
        if !guard.denied && guard.lock == self.id {
            self.held = false;
        }
    }

    /// Starts an update: acquires the lock, or fails because another update
    /// is in progress. On failure the lock is left as it was.
    pub fn begin_update(&mut self) -> (r: Result<UpdateGuard, Error>)
        ensures
            old(self)@.state == LockState::Free ==> (r matches Ok(guard) && guard@ == (GuardView {
                lock: old(self)@.id,
                denied: false,
            })),
            old(self)@.state == LockState::Held ==> r == Err::<UpdateGuard, Error>(
                Error::LockDenied,
            ),
            final(self)@ == (LockView { id: old(self)@.id, state: LockState::Held }),
    {
        let guard = self.lock_updates();
        if guard.denied() {
            self.release(guard);
            Err(Error::LockDenied)
        } else {
            Ok(guard)
        }
    }
}

} // verus!
