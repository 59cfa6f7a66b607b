//! The discipline around the managed runtime's global lock.
//!
//! A thread keeps a `LockState` that says whether it holds the lock. Native
//! work that needs no managed object runs with the lock released, so that
//! other threads can run; every access to a managed object runs with the lock
//! held. The two scopes below change the state for the time of a body and set
//! it again on the way out.

use vstd::prelude::*;

verus! {

/// Whether the calling thread holds the global lock.
#[derive(Clone, Copy, Debug, PartialEq, Eq, Structural)]
pub enum LockState {
    Held,
    Released,
}

/// A managed object was reached for by a thread that does not hold the lock.
#[derive(Clone, Copy, Debug, PartialEq, Eq, Structural)]
pub struct LockMisuseError;

impl LockState {
    /// The thread holds the lock.
    pub open spec fn is_held(self) -> bool {
        self == LockState::Held
    }

    /// The state of a thread that the managed runtime has called into: it
    /// holds the lock.
    pub fn entered_from_managed() -> (state: LockState)
        ensures
            state == LockState::Held,
    {
        LockState::Held
    }

    /// The state in which a native thread starts: it does not hold the lock,
    /// and takes it with `run_with_lock` before it calls into managed code.
    pub fn native_thread() -> (state: LockState)
        ensures
            state == LockState::Released,
    {
        LockState::Released
    }

    /// Whether the thread holds the lock.
    pub fn held(&self) -> (held: bool)
        ensures
            held == self.is_held(),
    {
        match self {
            LockState::Held => true,
            LockState::Released => false,
        }
    }

    /// The guard before an access to a managed object: an error unless the
    /// thread holds the lock.
    pub fn guard(&self) -> (checked: Result<(), LockMisuseError>)
        ensures
            checked is Ok <==> self.is_held(),
    {
        match self {
            LockState::Held => Ok(()),
            LockState::Released => Err(LockMisuseError),
        }
    }

    /// Takes the lock and gives back the state before. A thread that holds
    /// the lock already takes it again without waiting.
    pub fn acquire(&mut self) -> (before: LockState)
        ensures
            before == *old(self),
            *final(self) == LockState::Held,
    {
        let before = *self;
        *self = LockState::Held;
        before
    }

    /// Gives the lock up and gives back the state before.
    pub fn release(&mut self) -> (before: LockState)
        ensures
            before == *old(self),
            *final(self) == LockState::Released,
    {
        let before = *self;
        *self = LockState::Released;
        before
    }

    /// Runs `body` with the lock held; `body` is handed the state that is in
    /// force while it runs. On the way out the state is what it was before
    /// the call, whatever `body` returned: a thread that held the lock holds
    /// it still, one that did not has given it up again.
    pub fn run_with_lock<T, F: FnOnce(LockState) -> T>(&mut self, body: F) -> (out: T)
        requires
            body.requires((LockState::Held,)),
        ensures
            *final(self) == *old(self),
            body.ensures((LockState::Held,), out),
    {
        let before = self.acquire();
        let out = body(*self);
        *self = before;
        out
    }

    /// Runs `body` with the lock released; `body` is handed the state that is
    /// in force while it runs, and must not touch a managed object under it.
    /// On the way out the thread holds the lock, whatever `body` returned.
    pub fn run_without_lock<T, F: FnOnce(LockState) -> T>(&mut self, body: F) -> (out: T)
        requires
            body.requires((LockState::Released,)),
        ensures
            final(self).is_held(),
            body.ensures((LockState::Released,), out),
    {
        self.release();
        let out = body(*self);
        self.acquire();
        out
    }
}

} // verus!
