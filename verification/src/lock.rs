//! The staging-area lock's state machine.
//!
//! The lock is a single advisory token per repository: held or free.
//! Acquisition is fail-fast — a second acquisition while the token is held
//! fails immediately, with no blocking and no retry — and release is
//! unconditional. The filesystem representation of the token (an exclusive
//! lock file inside the repository's control directory) lives with the
//! caller that performs the I/O; this model is what its transitions must
//! obey.

use vstd::prelude::*;

use crate::errors::CommitError;

verus! {

/// Acquiring the token: the next state is always `held`, and the attempt
/// succeeds iff the token was free.
pub open spec fn spec_acquire(held: bool) -> (bool, bool) {
    (true, !held)
}

/// Releasing the token: the token is free afterwards, whatever it was.
pub open spec fn spec_release(held: bool) -> bool {
    false
}

/// The state of one repository's staging-area lock.
pub struct LockState {
    held: bool,
}

impl LockState {
    /// Whether the token is currently held.
    pub closed spec fn is_held(self) -> bool {
        self.held
    }

    /// A fresh lock: nobody holds the token.
    pub fn new() -> (s: Self)
        ensures
            !s.is_held(),
    {
        LockState { held: false }
    }

    /// Fail-fast acquisition of the token representing "I am about to
    /// mutate the staging area". `lock_path` names the token for the
    /// error report.
    pub fn acquire(&mut self, lock_path: &str) -> (r: Result<(), CommitError>)
        ensures
            final(self).is_held() == spec_acquire(old(self).is_held()).0,
            (r is Ok) == spec_acquire(old(self).is_held()).1,
            r matches Err(e) ==> e matches CommitError::AlreadyLocked { path } && path@
                == lock_path@,
    {
        if self.held {
            Err(CommitError::AlreadyLocked { path: lock_path.to_owned() })
        } else {
            self.held = true;
            Ok(())
        }
    }

    /// Unconditional release, taken on every exit path of the locked
    /// region.
    pub fn release(&mut self)
        ensures
            final(self).is_held() == spec_release(old(self).is_held()),
    {
        self.held = false;
    }
}

/// Lock exclusivity: a second acquisition while the first is held fails
/// immediately and leaves the token held; after a release, acquisition
/// succeeds again.
pub proof fn lemma_lock_exclusivity(held0: bool)
    requires
        !held0,
    ensures
        spec_acquire(held0).1,
        !spec_acquire(spec_acquire(held0).0).1,
        spec_acquire(spec_acquire(held0).0).0,
        spec_acquire(spec_release(spec_acquire(held0).0)).1,
{
}

} // verus!
