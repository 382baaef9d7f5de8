//! Why the single-instance lock could not be taken.
//!
//! One Agent runs per SID. The decision does not rest on a stale PID file:
//! an OS named mutex and the creation of the first pipe instance decide it.

use vstd::prelude::*;

verus! {

/// Why the lock could not be taken.
#[derive(Debug)]
pub enum LockError {
    /// An Agent of the same SID already runs.
    AlreadyRunning,
    /// The mutex could not be created.
    Os(std::io::Error),
}

impl LockError {
    /// Whether another Agent of the same user holds the lock; then the new
    /// one ends quietly instead of failing.
    pub fn is_already_running(&self) -> (r: bool)
        ensures
            r == (*self is AlreadyRunning),
    {
        match self {
            LockError::AlreadyRunning => true,
            LockError::Os(_) => false,
        }
    }
}

} // verus!
