//! The three fixed cleanup operations.
//!
//! Each operation is a stateless descriptor: it carries nothing between runs
//! and only fixes the deletion policy. The root paths are platform concerns,
//! resolved by the caller and handed in as a snapshot; an empty root set
//! means the current platform defines no location for the operation.

use vstd::prelude::*;

use crate::cleaner::{
    clean, root_cleaned, roots_count, roots_gain_count, roots_gain_size, roots_ok, roots_size,
    Policy, Root,
};
use crate::report::{CleanError, DirInfo};

verus! {

/// The three cleanup tasks: empty the shared scratch directory, clear the
/// user's application-cache directory, clear the known browser caches.
#[derive(Clone, Copy, Debug, PartialEq, Eq, Structural)]
pub enum OperationType {
    DeleteTempFiles,
    DeleteAppCache,
    ClearBrowserCache,
}

impl OperationType {
    /// The deletion policy of the operation: the shared scratch directory is
    /// cleaned shallowly, top-level files only; both cache operations remove
    /// subdirectories wholesale.
    pub open spec fn spec_policy(self) -> Policy {
        match self {
            OperationType::DeleteTempFiles => Policy::FilesOnly,
            OperationType::DeleteAppCache => Policy::Recursive,
            OperationType::ClearBrowserCache => Policy::Recursive,
        }
    }

    /// Returns the operation's deletion policy.
    pub fn policy(&self) -> (p: Policy)
        ensures
            p == self.spec_policy(),
    {
        match self {
            OperationType::DeleteTempFiles => Policy::FilesOnly,
            _ => Policy::Recursive,
        }
    }

    /// Maps a menu selection index to its operation. The caller owes an
    /// index below three; anything else is a programming error, not an
    /// input.
    pub fn from_selection(selection: usize) -> (op: OperationType)
        requires
            selection < 3,
        ensures
            selection == 0 ==> op is DeleteTempFiles,
            selection == 1 ==> op is DeleteAppCache,
            selection == 2 ==> op is ClearBrowserCache,
    {
        if selection == 0 {
            OperationType::DeleteTempFiles
        } else if selection == 1 {
            OperationType::DeleteAppCache
        } else {
            OperationType::ClearBrowserCache
        }
    }

    /// Runs the operation over its resolved roots. An empty root set means
    /// the platform defines no location for this operation and fails with
    /// `Unsupported`. Otherwise the deletion pass runs under the operation's
    /// policy: a missing root contributes a zero-valued result, a
    /// permission-denied entry is skipped, and any other failure aborts with
    /// `IoFailure`. On success the result reports the bytes and regular
    /// files removed and the snapshot of what survives, root by root.
    pub fn execute(&self, roots: Vec<Root>) -> (r: Result<(DirInfo, Vec<Root>), CleanError>)
        requires
            roots_size(roots@) <= u64::MAX,
            roots_count(roots@) <= u64::MAX,
        ensures
            roots@.len() == 0 ==> (r matches Err(er) && er is Unsupported),
            roots@.len() > 0 ==> ((r is Ok) <==> roots_ok(roots@, self.spec_policy())),
            r matches Ok(pair) ==> ({
                &&& pair.0.total_size == roots_gain_size(roots@, self.spec_policy())
                &&& pair.0.file_count == roots_gain_count(roots@, self.spec_policy())
                &&& pair.1@.len() == roots@.len()
                &&& forall|k: int|
                    0 <= k < roots@.len() ==> root_cleaned(
                        roots@[k],
                        #[trigger] pair.1@[k],
                        self.spec_policy(),
                    )
            }),
            roots@.len() > 0 && r is Err ==> (r matches Err(er) && er is IoFailure),
    {
        if roots.len() == 0 {
            return Err(CleanError::Unsupported);
        }
        let p = self.policy();
        clean(roots, p)
    }
}

} // verus!
