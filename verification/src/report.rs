//! The result record of a traversal or deletion pass, and the errors a pass
//! can surface.

use vstd::prelude::*;

verus! {

/// Aggregate result of one traversal or deletion pass: total bytes and number
/// of regular files encountered or removed. Directories never contribute to
/// either field themselves; only the regular files inside them count.
#[derive(Clone, Copy, Debug, PartialEq, Eq, Structural)]
pub struct DirInfo {
    pub total_size: u64,
    pub file_count: u64,
}

impl DirInfo {
    /// A zero-valued record, the starting point of every pass.
    pub fn zero() -> (d: DirInfo)
        ensures
            d.total_size == 0,
            d.file_count == 0,
    {
        DirInfo { total_size: 0, file_count: 0 }
    }
}

/// The errors a cleanup operation surfaces to its caller. A permission
/// failure on an individual entry is recovered locally (the entry is skipped)
/// and never appears here.
#[derive(Clone, Copy, Debug, PartialEq, Eq, Structural)]
pub enum CleanError {
    /// No root path is defined for the current platform.
    Unsupported,
    /// A filesystem failure other than permission-denied on a single entry;
    /// it aborts the operation that met it.
    IoFailure,
}

} // verus!
