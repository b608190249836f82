//! The model of a directory tree and the read-only aggregator.
//!
//! A cleanup pass works on a snapshot of the filesystem: every entry is a
//! regular file with a byte size or a directory with its children, and each
//! carries the access the process has to it. `measure` walks such a tree and
//! adds up what a traversal of the real tree would see: an entry the process
//! may not touch is skipped together with everything below it, and any other
//! failure aborts the walk.

use vstd::prelude::*;

use crate::report::{CleanError, DirInfo};

verus! {

broadcast use vstd::seq::group_seq_axioms;

/// What happens when the process touches an entry: the operation succeeds,
/// fails with permission denied (the entry is skipped), or fails with any
/// other error (the whole pass aborts).
#[derive(Clone, Copy, Debug, PartialEq, Eq, Structural)]
pub enum Access {
    Allowed,
    Denied,
    Faulty,
}

/// One entry of a directory tree: a regular file with its byte size, or a
/// directory with its children in listing order. `access` records how the
/// filesystem answers when the process reads or removes the entry.
#[derive(Debug, PartialEq, Eq)]
pub enum Entry {
    File { size: u64, access: Access },
    Dir { entries: Vec<Entry>, access: Access },
}

/// Total bytes of all regular files in the tree rooted at `e`, whatever their
/// access; directories contribute no bytes of their own.
pub open spec fn size_of(e: Entry) -> nat
    decreases e, 0int,
{
    match e {
        Entry::File { size, .. } => size as nat,
        Entry::Dir { entries, .. } => size_prefix(entries@, entries@.len() as int),
    }
}

/// Sum of `size_of` over the first `i` elements of `s`.
pub open spec fn size_prefix(s: Seq<Entry>, i: int) -> nat
    decreases s, i,
{
    if i <= 0 || i > s.len() {
        0
    } else {
        size_prefix(s, i - 1) + size_of(s[i - 1])
    }
}

/// Number of regular files in the tree rooted at `e`, whatever their access;
/// a directory is not itself counted.
pub open spec fn count_of(e: Entry) -> nat
    decreases e, 0int,
{
    match e {
        Entry::File { .. } => 1,
        Entry::Dir { entries, .. } => count_prefix(entries@, entries@.len() as int),
    }
}

/// Sum of `count_of` over the first `i` elements of `s`.
pub open spec fn count_prefix(s: Seq<Entry>, i: int) -> nat
    decreases s, i,
{
    if i <= 0 || i > s.len() {
        0
    } else {
        count_prefix(s, i - 1) + count_of(s[i - 1])
    }
}

/// Whether a traversal of the tree rooted at `e` completes without a fatal
/// error: no entry reachable through allowed directories is faulty. A denied
/// entry is skipped, so nothing below it can abort the walk.
pub open spec fn readable(e: Entry) -> bool
    decreases e, 0int,
{
    match e {
        Entry::File { access, .. } => !(access is Faulty),
        Entry::Dir { entries, access } => match access {
            Access::Allowed => readable_prefix(entries@, entries@.len() as int),
            Access::Denied => true,
            Access::Faulty => false,
        },
    }
}

/// `readable` holds of the first `i` elements of `s`.
pub open spec fn readable_prefix(s: Seq<Entry>, i: int) -> bool
    decreases s, i,
{
    if i <= 0 || i > s.len() {
        true
    } else {
        readable_prefix(s, i - 1) && readable(s[i - 1])
    }
}

/// Bytes a traversal sees in the tree rooted at `e`: the sizes of the allowed
/// regular files reachable through allowed directories.
pub open spec fn seen_size(e: Entry) -> nat
    decreases e, 0int,
{
    match e {
        Entry::File { size, access } => if access is Allowed {
            size as nat
        } else {
            0
        },
        Entry::Dir { entries, access } => if access is Allowed {
            seen_size_prefix(entries@, entries@.len() as int)
        } else {
            0
        },
    }
}

/// Sum of `seen_size` over the first `i` elements of `s`.
pub open spec fn seen_size_prefix(s: Seq<Entry>, i: int) -> nat
    decreases s, i,
{
    if i <= 0 || i > s.len() {
        0
    } else {
        seen_size_prefix(s, i - 1) + seen_size(s[i - 1])
    }
}

/// Files a traversal sees in the tree rooted at `e`.
pub open spec fn seen_count(e: Entry) -> nat
    decreases e, 0int,
{
    match e {
        Entry::File { access, .. } => if access is Allowed {
            1
        } else {
            0
        },
        Entry::Dir { entries, access } => if access is Allowed {
            seen_count_prefix(entries@, entries@.len() as int)
        } else {
            0
        },
    }
}

/// Sum of `seen_count` over the first `i` elements of `s`.
pub open spec fn seen_count_prefix(s: Seq<Entry>, i: int) -> nat
    decreases s, i,
{
    if i <= 0 || i > s.len() {
        0
    } else {
        seen_count_prefix(s, i - 1) + seen_count(s[i - 1])
    }
}

/// Whether a recursive removal of the tree rooted at `e` succeeds: the entry
/// itself and everything below it is allowed.
pub open spec fn removable(e: Entry) -> bool
    decreases e, 0int,
{
    match e {
        Entry::File { access, .. } => access is Allowed,
        Entry::Dir { entries, access } => access is Allowed && removable_prefix(
            entries@,
            entries@.len() as int,
        ),
    }
}

/// `removable` holds of the first `i` elements of `s`.
pub open spec fn removable_prefix(s: Seq<Entry>, i: int) -> bool
    decreases s, i,
{
    if i <= 0 || i > s.len() {
        true
    } else {
        removable_prefix(s, i - 1) && removable(s[i - 1])
    }
}

/// A traversal never sees more bytes or files than the tree holds.
pub proof fn lemma_seen_le_total(e: Entry)
    ensures
        seen_size(e) <= size_of(e),
        seen_count(e) <= count_of(e),
    decreases e, 0int,
{
    match e {
        Entry::File { .. } => {},
        Entry::Dir { entries, .. } => {
            lemma_seen_le_total_prefix(entries@, entries@.len() as int);
        },
    }
}

/// Prefix form of `lemma_seen_le_total`.
pub proof fn lemma_seen_le_total_prefix(s: Seq<Entry>, i: int)
    ensures
        seen_size_prefix(s, i) <= size_prefix(s, i),
        seen_count_prefix(s, i) <= count_prefix(s, i),
    decreases s, i,
{
    if 0 < i <= s.len() {
        lemma_seen_le_total_prefix(s, i - 1);
        lemma_seen_le_total(s[i - 1]);
    }
}

/// Prefix sums grow with the prefix.
pub proof fn lemma_prefix_monotone(s: Seq<Entry>, i: int, j: int)
    requires
        0 <= i <= j <= s.len(),
    ensures
        size_prefix(s, i) <= size_prefix(s, j),
        count_prefix(s, i) <= count_prefix(s, j),
        seen_size_prefix(s, i) <= seen_size_prefix(s, j),
        seen_count_prefix(s, i) <= seen_count_prefix(s, j),
    decreases j,
{
    if i < j {
        lemma_prefix_monotone(s, i, j - 1);
    }
}

/// An element's totals are bounded by any prefix sum that covers it.
pub proof fn lemma_elem_le_prefix(s: Seq<Entry>, k: int, j: int)
    requires
        0 <= k < j <= s.len(),
    ensures
        size_of(s[k]) <= size_prefix(s, j),
        count_of(s[k]) <= count_prefix(s, j),
{
    lemma_prefix_monotone(s, k + 1, j);
}

/// A prefix predicate covers each element it spans.
pub proof fn lemma_prefix_flags(s: Seq<Entry>, k: int, j: int)
    requires
        0 <= k < j <= s.len(),
    ensures
        readable_prefix(s, j) ==> readable(s[k]),
        removable_prefix(s, j) ==> removable(s[k]),
    decreases j,
{
    if k < j - 1 {
        lemma_prefix_flags(s, k, j - 1);
    }
}

/// Law: on a tree with only permission-allowed entries nothing is skipped: a
/// traversal completes and sees exactly the sum of the sizes of all regular
/// files in the tree and their number, directories contributing no bytes or
/// count of their own.
pub proof fn lemma_removable_sees_all(e: Entry)
    requires
        removable(e),
    ensures
        readable(e),
        seen_size(e) == size_of(e),
        seen_count(e) == count_of(e),
    decreases e, 0int,
{
    match e {
        Entry::File { .. } => {},
        Entry::Dir { entries, .. } => {
            lemma_removable_sees_all_prefix(entries@, entries@.len() as int);
        },
    }
}

/// Prefix form of `lemma_removable_sees_all`.
pub proof fn lemma_removable_sees_all_prefix(s: Seq<Entry>, i: int)
    requires
        removable_prefix(s, i),
    ensures
        readable_prefix(s, i),
        seen_size_prefix(s, i) == size_prefix(s, i),
        seen_count_prefix(s, i) == count_prefix(s, i),
    decreases s, i,
{
    if 0 < i <= s.len() {
        lemma_removable_sees_all_prefix(s, i - 1);
        lemma_removable_sees_all(s[i - 1]);
    }
}

/// Walks the tree rooted at `e` without changing anything and reports the
/// bytes and regular files a traversal sees. A permission-denied entry is
/// skipped together with everything below it and the walk continues; any
/// other failure aborts the whole walk, mirroring the deletion pass's
/// tolerance policy.
#[verifier::loop_isolation(false)]
pub fn measure(e: &Entry) -> (r: Result<DirInfo, CleanError>)
    requires
        size_of(*e) <= u64::MAX,
        count_of(*e) <= u64::MAX,
    ensures
        r is Ok <==> readable(*e),
        r matches Ok(d) ==> d.total_size == seen_size(*e) && d.file_count == seen_count(*e),
        r matches Err(er) ==> er is IoFailure,
    decreases *e,
{
    match e {
        Entry::File { size, access } => match access {
            Access::Allowed => Ok(DirInfo { total_size: *size, file_count: 1 }),
            Access::Denied => Ok(DirInfo { total_size: 0, file_count: 0 }),
            Access::Faulty => Err(CleanError::IoFailure),
        },
        Entry::Dir { entries, access } => match access {
            Access::Denied => Ok(DirInfo { total_size: 0, file_count: 0 }),
            Access::Faulty => Err(CleanError::IoFailure),
            Access::Allowed => {
                let n = entries.len();
                let mut total: u64 = 0;
                let mut count: u64 = 0;
                for i in 0..n
                    invariant
                        n == entries@.len(),
                        size_prefix(entries@, n as int) <= u64::MAX,
                        count_prefix(entries@, n as int) <= u64::MAX,
                        readable_prefix(entries@, i as int),
                        total == seen_size_prefix(entries@, i as int),
                        count == seen_count_prefix(entries@, i as int),
                {
                    proof {
                        lemma_elem_le_prefix(entries@, i as int, n as int);
                    }
                    match measure(&entries[i]) {
                        Err(_) => {
                            proof {
                                lemma_prefix_flags(entries@, i as int, n as int);
                            }
                            return Err(CleanError::IoFailure);
                        },
                        Ok(d) => {
                            proof {
                                lemma_seen_le_total_prefix(entries@, i as int + 1);
                                lemma_prefix_monotone(entries@, i as int + 1, n as int);
                            }
                            total = total + d.total_size;
                            count = count + d.file_count;
                        },
                    }
                }
                Ok(DirInfo { total_size: total, file_count: count })
            },
        },
    }
}

/// Whether a recursive removal of `e` would succeed in full, that is, whether
/// the process may delete the entry and everything below it.
#[verifier::loop_isolation(false)]
pub fn is_removable(e: &Entry) -> (b: bool)
    ensures
        b == removable(*e),
    decreases *e,
{
    match e {
        Entry::File { access, .. } => match access {
            Access::Allowed => true,
            _ => false,
        },
        Entry::Dir { entries, access } => match access {
            Access::Allowed => {
                let n = entries.len();
                for i in 0..n
                    invariant
                        n == entries@.len(),
                        removable_prefix(entries@, i as int),
                {
                    if !is_removable(&entries[i]) {
                        proof {
                            lemma_prefix_flags(entries@, i as int, n as int);
                        }
                        return false;
                    }
                }
                true
            },
            _ => false,
        },
    }
}

/// Adds up every regular file in the tree, whatever its access, and reports
/// `None` exactly when one of the two totals cannot be held in a `u64`. A
/// `Some` answer says the tree is small enough for the passes that require
/// bounded totals.
#[verifier::loop_isolation(false)]
pub fn try_totals(e: &Entry) -> (r: Option<DirInfo>)
    ensures
        r is Some <==> size_of(*e) <= u64::MAX && count_of(*e) <= u64::MAX,
        r matches Some(d) ==> d.total_size == size_of(*e) && d.file_count == count_of(*e),
    decreases *e,
{
    match e {
        Entry::File { size, .. } => Some(DirInfo { total_size: *size, file_count: 1 }),
        Entry::Dir { entries, .. } => {
            let n = entries.len();
            let mut total: u64 = 0;
            let mut count: u64 = 0;
            for i in 0..n
                invariant
                    n == entries@.len(),
                    total == size_prefix(entries@, i as int),
                    count == count_prefix(entries@, i as int),
            {
                let sub = try_totals(&entries[i]);
                match sub {
                    None => {
                        proof {
                            lemma_elem_le_prefix(entries@, i as int, n as int);
                        }
                        return None;
                    },
                    Some(d) => {
                        proof {
                            lemma_prefix_monotone(entries@, i as int + 1, n as int);
                        }
                        let nt = total.checked_add(d.total_size);
                        let nc = count.checked_add(d.file_count);
                        match (nt, nc) {
                            (Some(t), Some(c)) => {
                                total = t;
                                count = c;
                            },
                            _ => {
                                return None;
                            },
                        }
                    },
                }
            }
            Some(DirInfo { total_size: total, file_count: count })
        },
    }
}

/// Adds up every regular file under the immediate entries of one root,
/// whatever its access, and reports `None` exactly when one of the two totals
/// cannot be held in a `u64`.
#[verifier::loop_isolation(false)]
pub fn try_totals_of(entries: &Vec<Entry>) -> (r: Option<DirInfo>)
    ensures
        r is Some <==> (size_prefix(entries@, entries@.len() as int) <= u64::MAX && count_prefix(
            entries@,
            entries@.len() as int,
        ) <= u64::MAX),
        r matches Some(d) ==> ({
            &&& d.total_size == size_prefix(entries@, entries@.len() as int)
            &&& d.file_count == count_prefix(entries@, entries@.len() as int)
        }),
{
    let n = entries.len();
    let mut total: u64 = 0;
    let mut count: u64 = 0;
    for i in 0..n
        invariant
            total == size_prefix(entries@, i as int),
            count == count_prefix(entries@, i as int),
    {
        match try_totals(&entries[i]) {
            None => {
                proof {
                    lemma_elem_le_prefix(entries@, i as int, n as int);
                }
                return None;
            },
            Some(d) => {
                proof {
                    lemma_prefix_monotone(entries@, i as int + 1, n as int);
                }
                let nt = total.checked_add(d.total_size);
                let nc = count.checked_add(d.file_count);
                match (nt, nc) {
                    (Some(t), Some(c)) => {
                        total = t;
                        count = c;
                    },
                    _ => {
                        return None;
                    },
                }
            },
        }
    }
    Some(DirInfo { total_size: total, file_count: count })
}

} // verus!
