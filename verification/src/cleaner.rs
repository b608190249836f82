//! The deletion pass.
//!
//! `clean` takes the snapshot of one or more root directories and a policy,
//! deletes what the policy names, and reports the bytes and files reclaimed
//! together with what survives. A root that does not exist contributes a
//! zero-valued result. A permission-denied entry is skipped and the pass goes
//! on; any other failure aborts the whole pass.

use vstd::prelude::*;

use crate::report::{CleanError, DirInfo};
use crate::tree::{
    count_prefix, lemma_elem_le_prefix, lemma_prefix_monotone, lemma_removable_sees_all,
    lemma_seen_le_total, measure, is_removable, readable, removable, seen_count, seen_size,
    size_prefix, try_totals_of, Access, Entry,
};

verus! {

broadcast use vstd::seq::group_seq_axioms;

/// How a deletion pass treats the immediate entries of a root.
#[derive(Clone, Copy, Debug, PartialEq, Eq, Structural)]
pub enum Policy {
    /// Delete top-level regular files only; subdirectories and everything
    /// below them are left untouched.
    FilesOnly,
    /// Delete top-level regular files, and subdirectories with their whole
    /// subtrees.
    Recursive,
}

/// One candidate root directory of a cleanup operation: absent on this
/// machine, or present with its immediate entries in listing order. The root
/// directory itself is never deleted, only its contents.
#[derive(Debug, PartialEq, Eq)]
pub enum Root {
    Missing,
    Present { entries: Vec<Entry> },
}

/// Whether meeting `e` aborts a deletion pass. Under `FilesOnly` only a
/// faulty regular file is fatal, since directories are never touched. Under
/// `Recursive` a directory is measured before it is removed, so everything
/// the measuring walk would abort on is fatal here too.
pub open spec fn entry_fatal(e: Entry, p: Policy) -> bool {
    match p {
        Policy::FilesOnly => e matches Entry::File { access, .. } && access is Faulty,
        Policy::Recursive => !readable(e),
    }
}

/// Whether the pass removes `e`: an allowed regular file under either policy,
/// and under `Recursive` a directory whose whole subtree may be deleted. A
/// directory that resists removal anywhere is skipped and survives whole.
pub open spec fn entry_removed(e: Entry, p: Policy) -> bool {
    match e {
        Entry::File { access, .. } => access is Allowed,
        Entry::Dir { .. } => p is Recursive && removable(e),
    }
}

/// Bytes the pass reclaims at `e`.
pub open spec fn gain_size(e: Entry, p: Policy) -> nat {
    if entry_removed(e, p) {
        seen_size(e)
    } else {
        0
    }
}

/// Files the pass counts as removed at `e`. A removed directory contributes
/// the regular files inside it and nothing for itself: `file_count` counts
/// regular files under every policy.
pub open spec fn gain_count(e: Entry, p: Policy) -> nat {
    if entry_removed(e, p) {
        seen_count(e)
    } else {
        0
    }
}

/// No fatal entry among the first `i` elements of `s`.
pub open spec fn fatal_free_prefix(s: Seq<Entry>, p: Policy, i: int) -> bool
    decreases i,
{
    if i <= 0 || i > s.len() {
        true
    } else {
        fatal_free_prefix(s, p, i - 1) && !entry_fatal(s[i - 1], p)
    }
}

/// Sum of `gain_size` over the first `i` elements of `s`.
pub open spec fn gain_size_prefix(s: Seq<Entry>, p: Policy, i: int) -> nat
    decreases i,
{
    if i <= 0 || i > s.len() {
        0
    } else {
        gain_size_prefix(s, p, i - 1) + gain_size(s[i - 1], p)
    }
}

/// Sum of `gain_count` over the first `i` elements of `s`.
pub open spec fn gain_count_prefix(s: Seq<Entry>, p: Policy, i: int) -> nat
    decreases i,
{
    if i <= 0 || i > s.len() {
        0
    } else {
        gain_count_prefix(s, p, i - 1) + gain_count(s[i - 1], p)
    }
}

/// The survivors among the first `i` elements of `s`, in their original
/// order.
pub open spec fn kept_prefix(s: Seq<Entry>, p: Policy, i: int) -> Seq<Entry>
    decreases i,
{
    if i <= 0 || i > s.len() {
        Seq::empty()
    } else if entry_removed(s[i - 1], p) {
        kept_prefix(s, p, i - 1)
    } else {
        kept_prefix(s, p, i - 1).push(s[i - 1])
    }
}

/// The pass over all of `s` meets no fatal entry.
pub open spec fn entries_ok(s: Seq<Entry>, p: Policy) -> bool {
    fatal_free_prefix(s, p, s.len() as int)
}

/// Bytes the pass reclaims over all of `s`.
pub open spec fn entries_gain_size(s: Seq<Entry>, p: Policy) -> nat {
    gain_size_prefix(s, p, s.len() as int)
}

/// Files the pass reclaims over all of `s`.
pub open spec fn entries_gain_count(s: Seq<Entry>, p: Policy) -> nat {
    gain_count_prefix(s, p, s.len() as int)
}

/// The entries of `s` that survive the pass, in their original order.
pub open spec fn entries_kept(s: Seq<Entry>, p: Policy) -> Seq<Entry> {
    kept_prefix(s, p, s.len() as int)
}

/// Total bytes under a root, whatever the access of its entries.
pub open spec fn root_size(r: Root) -> nat {
    match r {
        Root::Missing => 0,
        Root::Present { entries } => size_prefix(entries@, entries@.len() as int),
    }
}

/// Total regular files under a root, whatever the access of its entries.
pub open spec fn root_count(r: Root) -> nat {
    match r {
        Root::Missing => 0,
        Root::Present { entries } => count_prefix(entries@, entries@.len() as int),
    }
}

/// The pass over one root meets no fatal entry; a missing root is fine.
pub open spec fn root_ok(r: Root, p: Policy) -> bool {
    match r {
        Root::Missing => true,
        Root::Present { entries } => entries_ok(entries@, p),
    }
}

/// Bytes the pass reclaims under one root; a missing root contributes zero.
pub open spec fn root_gain_size(r: Root, p: Policy) -> nat {
    match r {
        Root::Missing => 0,
        Root::Present { entries } => entries_gain_size(entries@, p),
    }
}

/// Files the pass reclaims under one root; a missing root contributes zero.
pub open spec fn root_gain_count(r: Root, p: Policy) -> nat {
    match r {
        Root::Missing => 0,
        Root::Present { entries } => entries_gain_count(entries@, p),
    }
}

/// Relates a root before the pass to the same root after it: a missing root
/// stays missing, a present one keeps exactly the surviving entries.
pub open spec fn root_cleaned(before: Root, after: Root, p: Policy) -> bool {
    match before {
        Root::Missing => after is Missing,
        Root::Present { entries } => {
            &&& after matches Root::Present { entries: kept }
            &&& kept@ == entries_kept(entries@, p)
        },
    }
}

/// Sum of `root_size` over the first `i` roots.
pub open spec fn roots_size_prefix(rs: Seq<Root>, i: int) -> nat
    decreases i,
{
    if i <= 0 || i > rs.len() {
        0
    } else {
        roots_size_prefix(rs, i - 1) + root_size(rs[i - 1])
    }
}

/// Sum of `root_count` over the first `i` roots.
pub open spec fn roots_count_prefix(rs: Seq<Root>, i: int) -> nat
    decreases i,
{
    if i <= 0 || i > rs.len() {
        0
    } else {
        roots_count_prefix(rs, i - 1) + root_count(rs[i - 1])
    }
}

/// `root_ok` holds of the first `i` roots.
pub open spec fn roots_ok_prefix(rs: Seq<Root>, p: Policy, i: int) -> bool
    decreases i,
{
    if i <= 0 || i > rs.len() {
        true
    } else {
        roots_ok_prefix(rs, p, i - 1) && root_ok(rs[i - 1], p)
    }
}

/// Sum of `root_gain_size` over the first `i` roots.
pub open spec fn roots_gain_size_prefix(rs: Seq<Root>, p: Policy, i: int) -> nat
    decreases i,
{
    if i <= 0 || i > rs.len() {
        0
    } else {
        roots_gain_size_prefix(rs, p, i - 1) + root_gain_size(rs[i - 1], p)
    }
}

/// Sum of `root_gain_count` over the first `i` roots.
pub open spec fn roots_gain_count_prefix(rs: Seq<Root>, p: Policy, i: int) -> nat
    decreases i,
{
    if i <= 0 || i > rs.len() {
        0
    } else {
        roots_gain_count_prefix(rs, p, i - 1) + root_gain_count(rs[i - 1], p)
    }
}

/// Total bytes under all the roots.
pub open spec fn roots_size(rs: Seq<Root>) -> nat {
    roots_size_prefix(rs, rs.len() as int)
}

/// Total regular files under all the roots.
pub open spec fn roots_count(rs: Seq<Root>) -> nat {
    roots_count_prefix(rs, rs.len() as int)
}

/// The pass over all the roots meets no fatal entry.
pub open spec fn roots_ok(rs: Seq<Root>, p: Policy) -> bool {
    roots_ok_prefix(rs, p, rs.len() as int)
}

/// Bytes the pass reclaims over all the roots.
pub open spec fn roots_gain_size(rs: Seq<Root>, p: Policy) -> nat {
    roots_gain_size_prefix(rs, p, rs.len() as int)
}

/// Files the pass reclaims over all the roots.
pub open spec fn roots_gain_count(rs: Seq<Root>, p: Policy) -> nat {
    roots_gain_count_prefix(rs, p, rs.len() as int)
}

/// What a pass reclaims at one entry never exceeds what the entry holds.
pub proof fn lemma_gain_le_total(e: Entry, p: Policy)
    ensures
        gain_size(e, p) <= crate::tree::size_of(e),
        gain_count(e, p) <= crate::tree::count_of(e),
{
    lemma_seen_le_total(e);
}

/// Prefix form of `lemma_gain_le_total`.
pub proof fn lemma_gain_le_total_prefix(s: Seq<Entry>, p: Policy, i: int)
    ensures
        gain_size_prefix(s, p, i) <= size_prefix(s, i),
        gain_count_prefix(s, p, i) <= count_prefix(s, i),
    decreases i,
{
    if 0 < i <= s.len() {
        lemma_gain_le_total_prefix(s, p, i - 1);
        lemma_gain_le_total(s[i - 1], p);
    }
}

/// A pass that completes a prefix met no fatal entry inside it.
pub proof fn lemma_fatal_free_elem(s: Seq<Entry>, p: Policy, k: int, j: int)
    requires
        0 <= k < j <= s.len(),
    ensures
        fatal_free_prefix(s, p, j) ==> !entry_fatal(s[k], p),
    decreases j,
{
    if k < j - 1 {
        lemma_fatal_free_elem(s, p, k, j - 1);
    }
}

/// One root's totals are bounded by any prefix sum of roots that covers it,
/// and the prefix sums grow with the prefix.
pub proof fn lemma_roots_prefix_monotone(rs: Seq<Root>, i: int, j: int)
    requires
        0 <= i <= j <= rs.len(),
    ensures
        roots_size_prefix(rs, i) <= roots_size_prefix(rs, j),
        roots_count_prefix(rs, i) <= roots_count_prefix(rs, j),
    decreases j,
{
    if i < j {
        lemma_roots_prefix_monotone(rs, i, j - 1);
    }
}

/// What a pass reclaims over a prefix of roots never exceeds what those roots
/// hold.
pub proof fn lemma_roots_gain_le_size_prefix(rs: Seq<Root>, p: Policy, i: int)
    ensures
        roots_gain_size_prefix(rs, p, i) <= roots_size_prefix(rs, i),
        roots_gain_count_prefix(rs, p, i) <= roots_count_prefix(rs, i),
    decreases i,
{
    if 0 < i <= rs.len() {
        lemma_roots_gain_le_size_prefix(rs, p, i - 1);
        match rs[i - 1] {
            Root::Missing => {},
            Root::Present { entries } => {
                lemma_gain_le_total_prefix(entries@, p, entries@.len() as int);
            },
        }
    }
}

/// A pass that completes a prefix of roots met no failing root inside it.
pub proof fn lemma_roots_ok_elem(rs: Seq<Root>, p: Policy, k: int, j: int)
    requires
        0 <= k < j <= rs.len(),
    ensures
        roots_ok_prefix(rs, p, j) ==> root_ok(rs[k], p),
    decreases j,
{
    if k < j - 1 {
        lemma_roots_ok_elem(rs, p, k, j - 1);
    }
}

/// Law: on a root whose entries are all fully removable, a `Recursive` pass
/// completes, removes every entry, and reports exactly the regular files
/// originally present and their total bytes. A removed directory adds the
/// files inside it and nothing for itself.
pub proof fn lemma_clean_removes_all(s: Seq<Entry>)
    requires
        forall|k: int| 0 <= k < s.len() ==> removable(#[trigger] s[k]),
    ensures
        entries_ok(s, Policy::Recursive),
        entries_gain_size(s, Policy::Recursive) == size_prefix(s, s.len() as int),
        entries_gain_count(s, Policy::Recursive) == count_prefix(s, s.len() as int),
        entries_kept(s, Policy::Recursive) == Seq::<Entry>::empty(),
{
    lemma_clean_removes_all_prefix(s, s.len() as int);
}

/// Prefix form of `lemma_clean_removes_all`.
pub proof fn lemma_clean_removes_all_prefix(s: Seq<Entry>, i: int)
    requires
        0 <= i <= s.len(),
        forall|k: int| 0 <= k < s.len() ==> removable(#[trigger] s[k]),
    ensures
        fatal_free_prefix(s, Policy::Recursive, i),
        gain_size_prefix(s, Policy::Recursive, i) == size_prefix(s, i),
        gain_count_prefix(s, Policy::Recursive, i) == count_prefix(s, i),
        kept_prefix(s, Policy::Recursive, i) == Seq::<Entry>::empty(),
    decreases i,
{
    if i > 0 {
        lemma_clean_removes_all_prefix(s, i - 1);
        lemma_removable_sees_all(s[i - 1]);
    }
}

/// Law: cleaning an already-empty root meets no error, reclaims zero bytes
/// and zero files, and leaves the root empty again, so a second pass over
/// what is left returns the same zero-valued result without error.
pub proof fn lemma_clean_empty_idempotent(p: Policy)
    ensures
        entries_ok(Seq::<Entry>::empty(), p),
        entries_gain_size(Seq::<Entry>::empty(), p) == 0,
        entries_gain_count(Seq::<Entry>::empty(), p) == 0,
        entries_kept(Seq::<Entry>::empty(), p) == Seq::<Entry>::empty(),
        entries_ok(entries_kept(Seq::<Entry>::empty(), p), p),
        entries_gain_size(entries_kept(Seq::<Entry>::empty(), p), p) == 0,
        entries_gain_count(entries_kept(Seq::<Entry>::empty(), p), p) == 0,
{
}

/// Law: a missing root is not an error: the pass reports a zero-valued
/// result for it and the root stays missing.
pub proof fn lemma_missing_root_zero(p: Policy)
    ensures
        root_ok(Root::Missing, p),
        root_gain_size(Root::Missing, p) == 0,
        root_gain_count(Root::Missing, p) == 0,
        root_cleaned(Root::Missing, Root::Missing, p),
{
}

/// A root's totals are bounded by any prefix sum of roots that covers it.
pub proof fn lemma_root_le_prefix(rs: Seq<Root>, k: int, j: int)
    requires
        0 <= k < j <= rs.len(),
    ensures
        root_size(rs[k]) <= roots_size_prefix(rs, j),
        root_count(rs[k]) <= roots_count_prefix(rs, j),
{
    lemma_roots_prefix_monotone(rs, k + 1, j);
}

/// Whether the whole root set is small enough for the passes that require
/// bounded totals: the bytes and the regular files under all the roots
/// together each fit in a `u64`.
#[verifier::loop_isolation(false)]
pub fn within_limits(roots: &Vec<Root>) -> (b: bool)
    ensures
        b == (roots_size(roots@) <= u64::MAX && roots_count(roots@) <= u64::MAX),
{
    let n = roots.len();
    let mut total: u64 = 0;
    let mut count: u64 = 0;
    for i in 0..n
        invariant
            total == roots_size_prefix(roots@, i as int),
            count == roots_count_prefix(roots@, i as int),
    {
        let sub = match &roots[i] {
            Root::Missing => Some(DirInfo { total_size: 0, file_count: 0 }),
            Root::Present { entries } => try_totals_of(entries),
        };
        match sub {
            None => {
                proof {
                    lemma_root_le_prefix(roots@, i as int, n as int);
                }
                return false;
            },
            Some(d) => {
                proof {
                    lemma_roots_prefix_monotone(roots@, i as int + 1, n as int);
                }
                let nt = total.checked_add(d.total_size);
                let nc = count.checked_add(d.file_count);
                match (nt, nc) {
                    (Some(t), Some(c)) => {
                        total = t;
                        count = c;
                    },
                    _ => {
                        return false;
                    },
                }
            },
        }
    }
    true
}

/// Deletes the contents of one root directory per `policy`, consuming the
/// snapshot. Returns what was reclaimed together with the entries that
/// survive, in their original order; or `IoFailure` as soon as an entry
/// fails with anything other than permission-denied. A permission-denied
/// entry is skipped, counted as neither success nor failure, and survives.
#[verifier::loop_isolation(false)]
pub fn clean_entries(entries: Vec<Entry>, policy: Policy) -> (r: Result<
    (DirInfo, Vec<Entry>),
    CleanError,
>)
    requires
        size_prefix(entries@, entries@.len() as int) <= u64::MAX,
        count_prefix(entries@, entries@.len() as int) <= u64::MAX,
    ensures
        r is Ok <==> entries_ok(entries@, policy),
        r matches Ok(pair) ==> ({
            &&& pair.0.total_size == entries_gain_size(entries@, policy)
            &&& pair.0.file_count == entries_gain_count(entries@, policy)
            &&& pair.1@ == entries_kept(entries@, policy)
        }),
        r matches Err(er) ==> er is IoFailure,
{
    let ghost orig = entries@;
    let ghost n = entries@.len() as int;
    let mut work = entries;
    let mut rest: Vec<Entry> = Vec::new();
    let mut total: u64 = 0;
    let mut count: u64 = 0;
    let ghost mut i: int = 0;
    while work.len() > 0
        invariant
            0 <= i <= n,
            work@ == orig.subrange(i, n),
            fatal_free_prefix(orig, policy, i),
            total == gain_size_prefix(orig, policy, i),
            count == gain_count_prefix(orig, policy, i),
            rest@ == kept_prefix(orig, policy, i),
        decreases work@.len(),
    {
        let e = work.remove(0);
        proof {
            assert(e == orig[i]);
            assert(work@ =~= orig.subrange(i + 1, n));
        }
        match &e {
            Entry::File { size, access } => {
                let sz: u64 = *size;
                match access {
                    Access::Allowed => {
                        proof {
                            lemma_gain_le_total_prefix(orig, policy, i + 1);
                            lemma_prefix_monotone(orig, i + 1, n);
                        }
                        total = total + sz;
                        count = count + 1;
                    },
                    Access::Denied => {
                        rest.push(e);
                    },
                    Access::Faulty => {
                        proof {
                            lemma_fatal_free_elem(orig, policy, i, n);
                        }
                        return Err(CleanError::IoFailure);
                    },
                }
            },
            Entry::Dir { .. } => {
                match policy {
                    Policy::FilesOnly => {
                        rest.push(e);
                    },
                    Policy::Recursive => {
                        proof {
                            lemma_elem_le_prefix(orig, i, n);
                        }
                        match measure(&e) {
                            Err(_) => {
                                proof {
                                    lemma_fatal_free_elem(orig, policy, i, n);
                                }
                                return Err(CleanError::IoFailure);
                            },
                            Ok(d) => {
                                if is_removable(&e) {
                                    proof {
                                        lemma_gain_le_total_prefix(orig, policy, i + 1);
                                        lemma_prefix_monotone(orig, i + 1, n);
                                    }
                                    total = total + d.total_size;
                                    count = count + d.file_count;
                                } else {
                                    rest.push(e);
                                }
                            },
                        }
                    },
                }
            },
        }
        proof {
            i = i + 1;
        }
    }
    Ok((DirInfo { total_size: total, file_count: count }, rest))
}

/// Runs the deletion pass over every root in order, consuming the snapshot.
/// A missing root contributes a zero-valued result and stays missing; the
/// first fatal entry aborts the whole pass with `IoFailure`.
#[verifier::loop_isolation(false)]
pub fn clean(roots: Vec<Root>, policy: Policy) -> (r: Result<(DirInfo, Vec<Root>), CleanError>)
    requires
        roots_size(roots@) <= u64::MAX,
        roots_count(roots@) <= u64::MAX,
    ensures
        r is Ok <==> roots_ok(roots@, policy),
        r matches Ok(pair) ==> ({
            &&& pair.0.total_size == roots_gain_size(roots@, policy)
            &&& pair.0.file_count == roots_gain_count(roots@, policy)
            &&& pair.1@.len() == roots@.len()
            &&& forall|k: int|
                0 <= k < roots@.len() ==> root_cleaned(roots@[k], #[trigger] pair.1@[k], policy)
        }),
        r matches Err(er) ==> er is IoFailure,
{
    let ghost orig = roots@;
    let ghost n = roots@.len() as int;
    let mut work = roots;
    let mut out: Vec<Root> = Vec::new();
    let mut total: u64 = 0;
    let mut count: u64 = 0;
    let ghost mut i: int = 0;
    while work.len() > 0
        invariant
            0 <= i <= n,
            work@ == orig.subrange(i, n),
            out@.len() == i,
            roots_ok_prefix(orig, policy, i),
            total == roots_gain_size_prefix(orig, policy, i),
            count == roots_gain_count_prefix(orig, policy, i),
            forall|k: int| 0 <= k < i ==> root_cleaned(orig[k], #[trigger] out@[k], policy),
        decreases work@.len(),
    {
        let r = work.remove(0);
        proof {
            assert(r == orig[i]);
            assert(work@ =~= orig.subrange(i + 1, n));
        }
        match r {
            Root::Missing => {
                out.push(Root::Missing);
            },
            Root::Present { entries } => {
                proof {
                    lemma_roots_prefix_monotone(orig, i + 1, n);
                }
                match clean_entries(entries, policy) {
                    Err(_) => {
                        proof {
                            lemma_roots_ok_elem(orig, policy, i, n);
                        }
                        return Err(CleanError::IoFailure);
                    },
                    Ok(pair) => {
                        proof {
                            lemma_roots_gain_le_size_prefix(orig, policy, i + 1);
                        }
                        total = total + pair.0.total_size;
                        count = count + pair.0.file_count;
                        out.push(Root::Present { entries: pair.1 });
                    },
                }
            },
        }
        proof {
            i = i + 1;
        }
    }
    Ok((DirInfo { total_size: total, file_count: count }, out))
}

} // verus!
