//! Disk-cleanup engine: a model of a directory tree, a read-only size
//! aggregator, and a deletion pass that tolerates permission failures on
//! individual entries while reporting how many files and bytes were removed.
//!
//! The engine works on a snapshot of the filesystem (`tree::Entry`,
//! `cleaner::Root`): the caller resolves the platform's root paths, records
//! what the filesystem holds and how it answers, and the engine decides what
//! a pass removes, what survives, and what is reported.

pub mod cleaner;
pub mod operation;
pub mod report;
pub mod tree;
