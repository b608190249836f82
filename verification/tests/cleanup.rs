use derust::cleaner::{clean, clean_entries, within_limits, Policy, Root};
use derust::operation::OperationType;
use derust::report::{CleanError, DirInfo};
use derust::tree::{is_removable, measure, try_totals, try_totals_of, Access, Entry};

fn file(size: u64, access: Access) -> Entry {
    Entry::File { size, access }
}

fn dir(entries: Vec<Entry>, access: Access) -> Entry {
    Entry::Dir { entries, access }
}

#[test]
fn measure_sums_all_regular_files() {
    let tree = dir(
        vec![
            file(3, Access::Allowed),
            dir(
                vec![file(4, Access::Allowed), dir(vec![file(5, Access::Allowed)], Access::Allowed)],
                Access::Allowed,
            ),
        ],
        Access::Allowed,
    );
    let info = measure(&tree).unwrap();
    assert_eq!(info, DirInfo { total_size: 12, file_count: 3 });
}

#[test]
fn measure_skips_denied_subtree() {
    let tree = dir(
        vec![
            file(3, Access::Allowed),
            dir(vec![file(100, Access::Allowed)], Access::Denied),
            file(2, Access::Denied),
        ],
        Access::Allowed,
    );
    let info = measure(&tree).unwrap();
    assert_eq!(info, DirInfo { total_size: 3, file_count: 1 });
}

#[test]
fn measure_denied_root_is_zero() {
    let tree = dir(vec![file(9, Access::Allowed)], Access::Denied);
    let info = measure(&tree).unwrap();
    assert_eq!(info, DirInfo { total_size: 0, file_count: 0 });
}

#[test]
fn measure_aborts_on_faulty_entry() {
    let tree = dir(vec![file(3, Access::Allowed), file(1, Access::Faulty)], Access::Allowed);
    assert_eq!(measure(&tree), Err(CleanError::IoFailure));
}

#[test]
fn measure_does_not_look_inside_denied_dir() {
    let tree = dir(vec![dir(vec![file(1, Access::Faulty)], Access::Denied)], Access::Allowed);
    let info = measure(&tree).unwrap();
    assert_eq!(info, DirInfo { total_size: 0, file_count: 0 });
}

#[test]
fn recursive_clean_removes_everything() {
    let entries = vec![
        file(3, Access::Allowed),
        dir(
            vec![file(4, Access::Allowed), dir(vec![file(5, Access::Allowed)], Access::Allowed)],
            Access::Allowed,
        ),
    ];
    let (info, rest) = clean_entries(entries, Policy::Recursive).unwrap();
    // A removed directory contributes its files only, never a unit for itself.
    assert_eq!(info, DirInfo { total_size: 12, file_count: 3 });
    assert!(rest.is_empty());
}

#[test]
fn clean_on_empty_root_is_idempotent() {
    let (info, rest) = clean_entries(Vec::new(), Policy::Recursive).unwrap();
    assert_eq!(info, DirInfo { total_size: 0, file_count: 0 });
    assert!(rest.is_empty());
    let (again, rest2) = clean_entries(rest, Policy::Recursive).unwrap();
    assert_eq!(again, DirInfo { total_size: 0, file_count: 0 });
    assert!(rest2.is_empty());
}

#[test]
fn clean_missing_root_is_not_an_error() {
    let (info, remaining) = clean(vec![Root::Missing], Policy::Recursive).unwrap();
    assert_eq!(info, DirInfo { total_size: 0, file_count: 0 });
    assert_eq!(remaining, vec![Root::Missing]);
}

#[test]
fn clean_skips_denied_file_and_deletes_the_rest() {
    // One file the process cannot delete, two it can.
    let entries = vec![
        file(6, Access::Allowed),
        file(100, Access::Denied),
        file(4, Access::Allowed),
    ];
    let (info, rest) = clean_entries(entries, Policy::FilesOnly).unwrap();
    assert_eq!(info.file_count, 2);
    assert_eq!(info.total_size, 10);
    assert_eq!(rest, vec![file(100, Access::Denied)]);
}

#[test]
fn temp_clean_leaves_subdirectories_untouched() {
    // /tmp holds one 10-byte file and one subdirectory with another file.
    let sub = dir(vec![file(33, Access::Allowed)], Access::Allowed);
    let roots = vec![Root::Present {
        entries: vec![file(10, Access::Allowed), dir(vec![file(33, Access::Allowed)], Access::Allowed)],
    }];
    let op = OperationType::DeleteTempFiles;
    let (info, remaining) = op.execute(roots).unwrap();
    assert_eq!(info, DirInfo { total_size: 10, file_count: 1 });
    assert_eq!(remaining, vec![Root::Present { entries: vec![sub] }]);
}

#[test]
fn files_only_ignores_faulty_directories() {
    let entries = vec![file(2, Access::Allowed), dir(vec![], Access::Faulty)];
    let (info, rest) = clean_entries(entries, Policy::FilesOnly).unwrap();
    assert_eq!(info, DirInfo { total_size: 2, file_count: 1 });
    assert_eq!(rest, vec![dir(vec![], Access::Faulty)]);
}

#[test]
fn recursive_clean_aborts_on_faulty_directory() {
    let entries = vec![file(2, Access::Allowed), dir(vec![], Access::Faulty)];
    assert_eq!(clean_entries(entries, Policy::Recursive), Err(CleanError::IoFailure));
}

#[test]
fn clean_aborts_on_faulty_file_under_either_policy() {
    let entries = vec![file(1, Access::Faulty)];
    assert_eq!(clean_entries(entries, Policy::FilesOnly), Err(CleanError::IoFailure));
    let entries = vec![file(1, Access::Faulty)];
    assert_eq!(clean_entries(entries, Policy::Recursive), Err(CleanError::IoFailure));
}

#[test]
fn unremovable_directory_survives_whole() {
    // The directory is readable but holds a denied file: recursive removal
    // fails with permission denied, so the directory is skipped and counts
    // nothing, while the file beside it is still deleted.
    let stubborn = dir(vec![file(5, Access::Denied), file(1, Access::Allowed)], Access::Allowed);
    let entries = vec![
        dir(vec![file(5, Access::Denied), file(1, Access::Allowed)], Access::Allowed),
        file(7, Access::Allowed),
    ];
    let (info, rest) = clean_entries(entries, Policy::Recursive).unwrap();
    assert_eq!(info, DirInfo { total_size: 7, file_count: 1 });
    assert_eq!(rest, vec![stubborn]);
}

#[test]
fn denied_directory_is_skipped_silently() {
    let entries = vec![dir(vec![file(8, Access::Allowed)], Access::Denied)];
    let (info, rest) = clean_entries(entries, Policy::Recursive).unwrap();
    assert_eq!(info, DirInfo { total_size: 0, file_count: 0 });
    assert_eq!(rest.len(), 1);
}

#[test]
fn execute_with_no_roots_is_unsupported() {
    let op = OperationType::ClearBrowserCache;
    assert_eq!(op.execute(Vec::new()), Err(CleanError::Unsupported));
}

#[test]
fn execute_cleans_several_roots_in_order() {
    let roots = vec![
        Root::Missing,
        Root::Present { entries: vec![file(5, Access::Allowed)] },
        Root::Present { entries: vec![dir(vec![file(6, Access::Allowed)], Access::Allowed)] },
    ];
    let op = OperationType::ClearBrowserCache;
    let (info, remaining) = op.execute(roots).unwrap();
    assert_eq!(info, DirInfo { total_size: 11, file_count: 2 });
    assert_eq!(
        remaining,
        vec![
            Root::Missing,
            Root::Present { entries: vec![] },
            Root::Present { entries: vec![] },
        ]
    );
}

#[test]
fn from_selection_maps_the_three_indices() {
    assert_eq!(OperationType::from_selection(0), OperationType::DeleteTempFiles);
    assert_eq!(OperationType::from_selection(1), OperationType::DeleteAppCache);
    assert_eq!(OperationType::from_selection(2), OperationType::ClearBrowserCache);
}

#[test]
fn policies_of_the_operations() {
    assert_eq!(OperationType::DeleteTempFiles.policy(), Policy::FilesOnly);
    assert_eq!(OperationType::DeleteAppCache.policy(), Policy::Recursive);
    assert_eq!(OperationType::ClearBrowserCache.policy(), Policy::Recursive);
}

#[test]
fn try_totals_counts_denied_files_too() {
    let tree = dir(vec![file(3, Access::Denied), file(4, Access::Allowed)], Access::Denied);
    assert_eq!(try_totals(&tree), Some(DirInfo { total_size: 7, file_count: 2 }));
}

#[test]
fn try_totals_reports_overflow() {
    let tree = dir(
        vec![file(u64::MAX, Access::Allowed), file(1, Access::Allowed)],
        Access::Allowed,
    );
    assert_eq!(try_totals(&tree), None);
}

#[test]
fn within_limits_guards_the_root_set() {
    let small = vec![Root::Present { entries: vec![file(10, Access::Allowed)] }];
    assert!(within_limits(&small));
    let huge = vec![
        Root::Present { entries: vec![file(u64::MAX, Access::Allowed)] },
        Root::Present { entries: vec![file(u64::MAX, Access::Allowed)] },
    ];
    assert!(!within_limits(&huge));
}

#[test]
fn totals_of_one_root_listing() {
    let entries = vec![file(1, Access::Allowed), dir(vec![file(2, Access::Faulty)], Access::Denied)];
    assert_eq!(try_totals_of(&entries), Some(DirInfo { total_size: 3, file_count: 2 }));
}

#[test]
fn removability_needs_the_whole_subtree() {
    assert!(is_removable(&file(1, Access::Allowed)));
    assert!(!is_removable(&file(1, Access::Denied)));
    assert!(is_removable(&dir(vec![file(1, Access::Allowed)], Access::Allowed)));
    assert!(!is_removable(&dir(vec![file(1, Access::Denied)], Access::Allowed)));
    assert!(!is_removable(&dir(vec![file(1, Access::Allowed)], Access::Denied)));
}

#[test]
fn zero_record_starts_empty() {
    assert_eq!(DirInfo::zero(), DirInfo { total_size: 0, file_count: 0 });
}
