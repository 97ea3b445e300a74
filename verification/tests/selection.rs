//! Selecting staged differences by path, and reporting them.

use git_commit_staged::diff::{DeltaPath, DeltaRecord};
use git_commit_staged::errors::CommitError;
use git_commit_staged::lock::LockState;
use git_commit_staged::decimal::format_u32;
use git_commit_staged::prepare::select_staged_entries;
use git_commit_staged::staging::{dry_run_lines, stage_paths};
use git_commit_staged::temp_index::classify_store_error;

fn delta(path: &str, deleted: bool, id: u8) -> DeltaRecord {
    DeltaRecord {
        path: DeltaPath::Known(String::from(path)),
        deleted,
        id: vec![id; 20],
        mode: 0o100644,
    }
}

#[test]
fn selection_keeps_only_matching_paths() {
    // The example scenario: the staging area modifies a.txt and adds
    // b.txt; filtering to a.txt keeps exactly the a.txt entry.
    let deltas = vec![delta("a.txt", false, 2), delta("b.txt", false, 3)];
    let filters = vec![String::from("a.txt")];
    let selected = select_staged_entries(&deltas, &filters).unwrap();
    assert_eq!(selected.len(), 1);
    assert_eq!(selected[0].path, "a.txt");
    assert_eq!(selected[0].change, Some((vec![2u8; 20], 0o100644)));
}

#[test]
fn selection_leaves_unrelated_paths_alone() {
    // Isolation: path b is unrelated to the filter and never appears.
    let deltas = vec![delta("a/x.rs", false, 2), delta("b/y.rs", false, 3)];
    let filters = vec![String::from("a")];
    let selected = select_staged_entries(&deltas, &filters).unwrap();
    assert_eq!(selected.len(), 1);
    assert!(selected.iter().all(|e| e.path != "b/y.rs"));
}

#[test]
fn selection_uses_staged_content_only() {
    // Content fidelity at the selection boundary: the entry carries the
    // staged delta's content id, not any other content.
    let staged_id = 7u8;
    let deltas = vec![delta("src/main.rs", false, staged_id)];
    let filters = vec![String::from("src")];
    let selected = select_staged_entries(&deltas, &filters).unwrap();
    assert_eq!(selected[0].change, Some((vec![staged_id; 20], 0o100644)));
}

#[test]
fn selection_decomposes_renames() {
    // A staged rename shows up as a deletion at the old path and an
    // addition at the new path; a directory filter keeps both.
    let deltas = vec![delta("src/old_name.rs", true, 0), delta("src/new_name.rs", false, 4)];
    let filters = vec![String::from("src")];
    let selected = select_staged_entries(&deltas, &filters).unwrap();
    assert_eq!(selected.len(), 2);
    assert_eq!(selected[0].path, "src/old_name.rs");
    assert_eq!(selected[0].change, None);
    assert_eq!(selected[1].path, "src/new_name.rs");
    assert!(selected[1].change.is_some());
}

#[test]
fn selection_with_no_filters_is_empty() {
    let deltas = vec![delta("a.txt", false, 2)];
    let filters: Vec<String> = vec![];
    let selected = select_staged_entries(&deltas, &filters).unwrap();
    assert!(selected.is_empty());
}

#[test]
fn selection_rejects_deltas_without_paths() {
    let bad = DeltaRecord { path: DeltaPath::Missing, deleted: false, id: vec![0; 20], mode: 0 };
    let deltas = vec![delta("a.txt", false, 2), bad];
    let filters = vec![String::from("a.txt")];
    let r = select_staged_entries(&deltas, &filters);
    assert!(matches!(r, Err(CommitError::DeltaWithoutPath)));
}

#[test]
fn selection_rejects_non_unicode_paths() {
    let bad = DeltaRecord {
        path: DeltaPath::NotUnicode,
        deleted: false,
        id: vec![0; 20],
        mode: 0,
    };
    let deltas = vec![bad];
    let filters = vec![String::from("a.txt")];
    let r = select_staged_entries(&deltas, &filters);
    assert!(matches!(r, Err(CommitError::PathNotUnicode)));
}

#[test]
fn dry_run_lines_report_status_and_path() {
    let deltas = vec![delta("src/kept.rs", false, 2), delta("src/gone.rs", true, 0)];
    let filters = vec![String::from("src")];
    let selected = select_staged_entries(&deltas, &filters).unwrap();
    let lines = dry_run_lines(&selected);
    assert_eq!(lines, vec![String::from("  M src/kept.rs"), String::from("  D src/gone.rs")]);
}

#[test]
fn stage_paths_requires_at_least_one_path() {
    let r = stage_paths(&vec![]);
    assert!(matches!(r, Err(CommitError::NoPathsSpecified)));
}

#[test]
fn lock_state_is_exclusive_and_reacquirable() {
    // Lock exclusivity: a second acquisition while the first is held
    // fails immediately; after a release, acquisition succeeds.
    let mut lock = LockState::new();
    assert!(lock.acquire(".git/index.lock").is_ok());
    let second = lock.acquire(".git/index.lock");
    assert!(matches!(
        second,
        Err(CommitError::AlreadyLocked { ref path }) if path == ".git/index.lock"
    ));
    lock.release();
    assert!(lock.acquire(".git/index.lock").is_ok());
}

#[test]
fn decimal_formatting_is_exact() {
    assert_eq!(format_u32(0), "0");
    assert_eq!(format_u32(7), "7");
    assert_eq!(format_u32(10), "10");
    assert_eq!(format_u32(40960001), "40960001");
    assert_eq!(format_u32(u32::MAX), "4294967295");
}

#[test]
fn store_error_classification_preserves_the_index_category() {
    let conflicted = classify_store_error(true, String::from("unmerged entries"));
    assert_eq!(
        conflicted,
        CommitError::ConflictingOrUnmergedState { detail: String::from("unmerged entries") }
    );
    let plain = classify_store_error(false, String::from("disk fault"));
    assert_eq!(plain, CommitError::GitOperation { detail: String::from("disk fault") });
}
