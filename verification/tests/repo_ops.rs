//! End-to-end preparation against real repositories.

use git2::{IndexEntry, IndexTime, Oid, Repository};
use git_commit_staged::errors::CommitError;
use git_commit_staged::prepare_staged_commit;
use git_commit_staged::write_temp_index;
use git_commit_staged::StagedEntry;

fn index_entry_for(path: &str, oid: Oid, mode: u32) -> IndexEntry {
    IndexEntry {
        ctime: IndexTime::new(0, 0),
        mtime: IndexTime::new(0, 0),
        dev: 0,
        ino: 0,
        mode,
        uid: 0,
        gid: 0,
        file_size: 0,
        id: oid,
        flags: 0,
        flags_extended: 0,
        path: path.as_bytes().to_vec(),
    }
}

fn stage_blob(repo: &Repository, path: &str, content: &[u8]) -> Oid {
    let oid = repo.blob(content).unwrap();
    let mut index = repo.index().unwrap();
    index.add(&index_entry_for(path, oid, 0o100644)).unwrap();
    index.write().unwrap();
    oid
}

fn stage_removal(repo: &Repository, path: &str) {
    let mut index = repo.index().unwrap();
    index.remove(std::path::Path::new(path), 0).unwrap();
    index.write().unwrap();
}

fn commit_index(repo: &Repository, msg: &str) -> Oid {
    let mut index = repo.index().unwrap();
    let tree_id = index.write_tree().unwrap();
    let tree = repo.find_tree(tree_id).unwrap();
    let sig = git2::Signature::now("Test User", "test@test.com").unwrap();
    match repo.head() {
        Ok(h) => {
            let parent = h.peel_to_commit().unwrap();
            repo.commit(Some("HEAD"), &sig, &sig, msg, &tree, &[&parent]).unwrap()
        },
        Err(_) => repo.commit(Some("HEAD"), &sig, &sig, msg, &tree, &[]).unwrap(),
    }
}

#[test]
fn prepare_dry_run_selects_exactly_requested() {
    // Example scenario: the last commit has a.txt; the staging area
    // modifies a.txt and adds b.txt; filtering to a.txt yields exactly
    // one entry, and b.txt's staged state is untouched.
    let tmp = tempfile::tempdir().unwrap();
    let repo = Repository::init(tmp.path()).unwrap();
    stage_blob(&repo, "a.txt", b"v1\n");
    commit_index(&repo, "initial");
    let a2 = stage_blob(&repo, "a.txt", b"v2\n");
    let b1 = stage_blob(&repo, "b.txt", b"new\n");

    let paths = vec![String::from("a.txt")];
    let dir = tmp.path().to_str().unwrap();
    let result = prepare_staged_commit(&paths, dir, true, 1).unwrap();

    assert_eq!(result.staged_entries.len(), 1);
    assert_eq!(result.staged_entries[0].path, "a.txt");
    assert_eq!(
        result.staged_entries[0].change,
        Some((a2.as_bytes().to_vec(), 0o100644))
    );
    assert!(result.temp_index_path.is_none());

    // The live staging area still holds b.txt, byte-identical.
    let live = repo.index().unwrap();
    let b_entry = live.get_path(std::path::Path::new("b.txt"), 0).unwrap();
    assert_eq!(b_entry.id, b1);
}

#[test]
fn prepare_publishes_process_unique_snapshot() {
    // Snapshot completeness: the written snapshot, against the prior
    // commit, contains exactly the filtered entry set; its backing file
    // is qualified by the process id passed in.
    let tmp = tempfile::tempdir().unwrap();
    let repo = Repository::init(tmp.path()).unwrap();
    stage_blob(&repo, "a.txt", b"v1\n");
    stage_blob(&repo, "keep.txt", b"kept\n");
    commit_index(&repo, "initial");
    let a2 = stage_blob(&repo, "a.txt", b"v2\n");
    stage_blob(&repo, "b.txt", b"new\n");

    let paths = vec![String::from("a.txt")];
    let dir = tmp.path().to_str().unwrap();
    let result = prepare_staged_commit(&paths, dir, false, 4242).unwrap();

    let temp_path = result.temp_index_path.unwrap();
    assert!(temp_path.ends_with("index.commit-staged.4242"));

    let snapshot = git2::Index::open(std::path::Path::new(&temp_path)).unwrap();
    // a.txt carries the staged content, keep.txt is inherited from the
    // last commit, and the unrequested b.txt is absent.
    let a_entry = snapshot.get_path(std::path::Path::new("a.txt"), 0).unwrap();
    assert_eq!(a_entry.id, a2);
    assert!(snapshot.get_path(std::path::Path::new("keep.txt"), 0).is_some());
    assert!(snapshot.get_path(std::path::Path::new("b.txt"), 0).is_none());
    assert_eq!(snapshot.len(), 2);
}

#[test]
fn write_temp_index_applies_deletions_and_additions() {
    // Deletion/rename decomposition: a deletion entry at the old path
    // and an addition at the new path yield a snapshot holding the new
    // path and not the old one.
    let tmp = tempfile::tempdir().unwrap();
    let repo = Repository::init(tmp.path()).unwrap();
    let content = stage_blob(&repo, "src/old_name.rs", b"// content\n");
    commit_index(&repo, "initial");

    let entries = vec![
        StagedEntry { path: String::from("src/old_name.rs"), change: None },
        StagedEntry {
            path: String::from("src/new_name.rs"),
            change: Some((content.as_bytes().to_vec(), 0o100644)),
        },
    ];
    let temp_path = write_temp_index(&repo, &entries, 7).unwrap();

    let snapshot = git2::Index::open(std::path::Path::new(&temp_path)).unwrap();
    assert!(snapshot.get_path(std::path::Path::new("src/old_name.rs"), 0).is_none());
    let new_entry = snapshot.get_path(std::path::Path::new("src/new_name.rs"), 0).unwrap();
    assert_eq!(new_entry.id, content);
}

#[test]
fn prepare_selects_staged_rename_endpoints() {
    // A staged rename decomposes into a deletion and an addition, both
    // kept by a directory filter.
    let tmp = tempfile::tempdir().unwrap();
    let repo = Repository::init(tmp.path()).unwrap();
    let content = stage_blob(&repo, "src/old_name.rs", b"// content\n");
    commit_index(&repo, "initial");
    stage_removal(&repo, "src/old_name.rs");
    stage_blob(&repo, "src/new_name.rs", b"// content\n");

    let paths = vec![String::from("src")];
    let dir = tmp.path().to_str().unwrap();
    let result = prepare_staged_commit(&paths, dir, false, 11).unwrap();

    let mut kinds: Vec<(String, bool)> = result
        .staged_entries
        .iter()
        .map(|e| (e.path.clone(), e.change.is_some()))
        .collect();
    kinds.sort();
    assert_eq!(
        kinds,
        vec![
            (String::from("src/new_name.rs"), true),
            (String::from("src/old_name.rs"), false),
        ]
    );

    let temp_path = result.temp_index_path.unwrap();
    let snapshot = git2::Index::open(std::path::Path::new(&temp_path)).unwrap();
    assert!(snapshot.get_path(std::path::Path::new("src/old_name.rs"), 0).is_none());
    let new_entry = snapshot.get_path(std::path::Path::new("src/new_name.rs"), 0).unwrap();
    assert_eq!(new_entry.id, content);
}

#[test]
fn rejects_escaping_path() {
    let tmp = tempfile::tempdir().unwrap();
    let repo = Repository::init(tmp.path()).unwrap();
    stage_blob(&repo, "src/main.rs", b"fn main() {}\n");
    commit_index(&repo, "initial");

    let paths = vec![String::from("../outside")];
    let dir = tmp.path().to_str().unwrap();
    let result = prepare_staged_commit(&paths, dir, true, 1);
    assert!(matches!(result, Err(CommitError::PathEscapesScope { .. })));
}

#[test]
fn empty_diff_is_rejected_not_committed() {
    // Scoping to a path with zero staged difference yields a distinct
    // failure, not an empty successful commit.
    let tmp = tempfile::tempdir().unwrap();
    let repo = Repository::init(tmp.path()).unwrap();
    stage_blob(&repo, "a.txt", b"v1\n");
    commit_index(&repo, "initial");

    let paths = vec![String::from("a.txt")];
    let dir = tmp.path().to_str().unwrap();
    let result = prepare_staged_commit(&paths, dir, true, 1);
    assert!(matches!(result, Err(CommitError::NothingStaged)));
}

#[test]
fn errors_without_commit_history() {
    let tmp = tempfile::tempdir().unwrap();
    let repo = Repository::init(tmp.path()).unwrap();
    stage_blob(&repo, "a.txt", b"v1\n");

    let paths = vec![String::from("a.txt")];
    let dir = tmp.path().to_str().unwrap();
    let result = prepare_staged_commit(&paths, dir, true, 1);
    assert!(matches!(result, Err(CommitError::NoCommitHistory { .. })));
}

#[test]
fn respects_directory_scope() {
    // Paths are resolved relative to the given directory, and come back
    // repository-relative.
    let tmp = tempfile::tempdir().unwrap();
    let repo = Repository::init(tmp.path()).unwrap();
    let scope = tempfile::Builder::new().prefix("pkg").tempdir_in(tmp.path()).unwrap();
    let scope_name = scope.path().file_name().unwrap().to_str().unwrap().to_string();

    let lib_path = format!("{scope_name}/src/lib.rs");
    stage_blob(&repo, &lib_path, b"// lib v1\n");
    commit_index(&repo, "initial");
    let v2 = stage_blob(&repo, &lib_path, b"// lib v2\n");

    let paths = vec![String::from("src")];
    let dir_owned = scope.path().to_str().unwrap().to_string();
    let result = prepare_staged_commit(&paths, &dir_owned, true, 1).unwrap();

    assert_eq!(result.staged_entries.len(), 1);
    assert_eq!(result.staged_entries[0].path, lib_path);
    assert_eq!(result.staged_entries[0].change, Some((v2.as_bytes().to_vec(), 0o100644)));
}

#[test]
fn dot_path_commits_everything_in_scope() {
    let tmp = tempfile::tempdir().unwrap();
    let repo = Repository::init(tmp.path()).unwrap();
    stage_blob(&repo, "a.txt", b"v1\n");
    commit_index(&repo, "initial");
    stage_blob(&repo, "a.txt", b"v2\n");
    stage_blob(&repo, "b.txt", b"new\n");

    let paths = vec![String::from(".")];
    let dir = tmp.path().to_str().unwrap();
    let result = prepare_staged_commit(&paths, dir, true, 1).unwrap();
    assert_eq!(result.staged_entries.len(), 2);
}

#[test]
fn canonicalize_failed_on_empty_directory() {
    let paths = vec![String::from("a.txt")];
    let result = prepare_staged_commit(&paths, "", true, 1);
    assert!(matches!(result, Err(CommitError::CanonicalizeFailed { .. })));
}

#[test]
fn repository_not_found_outside_any_repo() {
    let tmp = tempfile::tempdir().unwrap();
    let paths = vec![String::from("a.txt")];
    let dir = tmp.path().to_str().unwrap();
    let result = prepare_staged_commit(&paths, dir, true, 1);
    assert!(matches!(result, Err(CommitError::RepositoryNotFound { .. })));
}

#[test]
fn bare_repository_has_no_workdir() {
    let tmp = tempfile::tempdir().unwrap();
    Repository::init_bare(tmp.path()).unwrap();
    let paths = vec![String::from("a.txt")];
    let dir = tmp.path().to_str().unwrap();
    let result = prepare_staged_commit(&paths, dir, true, 1);
    assert!(matches!(result, Err(CommitError::NoWorkdir)));
}

#[test]
fn normalization_fails_when_parents_run_out() {
    let tmp = tempfile::tempdir().unwrap();
    let repo = Repository::init(tmp.path()).unwrap();
    stage_blob(&repo, "a.txt", b"v1\n");
    commit_index(&repo, "initial");

    let deep_escape = "../".repeat(40) + "x";
    let paths = vec![deep_escape];
    let dir = tmp.path().to_str().unwrap();
    let result = prepare_staged_commit(&paths, dir, true, 1);
    assert!(matches!(
        result,
        Err(CommitError::PathNormalizationFailed { .. })
            | Err(CommitError::PathEscapesScope { .. })
    ));
}

#[test]
fn typechange_decomposes_into_delete_and_add_at_one_path() {
    // A staged file-type change is reported as a deletion followed by a
    // re-addition at the same path; the snapshot ends up with the new
    // type.
    let tmp = tempfile::tempdir().unwrap();
    let repo = Repository::init(tmp.path()).unwrap();
    stage_blob(&repo, "src/link.txt", b"original content\n");
    commit_index(&repo, "initial");
    // Restage the same path as a symbolic link to new content.
    let target = repo.blob(b"../README.md").unwrap();
    let mut index = repo.index().unwrap();
    index.add(&index_entry_for("src/link.txt", target, 0o120000)).unwrap();
    index.write().unwrap();

    let paths = vec![String::from("src")];
    let dir = tmp.path().to_str().unwrap();
    let result = prepare_staged_commit(&paths, dir, false, 21).unwrap();

    let kinds: Vec<(String, bool)> = result
        .staged_entries
        .iter()
        .map(|e| (e.path.clone(), e.change.is_some()))
        .collect();
    assert_eq!(
        kinds,
        vec![
            (String::from("src/link.txt"), false),
            (String::from("src/link.txt"), true),
        ]
    );
    assert_eq!(
        result.staged_entries[1].change,
        Some((target.as_bytes().to_vec(), 0o120000))
    );

    let temp_path = result.temp_index_path.unwrap();
    let snapshot = git2::Index::open(std::path::Path::new(&temp_path)).unwrap();
    let entry = snapshot.get_path(std::path::Path::new("src/link.txt"), 0).unwrap();
    assert_eq!(entry.mode, 0o120000);
    assert_eq!(entry.id, target);
}

#[test]
fn insertion_collision_drops_the_colliding_file() {
    // The store's insertion semantics: adding a path under a name the
    // base snapshot holds as a file silently drops that file.
    let tmp = tempfile::tempdir().unwrap();
    let repo = Repository::init(tmp.path()).unwrap();
    let content = stage_blob(&repo, "a", b"was a file\n");
    commit_index(&repo, "initial");

    let entries = vec![StagedEntry {
        path: String::from("a/b"),
        change: Some((content.as_bytes().to_vec(), 0o100644)),
    }];
    let temp_path = write_temp_index(&repo, &entries, 31).unwrap();

    let snapshot = git2::Index::open(std::path::Path::new(&temp_path)).unwrap();
    assert!(snapshot.get_path(std::path::Path::new("a"), 0).is_none());
    assert!(snapshot.get_path(std::path::Path::new("a/b"), 0).is_some());
}

#[test]
fn deleting_an_absent_path_fails_cleanly() {
    let tmp = tempfile::tempdir().unwrap();
    let repo = Repository::init(tmp.path()).unwrap();
    stage_blob(&repo, "a.txt", b"v1\n");
    commit_index(&repo, "initial");

    let entries = vec![StagedEntry { path: String::from("not-there.txt"), change: None }];
    let result = write_temp_index(&repo, &entries, 41);
    assert!(matches!(
        result,
        Err(CommitError::ConflictingOrUnmergedState { .. }) | Err(CommitError::GitOperation { .. })
    ));
}
