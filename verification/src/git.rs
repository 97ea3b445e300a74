//! Trusted boundary to the underlying store and path toolkit.
//!
//! Everything the library takes on trust about the `git2` and `gix_path`
//! crates stands in this module: type declarations for the store's handles,
//! names for what its collections hold, and one thin wrapper per outside
//! function. Each wrapper's contract states no more than the wrapped
//! function's source and documentation show.

use vstd::prelude::*;

use crate::diff::{DeltaPath, DeltaRecord};
use crate::paths::{no_dotdot, spec_is_absolute};

verus! {

#[verifier::external_type_specification]
#[verifier::external_body]
pub struct ExRepository(git2::Repository);

#[verifier::external_type_specification]
#[verifier::external_body]
pub struct ExGitIndex(git2::Index);

#[verifier::external_type_specification]
#[verifier::external_body]
pub struct ExTree<'a>(git2::Tree<'a>);

#[verifier::external_type_specification]
#[verifier::external_body]
pub struct ExReference<'a>(git2::Reference<'a>);

#[verifier::external_type_specification]
#[verifier::external_body]
pub struct ExGitError(git2::Error);

/// What a staging-area index holds: path -> (content-id bytes, file mode),
/// over the stage-0 entries whose paths are valid Unicode.
pub uninterp spec fn index_map(i: git2::Index) -> Map<Seq<char>, (Seq<u8>, u32)>;

/// What a committed tree holds, flattened: path -> (content-id bytes, file
/// mode), over the non-tree entries whose paths are valid Unicode.
pub uninterp spec fn tree_map(t: git2::Tree) -> Map<Seq<char>, (Seq<u8>, u32)>;

/// The control directory recorded in an open repository handle, `None`
/// when its path is not valid Unicode. The handle stores the directory it
/// was opened on, so this is a function of the handle alone.
pub uninterp spec fn repo_control_dir(repo: git2::Repository) -> Option<Seq<char>>;

/// Whether the index compares entry paths case-sensitively. The store
/// folds case only when the owning repository's configuration asks for
/// it; an index opened bare has no owner and never folds. The entry
/// operations below state their effect on the contents only for a
/// case-sensitive index.
pub uninterp spec fn index_case_sensitive(i: git2::Index) -> bool;

/// What `gix_path::normalize` returns for a path and a fallback directory:
/// the path with `.` and `..` components resolved lexically, or `None`
/// when `..` walks out of the top.
pub uninterp spec fn normalized_of(path: Seq<char>, cwd: Seq<char>) -> Option<Seq<char>>;

/// Relies on `gix_path::realpath`: resolve symlinks and make the path
/// absolute by looking at the filesystem (a relative path is resolved
/// against the current working directory, so the result starts at the
/// root). What the result is depends on the disk, so only its
/// absoluteness is stated; a failure is reported as its message.
#[verifier::external_body]
pub(crate) fn realpath(path: &str) -> (r: Result<String, String>)
    ensures
        r matches Ok(p) ==> spec_is_absolute(p@),
{
    match gix_path::realpath(std::path::Path::new(path)) {
        Ok(p) => match p.into_os_string().into_string() {
            Ok(s) => Ok(s),
            Err(_) => Err(format!("canonicalized path is not valid unicode")),
        },
        Err(e) => Err(format!("{e}")),
    }
}

/// Relies on `gix_path::normalize`: lexical resolution of `.` and `..`
/// components, no filesystem access. Its source returns the input
/// unchanged whenever no `..` component occurs, and for an absolute input
/// builds the result from the input's root and normal components alone, so
/// an absolute input yields an absolute result free of `..` segments.
#[verifier::external_body]
pub(crate) fn normalize_path(path: &str, cwd: &str) -> (r: Option<String>)
    ensures
        r is Some <==> normalized_of(path@, cwd@) is Some,
        r matches Some(s) ==> normalized_of(path@, cwd@) == Some(s@),
        r is None ==> !no_dotdot(path@),
        r matches Some(s) ==> no_dotdot(path@) ==> s@ == path@,
        r matches Some(s) ==> spec_is_absolute(path@) ==> spec_is_absolute(s@) && no_dotdot(s@),
{
    let owned = std::borrow::Cow::Owned(std::path::PathBuf::from(path));
    gix_path::normalize(owned, std::path::Path::new(cwd)).and_then(
        |p| p.into_owned().into_os_string().into_string().ok(),
    )
}

/// Relies on `git2::Repository::discover`: open the repository at or above
/// the given directory.
#[verifier::external_body]
pub(crate) fn discover_repository(path: &str) -> (r: Result<git2::Repository, git2::Error>)
{
    git2::Repository::discover(path)
}

/// Relies on `git2::Repository::open_from_env`: open the repository that
/// the process environment designates.
#[verifier::external_body]
pub(crate) fn open_repository_from_env() -> (r: Result<git2::Repository, git2::Error>)
{
    git2::Repository::open_from_env()
}

/// Relies on `git2::Repository::workdir`: the repository's working
/// directory, absent for a bare repository. `None` also stands for a
/// working directory whose path is not valid Unicode.
#[verifier::external_body]
pub(crate) fn repo_workdir(repo: &git2::Repository) -> (r: Option<String>)
{
    repo.workdir().and_then(|p| p.to_str()).map(|s| s.to_string())
}

/// Relies on `git2::Repository::path`: the repository's control
/// directory, read back from the handle — a deterministic field read, so
/// its result is named by `repo_control_dir`. `None` stands for a path
/// that is not valid Unicode.
#[verifier::external_body]
pub(crate) fn repo_git_dir(repo: &git2::Repository) -> (r: Option<String>)
    ensures
        r is Some <==> repo_control_dir(*repo) is Some,
        r matches Some(d) ==> repo_control_dir(*repo) == Some(d@),
{
    repo.path().to_str().map(|s| s.to_string())
}

/// Relies on `git2::Repository::head`: the reference HEAD points to; fails
/// when the repository has no commit yet.
#[verifier::external_body]
pub(crate) fn repo_head<'r>(repo: &'r git2::Repository) -> (r: Result<
    git2::Reference<'r>,
    git2::Error,
>)
{
    repo.head()
}

/// Relies on `git2::Reference::peel_to_tree`: peel the reference to the
/// tree it ultimately points at.
#[verifier::external_body]
pub(crate) fn peel_to_tree<'r>(reference: &git2::Reference<'r>) -> (r: Result<
    git2::Tree<'r>,
    git2::Error,
>)
{
    reference.peel_to_tree()
}

/// Relies on `git2::Repository::index`: the repository's live staging
/// area. Whether it folds path case follows the owning repository's
/// configuration, so nothing is granted here; this crate only reads the
/// live index (through the diff), never writes it.
#[verifier::external_body]
pub(crate) fn repo_index(repo: &git2::Repository) -> (r: Result<git2::Index, git2::Error>)
{
    repo.index()
}

/// Relies on `git2::Repository::diff_tree_to_index`: the differences
/// between a tree and a staging area. The store walks both sides in
/// parallel and reports each differing path once, with one exception: a
/// file-type change at a path is split into a deletion delta followed by
/// a non-deletion delta at that same path (type-change deltas are not
/// requested here). Every delta is a genuine change: a deletion's path
/// comes from the tree side; matching unchanged entries are not reported,
/// a split re-addition differs from the tree entry at least in type, and
/// an unmerged path's delta carries placeholder content no tree entry
/// equals. A non-deletion delta's `new_file` side carries the staging
/// area's entry where one exists at stage 0. No completeness clause is
/// stated: an entry flagged assume-unchanged is skipped, and an index
/// comparing paths case-insensitively matches entries across spellings,
/// so a differing path is not always reported.
#[verifier::external_body]
pub(crate) fn diff_staged(
    repo: &git2::Repository,
    tree: &git2::Tree,
    index: &git2::Index,
) -> (r: Result<Vec<DeltaRecord>, git2::Error>)
    ensures
        r matches Ok(v) ==> crate::diff::paths_split_ordered(v@),
        r matches Ok(v) ==> crate::diff::deltas_are_changes(v@, tree_map(*tree)),
        r matches Ok(v) ==> forall|j: int|
            0 <= j < v@.len() ==> ((#[trigger] v@[j]).path matches DeltaPath::Known(s) ==> (
            !v@[j].deleted && index_map(*index).dom().contains(s@) ==> (v@[j].id@, v@[j].mode)
                == index_map(*index)[s@])),
{
    let diff = repo.diff_tree_to_index(Some(tree), Some(index), None)?;
    Ok(diff.deltas().map(|d| DeltaRecord {
        path: match d.new_file().path().map(|p| p.to_str()) {
            None => DeltaPath::Missing,
            Some(None) => DeltaPath::NotUnicode,
            Some(Some(s)) => DeltaPath::Known(s.to_string()),
        },
        deleted: matches!(d.status(), git2::Delta::Deleted),
        id: d.new_file().id().as_bytes().to_vec(),
        mode: u32::from(d.new_file().mode()),
    }).collect())
}

/// Relies on `git2::Index::open`: open an index file at the given path,
/// creating an empty in-memory index when no file exists there yet. An
/// index opened this way has no owning repository, so it never folds
/// path case.
#[verifier::external_body]
pub(crate) fn index_open(path: &str) -> (r: Result<git2::Index, git2::Error>)
    ensures
        r matches Ok(ix) ==> index_case_sensitive(ix),
{
    git2::Index::open(std::path::Path::new(path))
}

/// Relies on `git2::Index::read_tree`: replace the index contents entirely
/// by the given tree's entries.
#[verifier::external_body]
pub(crate) fn index_read_tree(index: &mut git2::Index, tree: &git2::Tree) -> (r: Result<
    (),
    git2::Error,
>)
    ensures
        r is Ok ==> index_map(*final(index)) == tree_map(*tree),
        index_case_sensitive(*final(index)) == index_case_sensitive(*old(index)),
{
    index.read_tree(tree)
}

/// Relies on `git2::Index::add`, and on `git2::Oid::from_bytes`, which
/// fails (without touching the index) unless given exactly the raw
/// object-id length. The store rejects any mode but its four file modes;
/// on success it silently removes every same-stage entry that collides
/// with the new path as file-versus-directory, then inserts or replaces
/// the stage-0 entry — stated here for a case-sensitive, collision-free
/// starting index (a case-folding index can instead replace an entry
/// spelled differently, and the store's collision scan is exhaustive
/// only without pre-existing collisions). Success is not promised: for
/// a repository-owned index the store also validates the object against
/// the object database. No entry operation changes whether the index
/// folds case.
#[verifier::external_body]
pub(crate) fn index_add(index: &mut git2::Index, path: &str, id: &Vec<u8>, mode: u32) -> (r:
    Result<(), git2::Error>)
    ensures
        r is Ok ==> id@.len() == 20 && crate::snapshot::valid_git_mode(mode),
        r is Ok ==> index_case_sensitive(*old(index))
            ==> crate::snapshot::snapshot_collision_free(index_map(*old(index)))
            ==> index_map(*final(index)) == crate::snapshot::store_insert(
            index_map(*old(index)),
            path@,
            (id@, mode),
        ),
        index_case_sensitive(*final(index)) == index_case_sensitive(*old(index)),
{
    let oid = git2::Oid::from_bytes(id)?;
    let entry = git2::IndexEntry {
        ctime: git2::IndexTime::new(0, 0),
        mtime: git2::IndexTime::new(0, 0),
        dev: 0, ino: 0, mode, uid: 0, gid: 0, file_size: 0,
        id: oid, flags: 0, flags_extended: 0,
        path: path.as_bytes().to_vec(),
    };
    index.add(&entry)
}

/// Relies on `git2::Index::remove`: remove the stage-0 entry at the
/// given path — `git2` first rejects an empty, absolute, or
/// `.`/`..`-leading path, and the store then reports not-found when no
/// stage-0 entry matches; nothing else fails, and a failed removal
/// leaves the entries as they were. On a case-sensitive index the match
/// is exact, so success is equivalent to the path being accepted and
/// held, and exactly that entry leaves (a case-folding index could
/// instead remove an entry spelled differently).
#[verifier::external_body]
pub(crate) fn index_remove(index: &mut git2::Index, path: &str) -> (r: Result<(), git2::Error>)
    ensures
        r is Ok ==> crate::paths::repo_path_accepted(path@),
        r is Ok ==> index_case_sensitive(*old(index)) ==> index_map(
            *old(index),
        ).dom().contains(path@) && index_map(*final(index)) == index_map(*old(index)).remove(
            path@,
        ),
        r is Err ==> index_map(*final(index)) == index_map(*old(index)),
        r is Err ==> index_case_sensitive(*old(index)) ==> !(crate::paths::repo_path_accepted(
            path@,
        ) && index_map(*old(index)).dom().contains(path@)),
        index_case_sensitive(*final(index)) == index_case_sensitive(*old(index)),
{
    index.remove(std::path::Path::new(path), 0)
}

/// Relies on `git2::Index::write`: write the index to its backing file,
/// leaving the in-memory contents as they are.
#[verifier::external_body]
pub(crate) fn index_write(index: &mut git2::Index) -> (r: Result<(), git2::Error>)
    ensures
        index_map(*final(index)) == index_map(*old(index)),
{
    index.write()
}

/// Relies on `git2::Index::update_all`: synchronize the index's tracked
/// entries under the given pathspecs with the working tree. What results
/// depends on the disk, so nothing is stated of it.
#[verifier::external_body]
pub(crate) fn index_update_all(index: &mut git2::Index, paths: &Vec<String>) -> (r: Result<
    (),
    git2::Error,
>)
{
    index.update_all(paths.iter(), None)
}

/// Relies on `git2::Index::add_all`: also stage new untracked files under
/// the given pathspecs. What results depends on the disk, so nothing is
/// stated of it.
#[verifier::external_body]
pub(crate) fn index_add_all(index: &mut git2::Index, paths: &Vec<String>) -> (r: Result<
    (),
    git2::Error,
>)
{
    index.add_all(paths.iter(), git2::IndexAddOption::DEFAULT, None)
}

/// Relies on `git2::Error::message`: the error's human-readable text.
#[verifier::external_body]
pub(crate) fn git_error_message(e: &git2::Error) -> (r: String)
{
    e.message().to_string()
}

/// Relies on `git2::Error::class`: whether the error was raised by the
/// index machinery (unmerged entries and other staging-area faults).
#[verifier::external_body]
pub(crate) fn git_error_is_index_class(e: &git2::Error) -> (r: bool)
{
    matches!(e.class(), git2::ErrorClass::Index)
}

} // verus!
