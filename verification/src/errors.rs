//! Typed failures of the staged-commit workflow.
//!
//! Every fallible operation in this crate reports one of these variants, so
//! callers can tell apart caller mistakes (a path that escapes the scope,
//! nothing staged under the requested paths) from repository faults (no
//! commit history, an index mid-merge) and tool failures.

use vstd::prelude::*;

verus! {

/// A failure of path resolution, staged-diff selection, snapshot
/// construction, locking, or the external commit tool.
#[derive(Debug, Clone, PartialEq, Eq)]
pub enum CommitError {
    /// A user-supplied path normalized to a location outside the scope
    /// directory.
    PathEscapesScope { path: String, scope: String },
    /// A resolved path has no repository-relative form.
    PathOutsideRepository { path: String, repo_root: String },
    /// Lexical normalization of a user-supplied path failed (too many `..`
    /// components for the scope to absorb).
    PathNormalizationFailed { path: String },
    /// A directory could not be canonicalized on disk.
    CanonicalizeFailed { path: String, detail: String },
    /// No repository was found at or above the scope directory.
    RepositoryNotFound { detail: String },
    /// The repository has no working directory (it is bare).
    NoWorkdir,
    /// The repository has no commit to diff against.
    NoCommitHistory { detail: String },
    /// The staging area reported an index-class fault, typically unresolved
    /// merge conflicts.
    ConflictingOrUnmergedState { detail: String },
    /// No staged change under the requested paths differs from the last
    /// commit.
    NothingStaged,
    /// A diff entry carried no path at all.
    DeltaWithoutPath,
    /// A path in the repository is not valid Unicode.
    PathNotUnicode,
    /// The staging-area lock is already held by another operation.
    AlreadyLocked { path: String },
    /// The external commit tool exited unsuccessfully.
    CommitToolFailed { stderr: String },
    /// Swapping or discarding a snapshot file failed.
    PublishFailed { detail: String },
    /// No paths were supplied where at least one is required.
    NoPathsSpecified,
    /// Any other fault reported by the underlying store.
    GitOperation { detail: String },
}

} // verus!
