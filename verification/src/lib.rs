//! Commit staged changes at specific paths only.
//!
//! Unlike `git commit -- paths`, this commits from the staging area, not the
//! working copy: the library computes the staged-versus-last-commit
//! difference under a set of requested paths, materializes a temporary
//! staging snapshot equal to the last commit plus exactly those changes, and
//! hands that snapshot to the external commit tool.

pub mod commit;
pub mod decimal;
pub mod diff;
pub mod errors;
pub mod files;
pub mod git;
pub mod lock;
pub mod paths;
pub mod prepare;
pub mod snapshot;
pub mod staged;
pub mod staging;
pub mod temp_index;
pub mod unglobbed_path;

pub use commit::{parse_commit_sha, CommitOutput};
pub use errors::CommitError;
pub use paths::path_matches;
pub use prepare::{prepare_staged_commit, CommitResult, PrepareResult};
pub use snapshot::StagedEntry;
pub use staging::stage_paths;
pub use temp_index::write_temp_index;
pub use unglobbed_path::UnglobbedPath;
