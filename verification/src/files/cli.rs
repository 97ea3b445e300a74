//! Arguments of the stage-and-commit workflow: stage paths from the
//! working tree, then commit those staged changes.

use vstd::prelude::*;

verus! {

/// What the caller asked for: which paths to stage and commit, whether to
/// only report, and what to pass through to the commit tool.
#[derive(Debug, Clone)]
pub struct Args {
    /// Paths to stage and commit.
    pub paths: Vec<String>,
    /// Show what would be committed without committing.
    pub dry_run: bool,
    /// Arguments to pass through to the commit tool.
    pub passthrough_args: Vec<String>,
}

} // verus!
