//! Arguments of the commit-staged workflow: commit staged changes at
//! specific paths only.

use vstd::prelude::*;

verus! {

/// What the caller asked for: which paths to commit, whether to only
/// report, and what to pass through to the commit tool.
#[derive(Debug, Clone)]
pub struct Args {
    /// Paths to commit (only staged changes at these paths).
    pub paths: Vec<String>,
    /// Show what would be committed without committing.
    pub dry_run: bool,
    /// Arguments to pass through to the commit tool.
    pub passthrough_args: Vec<String>,
}

} // verus!
