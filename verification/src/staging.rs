//! Staging working-tree changes, and dry-run reports.

use vstd::prelude::*;

use crate::errors::CommitError;
use crate::git::{index_add_all, index_update_all, index_write, open_repository_from_env, repo_index};
use crate::snapshot::{EntryV, StagedEntry};
use crate::temp_index::classify_store_error;

verus! {

/// Stage the given pathspecs from the working tree into the live staging
/// area: tracked files are synchronized (modifications and deletions) and
/// new untracked files are added. Requires at least one path.
pub fn stage_paths(paths: &Vec<String>) -> (r: Result<(), CommitError>)
    ensures
        paths@.len() == 0 <==> r == Err::<(), CommitError>(CommitError::NoPathsSpecified),
{
    if paths.len() == 0 {
        return Err(CommitError::NoPathsSpecified);
    }
    let repo = match open_repository_from_env() {
        Ok(rp) => rp,
        Err(e) => {
            let detail = crate::git::git_error_message(&e);
            return Err(classify_store_error(crate::git::git_error_is_index_class(&e), detail));
        },
    };
    let mut index = match repo_index(&repo) {
        Ok(ix) => ix,
        Err(e) => {
            let detail = crate::git::git_error_message(&e);
            return Err(classify_store_error(crate::git::git_error_is_index_class(&e), detail));
        },
    };
    if let Err(e) = index_update_all(&mut index, paths) {
        let detail = crate::git::git_error_message(&e);
        return Err(classify_store_error(crate::git::git_error_is_index_class(&e), detail));
    }
    if let Err(e) = index_add_all(&mut index, paths) {
        let detail = crate::git::git_error_message(&e);
        return Err(classify_store_error(crate::git::git_error_is_index_class(&e), detail));
    }
    if let Err(e) = index_write(&mut index) {
        let detail = crate::git::git_error_message(&e);
        return Err(classify_store_error(crate::git::git_error_is_index_class(&e), detail));
    }
    Ok(())
}

/// One dry-run report line: two spaces, `M` for a staged change or `D`
/// for a staged deletion, a space, and the path.
pub open spec fn spec_dry_run_line(e: EntryV) -> Seq<char> {
    (if e.1 is Some {
        "  M "@
    } else {
        "  D "@
    }) + e.0
}

/// The dry-run report for a list of staged entries, one line per entry.
pub fn dry_run_lines(entries: &Vec<StagedEntry>) -> (r: Vec<String>)
    ensures
        r.deep_view().len() == entries@.len(),
        forall|k: int|
            0 <= k < entries@.len() ==> #[trigger] r.deep_view()[k] == spec_dry_run_line(
                entries@[k]@,
            ),
{
    let mut lines: Vec<String> = Vec::new();
    let mut i: usize = 0;
    while i < entries.len()
        invariant
            i <= entries@.len(),
            lines.deep_view().len() == i,
            forall|k: int|
                0 <= k < i ==> #[trigger] lines.deep_view()[k] == spec_dry_run_line(
                    entries@[k]@,
                ),
        decreases entries@.len() - i,
    {
        let mut line = if entries[i].change.is_some() {
            String::from_str("  M ")
        } else {
            String::from_str("  D ")
        };
        line.append(entries[i].path.as_str());
        let ghost old_dv = lines.deep_view();
        let ghost lv = line@;
        lines.push(line);
        proof {
            assert(lines.deep_view() =~= old_dv.push(lv));
        }
        i = i + 1;
    }
    lines
}

} // verus!
