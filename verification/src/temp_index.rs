//! Temporary staging snapshot construction.
//!
//! A path-scoped commit is built from a snapshot equal to the last-commit
//! tree overridden by exactly the selected staged entries. The snapshot is
//! materialized as an index file of its own, at a process-unique path
//! inside the repository's control directory, so concurrent invocations
//! never collide and the live staging area is never touched.

use vstd::prelude::*;

use crate::decimal::{format_u32, spec_decimal};
use crate::errors::CommitError;
use crate::git::{
    git_error_is_index_class, git_error_message, index_map, index_open, index_read_tree,
    index_remove, index_write, peel_to_tree, repo_control_dir, repo_git_dir, repo_head, tree_map,
};
use crate::snapshot::{
    apply_store_changes, entries_store_applicable, entries_view, snapshot_collision_free,
    StagedEntry,
};

verus! {

/// Map a store fault to the library's taxonomy: an index-class fault (an
/// unmerged staging area, an entry the index machinery refuses) keeps its
/// category, so callers can tell a mid-conflict repository from a generic
/// store fault; everything else is a plain store fault.
pub fn classify_store_error(is_index_class: bool, detail: String) -> (r: CommitError)
    ensures
        r == (if is_index_class {
            CommitError::ConflictingOrUnmergedState { detail }
        } else {
            CommitError::GitOperation { detail }
        }),
{
    if is_index_class {
        CommitError::ConflictingOrUnmergedState { detail }
    } else {
        CommitError::GitOperation { detail }
    }
}

/// A file inside the control directory `git_dir`.
pub open spec fn spec_control_path(git_dir: Seq<char>, name: Seq<char>) -> Seq<char> {
    let base = if git_dir.len() > 0 && git_dir.last() == '/' {
        git_dir
    } else {
        git_dir.push('/')
    };
    base + name
}

/// The process-unique name of the working snapshot's backing file inside
/// the control directory `git_dir`.
pub open spec fn spec_temp_index_name(git_dir: Seq<char>, pid: u32) -> Seq<char> {
    spec_control_path(git_dir, "index.commit-staged."@ + spec_decimal(pid as nat))
}

/// Concurrent invocations never collide: within one control directory,
/// two distinct process ids get distinct snapshot file names.
pub proof fn lemma_temp_index_names_distinct(git_dir: Seq<char>, pid_a: u32, pid_b: u32)
    requires
        pid_a != pid_b,
    ensures
        spec_temp_index_name(git_dir, pid_a) != spec_temp_index_name(git_dir, pid_b),
{
    let base = if git_dir.len() > 0 && git_dir.last() == '/' {
        git_dir
    } else {
        git_dir.push('/')
    };
    let prefix = base + "index.commit-staged."@;
    let name_a = spec_temp_index_name(git_dir, pid_a);
    let name_b = spec_temp_index_name(git_dir, pid_b);
    if name_a == name_b {
        assert(name_a.skip(prefix.len() as int) =~= spec_decimal(pid_a as nat));
        assert(name_b.skip(prefix.len() as int) =~= spec_decimal(pid_b as nat));
        crate::decimal::lemma_decimal_injective(pid_a as nat, pid_b as nat);
    }
}

/// The working snapshot's backing file is distinct from the live index
/// and from the lock token of the same control directory.
pub proof fn lemma_temp_index_name_avoids_control_files(git_dir: Seq<char>, pid: u32)
    ensures
        spec_temp_index_name(git_dir, pid) != spec_control_path(git_dir, "index"@),
        spec_temp_index_name(git_dir, pid) != spec_control_path(git_dir, "index.lock"@),
{
    reveal_strlit("index.commit-staged.");
    reveal_strlit("index");
    reveal_strlit("index.lock");
    crate::decimal::lemma_decimal_nonempty(pid as nat);
    let base = if git_dir.len() > 0 && git_dir.last() == '/' {
        git_dir
    } else {
        git_dir.push('/')
    };
    let suffix = "index.commit-staged."@ + spec_decimal(pid as nat);
    assert(suffix.len() >= 21);
    assert(spec_temp_index_name(git_dir, pid) == base + suffix);
    assert(spec_control_path(git_dir, "index"@) == base + "index"@);
    assert(spec_control_path(git_dir, "index.lock"@) == base + "index.lock"@);
    assert((base + suffix).len() == base.len() + suffix.len());
    assert((base + "index"@).len() == base.len() + 5);
    assert((base + "index.lock"@).len() == base.len() + 10);
}

/// Apply the staged entries, in order, to an index already holding its
/// base contents: an entry with content inserts or replaces its path, a
/// deletion entry removes it. On success every entry applied cleanly and
/// the index holds exactly the base overridden by the entries (under the
/// store's file-versus-directory insertion semantics).
pub fn apply_entries(index: &mut git2::Index, entries: &Vec<StagedEntry>) -> (r: Result<
    (),
    CommitError,
>)
    ensures
        r is Ok ==> crate::git::index_case_sensitive(*old(index)) ==> snapshot_collision_free(
            index_map(*old(index)),
        ) ==> index_map(*final(index)) == apply_store_changes(
            index_map(*old(index)),
            entries_view(entries@),
        ) && entries_store_applicable(index_map(*old(index)), entries_view(entries@)),
        r matches Err(e) ==> (e matches CommitError::ConflictingOrUnmergedState { .. }) || (e
            matches CommitError::GitOperation { .. }),
{
    let ghost base = index_map(*index);
    let ghost case_sensitive = crate::git::index_case_sensitive(*index);
    proof {
        assert(entries_view(entries@.take(0)) =~= Seq::<crate::snapshot::EntryV>::empty());
    }
    let mut i: usize = 0;
    while i < entries.len()
        invariant
            i <= entries.len(),
            base == index_map(*old(index)),
            case_sensitive == crate::git::index_case_sensitive(*old(index)),
            crate::git::index_case_sensitive(*index) == case_sensitive,
            case_sensitive ==> snapshot_collision_free(base) ==> index_map(*index)
                == apply_store_changes(base, entries_view(entries@.take(i as int)))
                && snapshot_collision_free(index_map(*index)) && entries_store_applicable(
                base,
                entries_view(entries@.take(i as int)),
            ),
        decreases entries.len() - i,
    {
        let entry = &entries[i];
        let ghost before = index_map(*index);
        proof {
            let views = entries_view(entries@.take(i + 1));
            assert(views.drop_last() =~= entries_view(entries@.take(i as int)));
            assert(views.last() == entries@[i as int]@);
        }
        match &entry.change {
            Some((id, mode)) => {
                if let Err(e) = crate::git::index_add(index, entry.path.as_str(), id, *mode) {
                    let detail = git_error_message(&e);
                    return Err(classify_store_error(git_error_is_index_class(&e), detail));
                }
                proof {
                    if case_sensitive && snapshot_collision_free(base) {
                        crate::snapshot::lemma_store_insert_collision_free(
                            before,
                            entry.path@,
                            (id@, *mode),
                        );
                    }
                }
            },
            None => {
                if let Err(e) = index_remove(index, entry.path.as_str()) {
                    let detail = git_error_message(&e);
                    return Err(classify_store_error(git_error_is_index_class(&e), detail));
                }
                proof {
                    if case_sensitive && snapshot_collision_free(base) {
                        crate::snapshot::lemma_remove_collision_free(before, entry.path@);
                    }
                }
            },
        }
        i = i + 1;
    }
    proof {
        assert(entries@.take(entries.len() as int) == entries@);
    }
    Ok(())
}

/// Fill `index` with the last-commit tree overridden by exactly the given
/// staged entries.
pub fn build_temp_index(
    index: &mut git2::Index,
    head_tree: &git2::Tree,
    entries: &Vec<StagedEntry>,
) -> (r: Result<(), CommitError>)
    ensures
        r is Ok ==> crate::git::index_case_sensitive(*old(index)) ==> snapshot_collision_free(
            tree_map(*head_tree),
        ) ==> index_map(*final(index)) == apply_store_changes(
            tree_map(*head_tree),
            entries_view(entries@),
        ) && entries_store_applicable(tree_map(*head_tree), entries_view(entries@)),
        r matches Err(e) ==> (e matches CommitError::ConflictingOrUnmergedState { .. }) || (e
            matches CommitError::GitOperation { .. }),
{
    if let Err(e) = index_read_tree(index, head_tree) {
        let detail = git_error_message(&e);
        return Err(classify_store_error(git_error_is_index_class(&e), detail));
    }
    apply_entries(index, entries)
}

/// Write a temporary index file holding the last commit plus the given
/// staged entries, at the process-unique path
/// `<control dir>/index.commit-staged.<pid>`, and return that path.
pub fn write_temp_index(repo: &git2::Repository, entries: &Vec<StagedEntry>, pid: u32) -> (r:
    Result<String, CommitError>)
    ensures
        r matches Ok(p) ==> repo_control_dir(*repo) matches Some(d) && p@
            == spec_temp_index_name(d, pid),
        r matches Err(e) ==> (e matches CommitError::NoCommitHistory { .. }) || (e
            matches CommitError::ConflictingOrUnmergedState { .. }) || (e
            matches CommitError::GitOperation { .. }) || e == CommitError::PathNotUnicode,
{
    let head = match repo_head(repo) {
        Ok(h) => h,
        Err(e) => {
            return Err(CommitError::NoCommitHistory { detail: git_error_message(&e) });
        },
    };
    let head_tree = match peel_to_tree(&head) {
        Ok(t) => t,
        Err(e) => {
            let detail = git_error_message(&e);
            return Err(classify_store_error(git_error_is_index_class(&e), detail));
        },
    };
    let git_dir = match repo_git_dir(repo) {
        Some(d) => d,
        None => {
            return Err(CommitError::PathNotUnicode);
        },
    };
    let ghost dir_view = git_dir@;
    let mut temp_path = git_dir;
    let len = temp_path.as_str().unicode_len();
    if len == 0 || temp_path.as_str().get_char(len - 1) != '/' {
        temp_path.append("/");
        proof {
            reveal_strlit("/");
            assert(dir_view + "/"@ =~= dir_view.push('/'));
        }
    }
    temp_path.append("index.commit-staged.");
    let digits = format_u32(pid);
    temp_path.append(digits.as_str());
    proof {
        assert(temp_path@ == spec_temp_index_name(dir_view, pid));
    }
    let mut index = match index_open(temp_path.as_str()) {
        Ok(ix) => ix,
        Err(e) => {
            let detail = git_error_message(&e);
            return Err(classify_store_error(git_error_is_index_class(&e), detail));
        },
    };
    build_temp_index(&mut index, &head_tree, entries)?;
    if let Err(e) = index_write(&mut index) {
        let detail = git_error_message(&e);
        return Err(classify_store_error(git_error_is_index_class(&e), detail));
    }
    Ok(temp_path)
}

} // verus!
