//! Prepare staged changes at specific paths for commit.
//!
//! Resolution turns caller-supplied paths into repository-relative
//! filters, refusing anything that leaves the scope directory. Selection
//! keeps exactly the staged-versus-last-commit differences whose paths
//! match a filter. Preparation chains the two and materializes the
//! filtered snapshot, unless asked for a dry run.

use vstd::prelude::*;

use crate::diff::{all_paths_known, spec_first_bad_path, DeltaPath, DeltaRecord};
use crate::errors::CommitError;
use crate::git::{
    diff_staged, discover_repository, git_error_message, normalized_of, realpath, repo_head,
    repo_index, repo_workdir,
};
use crate::paths::{
    join_components_from, join_path, path_components, path_matches, spec_components, spec_join,
    spec_join_components, spec_path_matches, spec_prefix_match, spec_split,
};
use crate::snapshot::{
    apply_changes, entries_view, mentions_path, EntryV, SnapshotV, StagedEntry,
};
use crate::temp_index::{classify_store_error, write_temp_index};

verus! {

/// Result of preparing staged changes for commit.
pub struct PrepareResult {
    /// The entries that will be committed.
    pub staged_entries: Vec<StagedEntry>,
    /// Path to the temporary index file (`None` for a dry run).
    pub temp_index_path: Option<String>,
}

/// Result of a commit operation.
pub struct CommitResult {
    /// The entries that were committed.
    pub staged_entries: Vec<StagedEntry>,
}

/// The lexical normalization of a user path joined onto the scope root.
pub open spec fn spec_norm(user: Seq<char>, scope: Seq<char>) -> Option<Seq<char>> {
    normalized_of(spec_join(scope, user), scope)
}

/// A user path resolves iff it normalizes, stays under the scope root,
/// and lies under the repository root.
pub open spec fn spec_resolve_ok(user: Seq<char>, scope: Seq<char>, repo: Seq<char>) -> bool {
    match spec_norm(user, scope) {
        None => false,
        Some(n) => spec_prefix_match(scope, n) && spec_prefix_match(repo, n),
    }
}

/// The repository-relative form of a resolved user path: its normalized
/// components with the repository root's components stripped off the
/// front.
pub open spec fn spec_resolved_path(user: Seq<char>, scope: Seq<char>, repo: Seq<char>) -> Seq<
    char,
> {
    let n = spec_norm(user, scope)->Some_0;
    spec_join_components(spec_components(n).skip(spec_components(repo).len() as int))
}

/// Resolve one user-supplied path against the scope root and strip the
/// repository root, both already canonicalized.
pub fn resolve_one(user_path: &String, scope_root: &str, repo_root: &str) -> (r: Result<
    String,
    CommitError,
>)
    ensures
        r is Ok <==> spec_resolve_ok(user_path@, scope_root@, repo_root@),
        r matches Ok(p) ==> p@ == spec_resolved_path(user_path@, scope_root@, repo_root@),
        r matches Ok(p) ==> crate::paths::spec_is_absolute(scope_root@)
            ==> crate::paths::wf_rel_path(p@) && crate::paths::no_dotdot(p@),
        r matches Err(e) ==> match spec_norm(user_path@, scope_root@) {
            None => e == (CommitError::PathNormalizationFailed { path: *user_path }),
            Some(n) => if !spec_prefix_match(scope_root@, n) {
                e matches CommitError::PathEscapesScope { path, scope } && path@ == user_path@
                    && scope@ == scope_root@
            } else {
                e matches CommitError::PathOutsideRepository { path, repo_root: rr } && path@
                    == user_path@ && rr@ == repo_root@
            },
        },
{
    let joined = join_path(scope_root, user_path.as_str());
    let normalized = match crate::git::normalize_path(joined.as_str(), scope_root) {
        Some(n) => n,
        None => {
            return Err(CommitError::PathNormalizationFailed { path: user_path.clone() });
        },
    };
    let norm_parts = path_components(normalized.as_str());
    let scope_parts = path_components(scope_root);
    if !crate::paths::components_prefix(&scope_parts, &norm_parts) {
        return Err(
            CommitError::PathEscapesScope {
                path: user_path.clone(),
                scope: scope_root.to_owned(),
            },
        );
    }
    let repo_parts = path_components(repo_root);
    if !crate::paths::components_prefix(&repo_parts, &norm_parts) {
        return Err(
            CommitError::PathOutsideRepository {
                path: user_path.clone(),
                repo_root: repo_root.to_owned(),
            },
        );
    }
    let stripped = join_components_from(&norm_parts, repo_parts.len());
    proof {
        if crate::paths::spec_is_absolute(scope_root@) {
            let nv = normalized@;
            assert(crate::paths::spec_is_absolute(joined@)) by {
                if !crate::paths::spec_is_absolute(user_path@) {
                    assert(joined@[0] == scope_root@[0]);
                }
            }
            let comps = spec_components(nv);
            let m = spec_components(repo_root@).len() as int;
            let tail = comps.skip(m);
            crate::paths::lemma_split_segments_no_sep(nv);
            assert forall|i: int|
                0 <= i < comps.len() implies crate::paths::is_real_segment(#[trigger] comps[i])
                && crate::paths::seg_no_sep(comps[i]) && comps[i] != seq!['.', '.'] by {
                spec_split(nv).lemma_filter_pred(
                    |seg: Seq<char>| crate::paths::is_real_segment(seg),
                    i,
                );
                crate::paths::lemma_filter_element_from(spec_split(nv), i);
                let w = choose|w: int|
                    0 <= w < spec_split(nv).len() && #[trigger] spec_split(nv)[w] == comps[i];
            }
            assert forall|i: int|
                0 <= i < tail.len() implies crate::paths::is_real_segment(#[trigger] tail[i])
                && crate::paths::seg_no_sep(tail[i]) && tail[i] != seq!['.', '.'] by {
                assert(tail[i] == comps[m + i]);
            }
            crate::paths::lemma_joined_components_wf(tail);
        }
    }
    Ok(stripped)
}

/// Resolve user-provided paths to repository-relative paths, preserving
/// order and failing on the first path that does not resolve.
pub fn resolve_paths(user_paths: &Vec<String>, scope_root: &str, repo_root: &str) -> (r: Result<
    Vec<String>,
    CommitError,
>)
    ensures
        r matches Ok(v) ==> v@.len() == user_paths@.len(),
        r matches Ok(v) ==> forall|k: int|
            0 <= k < user_paths@.len() ==> spec_resolve_ok(
                #[trigger] user_paths.deep_view()[k],
                scope_root@,
                repo_root@,
            ),
        r matches Ok(v) ==> forall|k: int|
            0 <= k < user_paths@.len() ==> #[trigger] v.deep_view()[k] == spec_resolved_path(
                user_paths.deep_view()[k],
                scope_root@,
                repo_root@,
            ),
        r matches Ok(v) ==> crate::paths::spec_is_absolute(scope_root@) ==> forall|k: int|
            0 <= k < user_paths@.len() ==> crate::paths::wf_rel_path(
                #[trigger] v.deep_view()[k],
            ) && crate::paths::no_dotdot(v.deep_view()[k]),
        r matches Err(e) ==> exists|k: int|
            0 <= k < user_paths@.len() && !spec_resolve_ok(
                #[trigger] user_paths.deep_view()[k],
                scope_root@,
                repo_root@,
            ) && (forall|j: int|
                0 <= j < k ==> spec_resolve_ok(
                    #[trigger] user_paths.deep_view()[j],
                    scope_root@,
                    repo_root@,
                )) && (match spec_norm(user_paths.deep_view()[k], scope_root@) {
                None => e == (CommitError::PathNormalizationFailed { path: user_paths@[k] }),
                Some(n) => if !spec_prefix_match(scope_root@, n) {
                    e matches CommitError::PathEscapesScope { path, scope } && path@
                        == user_paths.deep_view()[k] && scope@ == scope_root@
                } else {
                    e matches CommitError::PathOutsideRepository { path, repo_root: rr }
                        && path@ == user_paths.deep_view()[k] && rr@ == repo_root@
                },
            }),
{
    let mut resolved: Vec<String> = Vec::new();
    let mut i: usize = 0;
    while i < user_paths.len()
        invariant
            i <= user_paths@.len(),
            resolved@.len() == i,
            user_paths.deep_view().len() == user_paths@.len(),
            forall|k: int|
                0 <= k < i ==> spec_resolve_ok(
                    #[trigger] user_paths.deep_view()[k],
                    scope_root@,
                    repo_root@,
                ),
            forall|k: int|
                0 <= k < i ==> #[trigger] resolved.deep_view()[k] == spec_resolved_path(
                    user_paths.deep_view()[k],
                    scope_root@,
                    repo_root@,
                ),
            crate::paths::spec_is_absolute(scope_root@) ==> forall|k: int|
                0 <= k < i ==> crate::paths::wf_rel_path(#[trigger] resolved.deep_view()[k])
                    && crate::paths::no_dotdot(resolved.deep_view()[k]),
        decreases user_paths@.len() - i,
    {
        proof {
            assert(user_paths.deep_view()[i as int] == user_paths@[i as int]@);
        }
        match resolve_one(&user_paths[i], scope_root, repo_root) {
            Ok(p) => {
                let ghost old_dv = resolved.deep_view();
                let ghost pv = p@;
                resolved.push(p);
                proof {
                    assert(resolved.deep_view() =~= old_dv.push(pv));
                    assert forall|k: int|
                        0 <= k < i + 1 implies #[trigger] resolved.deep_view()[k]
                        == spec_resolved_path(
                        user_paths.deep_view()[k],
                        scope_root@,
                        repo_root@,
                    ) by {
                        if k < i as int {
                            assert(resolved.deep_view()[k] == old_dv[k]);
                        } else {
                            assert(resolved.deep_view()[k] == pv);
                        }
                    }
                    if crate::paths::spec_is_absolute(scope_root@) {
                        assert forall|k: int|
                            0 <= k < i + 1 implies crate::paths::wf_rel_path(
                            #[trigger] resolved.deep_view()[k],
                        ) && crate::paths::no_dotdot(resolved.deep_view()[k]) by {
                            if k < i as int {
                                assert(resolved.deep_view()[k] == old_dv[k]);
                            } else {
                                assert(resolved.deep_view()[k] == pv);
                            }
                        }
                    }
                }
            },
            Err(e) => {
                proof {
                    assert(!spec_resolve_ok(
                        user_paths.deep_view()[i as int],
                        scope_root@,
                        repo_root@,
                    ));
                }
                return Err(e);
            },
        }
        i = i + 1;
    }
    Ok(resolved)
}

/// The staged entries kept by the filter: deltas whose known path matches
/// some filter, a deletion as `None`, anything else as the staged content
/// id and mode.
pub open spec fn spec_selected_entries(deltas: Seq<DeltaRecord>, filters: Seq<Seq<char>>) -> Seq<
    EntryV,
>
    decreases deltas.len(),
{
    if deltas.len() == 0 {
        Seq::empty()
    } else {
        let rest = spec_selected_entries(deltas.drop_last(), filters);
        match deltas.last().path {
            DeltaPath::Known(s) => if spec_path_matches(s@, filters) {
                rest.push(
                    (
                        s@,
                        if deltas.last().deleted {
                            None
                        } else {
                            Some((deltas.last().id@, deltas.last().mode))
                        },
                    ),
                )
            } else {
                rest
            },
            _ => rest,
        }
    }
}

/// Every selected entry path matches some filter.
pub proof fn lemma_selected_entries_matched(
    deltas: Seq<DeltaRecord>,
    filters: Seq<Seq<char>>,
    k: int,
)
    requires
        0 <= k < spec_selected_entries(deltas, filters).len(),
    ensures
        spec_path_matches(spec_selected_entries(deltas, filters)[k].0, filters),
    decreases deltas.len(),
{
    if deltas.len() > 0 {
        let rest = spec_selected_entries(deltas.drop_last(), filters);
        if k < rest.len() {
            lemma_selected_entries_matched(deltas.drop_last(), filters, k);
        }
    }
}

/// Every selected entry comes from a delta: same known path, and the
/// entry records a deletion exactly when the delta was one.
proof fn lemma_selected_paths_from_deltas(
    deltas: Seq<DeltaRecord>,
    filters: Seq<Seq<char>>,
    k: int,
)
    requires
        0 <= k < spec_selected_entries(deltas, filters).len(),
    ensures
        exists|i: int|
            0 <= i < deltas.len() && ((#[trigger] deltas[i]).path matches DeltaPath::Known(s)
                && s@ == spec_selected_entries(deltas, filters)[k].0 && (deltas[i].deleted
                <==> spec_selected_entries(deltas, filters)[k].1 is None) && (
            spec_selected_entries(deltas, filters)[k].1 matches Some(item) ==> item == (
            deltas[i].id@,
            deltas[i].mode,
            ))),
    decreases deltas.len(),
{
    if deltas.len() > 0 {
        let rest = spec_selected_entries(deltas.drop_last(), filters);
        if k < rest.len() {
            lemma_selected_paths_from_deltas(deltas.drop_last(), filters, k);
            let i = choose|i: int|
                0 <= i < deltas.drop_last().len() && ((#[trigger] deltas.drop_last()[i]).path
                    matches DeltaPath::Known(s) && s@ == rest[k].0 && (deltas.drop_last()[
                i].deleted <==> rest[k].1 is None) && (rest[k].1 matches Some(item) ==> item
                    == (deltas.drop_last()[i].id@, deltas.drop_last()[i].mode)));
            assert(deltas[i] == deltas.drop_last()[i]);
            assert(spec_selected_entries(deltas, filters)[k] == rest[k]);
        } else {
            assert((deltas[deltas.len() - 1]).path == deltas.last().path);
        }
    }
}

/// Selection preserves genuineness: when every delta records a real
/// difference from the base snapshot, so does every selected entry, which
/// is what snapshot completeness asks of the change list.
pub proof fn lemma_selected_entries_are_changes(
    deltas: Seq<DeltaRecord>,
    filters: Seq<Seq<char>>,
    base: SnapshotV,
)
    requires
        crate::diff::deltas_are_changes(deltas, base),
    ensures
        crate::snapshot::entries_are_changes(base, spec_selected_entries(deltas, filters)),
{
    let sel = spec_selected_entries(deltas, filters);
    assert forall|k: int| 0 <= k < sel.len() implies (match (#[trigger] sel[k]).1 {
        Some(item) => !base.dom().contains(sel[k].0) || base[sel[k].0] != item,
        None => base.dom().contains(sel[k].0),
    }) by {
        lemma_selected_paths_from_deltas(deltas, filters, k);
    }
}

/// The selected entries inherit the diff's shape: at most one entry per
/// path, except a decomposed type change, whose deletion is selected
/// before its re-addition.
pub proof fn lemma_selected_entries_split_ordered(
    deltas: Seq<DeltaRecord>,
    filters: Seq<Seq<char>>,
)
    requires
        crate::diff::paths_split_ordered(deltas),
    ensures
        crate::snapshot::entries_split_ordered(spec_selected_entries(deltas, filters)),
    decreases deltas.len(),
{
    if deltas.len() > 0 {
        let dl = deltas.drop_last();
        assert(crate::diff::paths_split_ordered(dl)) by {
            assert(forall|i: int| 0 <= i < dl.len() ==> dl[i] == deltas[i]);
        }
        lemma_selected_entries_split_ordered(dl, filters);
        let rest = spec_selected_entries(dl, filters);
        let sel = spec_selected_entries(deltas, filters);
        if sel.len() > rest.len() {
            assert forall|a: int|
                0 <= a < rest.len() && (#[trigger] rest[a]).0 == sel.last().0 implies rest[a].1
                is None && sel.last().1 is Some by {
                lemma_selected_paths_from_deltas(dl, filters, a);
                let i = choose|i: int|
                    0 <= i < dl.len() && ((#[trigger] dl[i]).path matches DeltaPath::Known(s)
                        && s@ == rest[a].0 && (dl[i].deleted <==> rest[a].1 is None));
                assert(deltas[i] == dl[i]);
                assert((deltas[deltas.len() - 1]).path == deltas.last().path);
            }
            assert forall|a: int, b: int|
                0 <= a < b < sel.len() && (#[trigger] sel[a]).0 == (#[trigger] sel[b]).0
                implies sel[a].1 is None && sel[b].1 is Some by {
                if b < rest.len() {
                    assert(sel[a] == rest[a] && sel[b] == rest[b]);
                } else {
                    assert(sel[a] == rest[a] && sel[b] == sel.last());
                }
            }
        }
    }
}

/// Isolation: a path that matches no filter is never selected, so
/// applying the selected entries to any base snapshot leaves that path's
/// state exactly as the base has it.
pub proof fn lemma_isolation(
    base: SnapshotV,
    deltas: Seq<DeltaRecord>,
    filters: Seq<Seq<char>>,
    p: Seq<char>,
)
    requires
        !spec_path_matches(p, filters),
    ensures
        apply_changes(base, spec_selected_entries(deltas, filters)).dom().contains(p)
            == base.dom().contains(p),
        base.dom().contains(p) ==> apply_changes(base, spec_selected_entries(deltas, filters))[p]
            == base[p],
{
    let sel = spec_selected_entries(deltas, filters);
    assert(!mentions_path(sel, p)) by {
        if mentions_path(sel, p) {
            let k = choose|k: int| 0 <= k < sel.len() && (#[trigger] sel[k]).0 == p;
            lemma_selected_entries_matched(deltas, filters, k);
        }
    }
    crate::snapshot::lemma_apply_changes_unrelated(base, sel, p);
}

/// With no filters at all, nothing is selected.
pub proof fn lemma_no_filters_selects_nothing(deltas: Seq<DeltaRecord>, filters: Seq<Seq<char>>)
    requires
        filters.len() == 0,
    ensures
        spec_selected_entries(deltas, filters).len() == 0,
{
    let sel = spec_selected_entries(deltas, filters);
    if sel.len() > 0 {
        lemma_selected_entries_matched(deltas, filters, 0);
    }
}

/// Keep the staged differences whose paths match the resolved filters.
pub fn select_staged_entries(deltas: &Vec<DeltaRecord>, filters: &Vec<String>) -> (r: Result<
    Vec<StagedEntry>,
    CommitError,
>)
    ensures
        r is Ok <==> all_paths_known(deltas@),
        r matches Ok(v) ==> entries_view(v@) == spec_selected_entries(
            deltas@,
            filters.deep_view(),
        ),
        r matches Err(e) ==> match spec_first_bad_path(deltas@) {
            Some(DeltaPath::Missing) => e == CommitError::DeltaWithoutPath,
            Some(DeltaPath::NotUnicode) => e == CommitError::PathNotUnicode,
            _ => false,
        },
{
    let mut selected: Vec<StagedEntry> = Vec::new();
    let mut i: usize = 0;
    while i < deltas.len()
        invariant
            i <= deltas@.len(),
            forall|j: int| 0 <= j < i ==> (#[trigger] deltas@[j]).path is Known,
            entries_view(selected@) == spec_selected_entries(
                deltas@.take(i as int),
                filters.deep_view(),
            ),
        decreases deltas@.len() - i,
    {
        proof {
            assert(deltas@.take(i as int + 1).drop_last() =~= deltas@.take(i as int));
            assert(deltas@.take(i as int + 1).last() == deltas@[i as int]);
        }
        let delta = &deltas[i];
        match &delta.path {
            DeltaPath::Known(s) => {
                if path_matches(s.as_str(), filters) {
                    let change: Option<(Vec<u8>, u32)> = if delta.deleted {
                        None
                    } else {
                        Some((delta.id.clone(), delta.mode))
                    };
                    let ghost before = entries_view(selected@);
                    let entry = StagedEntry { path: s.clone(), change };
                    let ghost entry_view = entry@;
                    selected.push(entry);
                    proof {
                        assert(entries_view(selected@) =~= before.push(entry_view));
                    }
                }
            },
            DeltaPath::Missing => {
                proof {
                    lemma_first_bad_at(deltas@, i as int);
                }
                return Err(CommitError::DeltaWithoutPath);
            },
            DeltaPath::NotUnicode => {
                proof {
                    lemma_first_bad_at(deltas@, i as int);
                }
                return Err(CommitError::PathNotUnicode);
            },
        }
        i = i + 1;
    }
    proof {
        assert(deltas@.take(deltas@.len() as int) == deltas@);
    }
    Ok(selected)
}

/// The first bad delta path is the one at the first position whose path
/// is not known.
proof fn lemma_first_bad_at(deltas: Seq<DeltaRecord>, i: int)
    requires
        0 <= i < deltas.len(),
        forall|j: int| 0 <= j < i ==> (#[trigger] deltas[j]).path is Known,
        !((deltas[i]).path is Known),
    ensures
        spec_first_bad_path(deltas) == Some(deltas[i].path),
    decreases i,
{
    if i == 0 {
        assert(deltas.first() == deltas[0]);
    } else {
        assert(deltas.first() == deltas[0]);
        assert(forall|j: int|
            0 <= j < i - 1 ==> (#[trigger] deltas.drop_first()[j]) == deltas[j + 1]);
        lemma_first_bad_at(deltas.drop_first(), i - 1);
    }
}

/// Find the staged entries that differ from the last commit at the given
/// repository-relative paths: read the live staging area, diff it against
/// the last-commit tree, and keep what the filters match.
pub fn find_staged_entries(repo: &git2::Repository, paths: &Vec<String>) -> (r: Result<
    Vec<StagedEntry>,
    CommitError,
>)
    ensures
        r matches Ok(v) ==> forall|k: int|
            0 <= k < entries_view(v@).len() ==> spec_path_matches(
                (#[trigger] entries_view(v@)[k]).0,
                paths.deep_view(),
            ),
        r matches Ok(v) ==> crate::snapshot::entries_split_ordered(entries_view(v@)),
        r matches Ok(v) ==> paths@.len() == 0 ==> v@.len() == 0,
        r matches Err(e) ==> (e matches CommitError::NoCommitHistory { .. }) || (e
            matches CommitError::ConflictingOrUnmergedState { .. }) || (e
            matches CommitError::GitOperation { .. }) || e == CommitError::DeltaWithoutPath || e
            == CommitError::PathNotUnicode,
{
    let index = match repo_index(repo) {
        Ok(ix) => ix,
        Err(e) => {
            let detail = git_error_message(&e);
            return Err(classify_store_error(crate::git::git_error_is_index_class(&e), detail));
        },
    };
    let head = match repo_head(repo) {
        Ok(h) => h,
        Err(e) => {
            return Err(CommitError::NoCommitHistory { detail: git_error_message(&e) });
        },
    };
    let head_tree = match crate::git::peel_to_tree(&head) {
        Ok(t) => t,
        Err(e) => {
            let detail = git_error_message(&e);
            return Err(classify_store_error(crate::git::git_error_is_index_class(&e), detail));
        },
    };
    let deltas = match diff_staged(repo, &head_tree, &index) {
        Ok(d) => d,
        Err(e) => {
            let detail = git_error_message(&e);
            return Err(classify_store_error(crate::git::git_error_is_index_class(&e), detail));
        },
    };
    let selected = match select_staged_entries(&deltas, paths) {
        Ok(v) => v,
        Err(e) => {
            return Err(e);
        },
    };
    proof {
        assert forall|k: int| 0 <= k < entries_view(selected@).len() implies spec_path_matches(
            (#[trigger] entries_view(selected@)[k]).0,
            paths.deep_view(),
        ) by {
            lemma_selected_entries_matched(deltas@, paths.deep_view(), k);
        }
        if paths@.len() == 0 {
            assert(paths.deep_view().len() == 0);
            lemma_no_filters_selects_nothing(deltas@, paths.deep_view());
            assert(entries_view(selected@).len() == selected@.len());
        }
        lemma_selected_entries_split_ordered(deltas@, paths.deep_view());
    }
    Ok(selected)
}

/// The repository-relative filters that the caller's paths resolve to
/// against the given canonical scope and repository roots.
pub open spec fn spec_resolved_filters(
    user_paths: Seq<Seq<char>>,
    scope: Seq<char>,
    repo: Seq<char>,
) -> Seq<Seq<char>> {
    user_paths.map_values(|u: Seq<char>| spec_resolved_path(u, scope, repo))
}

/// Reject an empty in-scope diff: an empty filtered result signals a
/// mismatch between the caller's intent and the staging area, a distinct
/// reportable condition rather than an implicit no-op success.
pub fn ensure_something_staged(entries: Vec<StagedEntry>) -> (r: Result<
    Vec<StagedEntry>,
    CommitError,
>)
    ensures
        r is Ok <==> entries@.len() > 0,
        r matches Ok(v) ==> v == entries,
        r matches Err(e) ==> e == CommitError::NothingStaged,
{
    if entries.len() == 0 {
        Err(CommitError::NothingStaged)
    } else {
        Ok(entries)
    }
}

/// Prepare staged changes at specific paths for commit.
///
/// Unlike a working-copy commit of those paths, this prepares a snapshot
/// from the staging area: the last-commit tree overridden by exactly the
/// staged changes whose paths match. The caller then points the external
/// commit tool at the returned temporary index file; `pid` is the calling
/// process's id, qualifying that file's name so concurrent invocations
/// never collide. With `dry_run` set, nothing is written and no file path
/// is returned.
pub fn prepare_staged_commit(
    paths: &Vec<String>,
    directory: &str,
    dry_run: bool,
    pid: u32,
) -> (r: Result<PrepareResult, CommitError>)
    ensures
        r matches Ok(res) ==> res.staged_entries@.len() > 0,
        r matches Ok(res) ==> ((res.temp_index_path is None) <==> dry_run),
        r matches Ok(res) ==> crate::snapshot::entries_split_ordered(
            entries_view(res.staged_entries@),
        ),
        r matches Ok(res) ==> exists|scope: Seq<char>, repo: Seq<char>|
            #![trigger spec_resolved_filters(paths.deep_view(), scope, repo)]
            crate::paths::spec_is_absolute(scope) && (forall|u: int|
                0 <= u < paths@.len() ==> spec_resolve_ok(
                    #[trigger] paths.deep_view()[u],
                    scope,
                    repo,
                )) && (forall|k: int|
                0 <= k < entries_view(res.staged_entries@).len() ==> spec_path_matches(
                    (#[trigger] entries_view(res.staged_entries@)[k]).0,
                    spec_resolved_filters(paths.deep_view(), scope, repo),
                )),
        paths@.len() == 0 ==> !(r is Ok),
        r matches Err(e) ==> !(e matches CommitError::AlreadyLocked { .. }) && !(e
            matches CommitError::CommitToolFailed { .. }) && !(e
            matches CommitError::PublishFailed { .. }) && e != CommitError::NoPathsSpecified,
{
    let scope_root = match realpath(directory) {
        Ok(s) => s,
        Err(detail) => {
            return Err(CommitError::CanonicalizeFailed { path: directory.to_owned(), detail });
        },
    };
    let repo = match discover_repository(scope_root.as_str()) {
        Ok(rp) => rp,
        Err(e) => {
            return Err(CommitError::RepositoryNotFound { detail: git_error_message(&e) });
        },
    };
    let workdir = match repo_workdir(&repo) {
        Some(w) => w,
        None => {
            return Err(CommitError::NoWorkdir);
        },
    };
    let repo_root = match realpath(workdir.as_str()) {
        Ok(s) => s,
        Err(detail) => {
            return Err(CommitError::CanonicalizeFailed { path: workdir, detail });
        },
    };
    let resolved = match resolve_paths(paths, scope_root.as_str(), repo_root.as_str()) {
        Ok(v) => v,
        Err(e) => {
            return Err(e);
        },
    };
    let staged_entries = match find_staged_entries(&repo, &resolved) {
        Ok(v) => v,
        Err(e) => {
            return Err(e);
        },
    };
    let staged_entries = match ensure_something_staged(staged_entries) {
        Ok(v) => v,
        Err(e) => {
            return Err(e);
        },
    };
    proof {
        assert(resolved.deep_view() =~= spec_resolved_filters(
            paths.deep_view(),
            scope_root@,
            repo_root@,
        ));
        assert(forall|k: int|
            0 <= k < entries_view(staged_entries@).len() ==> spec_path_matches(
                (#[trigger] entries_view(staged_entries@)[k]).0,
                spec_resolved_filters(paths.deep_view(), scope_root@, repo_root@),
            ));
    }
    if dry_run {
        return Ok(PrepareResult { staged_entries, temp_index_path: None });
    }
    let temp_index_path = match write_temp_index(&repo, &staged_entries, pid) {
        Ok(p) => p,
        Err(e) => {
            return Err(e);
        },
    };
    Ok(PrepareResult { staged_entries, temp_index_path: Some(temp_index_path) })
}

} // verus!
