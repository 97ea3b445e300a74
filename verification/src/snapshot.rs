//! Mathematical model of staging snapshots.
//!
//! A snapshot is a mapping from repository-relative path to the recorded
//! content (content-id bytes and file mode). A staged entry overrides one
//! path of a base snapshot: `Some` inserts or replaces, `None` deletes.
//! The laws proved here say that applying a list of staged entries to the
//! last-commit snapshot touches exactly the mentioned paths, and that the
//! result diffs back against the base to exactly that list.

use vstd::prelude::*;

verus! {

/// A snapshot in the model: path -> (content id bytes, file mode).
pub type SnapshotV = Map<Seq<char>, (Seq<u8>, u32)>;

/// A staged entry in the model: path plus `None` (deletion) or
/// `Some((content id bytes, mode))`.
pub type EntryV = (Seq<char>, Option<(Seq<u8>, u32)>);

/// One staged difference between the staging area and the last commit.
/// `change` is `None` for a deletion, `Some((content_id, mode))` otherwise.
/// The content id is the raw object-id bytes of the staged blob; it is
/// never interpreted, only copied and compared.
#[derive(Debug, Clone)]
pub struct StagedEntry {
    pub path: String,
    pub change: Option<(Vec<u8>, u32)>,
}

impl View for StagedEntry {
    type V = EntryV;

    open spec fn view(&self) -> EntryV {
        (
            self.path@,
            match self.change {
                Some((id, mode)) => Some((id@, mode)),
                None => None,
            },
        )
    }
}

/// The views of a list of staged entries.
pub open spec fn entries_view(entries: Seq<StagedEntry>) -> Seq<EntryV> {
    entries.map_values(|e: StagedEntry| e@)
}

/// Apply one staged entry to a snapshot.
pub open spec fn apply_change(snap: SnapshotV, e: EntryV) -> SnapshotV {
    match e.1 {
        Some(item) => snap.insert(e.0, item),
        None => snap.remove(e.0),
    }
}

/// Apply a list of staged entries to a snapshot, in order (later entries
/// win).
pub open spec fn apply_changes(base: SnapshotV, entries: Seq<EntryV>) -> SnapshotV
    decreases entries.len(),
{
    if entries.len() == 0 {
        base
    } else {
        apply_change(apply_changes(base, entries.drop_last()), entries.last())
    }
}

/// The per-path difference from `old_snap` to `new_snap`: paths present in
/// `new_snap` with a content or mode not in `old_snap` map to their new
/// item, and paths removed map to `None`.
pub open spec fn staged_changes(old_snap: SnapshotV, new_snap: SnapshotV) -> Map<
    Seq<char>,
    Option<(Seq<u8>, u32)>,
> {
    Map::new(
        |p: Seq<char>|
            (new_snap.dom().contains(p) && (!old_snap.dom().contains(p) || old_snap[p]
                != new_snap[p])) || (old_snap.dom().contains(p) && !new_snap.dom().contains(p)),
        |p: Seq<char>|
            if new_snap.dom().contains(p) {
                Some(new_snap[p])
            } else {
                None
            },
    )
}

/// The change list as a map (later entries win).
pub open spec fn entries_map(entries: Seq<EntryV>) -> Map<Seq<char>, Option<(Seq<u8>, u32)>>
    decreases entries.len(),
{
    if entries.len() == 0 {
        Map::empty()
    } else {
        entries_map(entries.drop_last()).insert(entries.last().0, entries.last().1)
    }
}

/// At most one entry per path, with one exception: a staged type change
/// decomposes into a deletion followed by a re-addition at the same path.
/// So whenever two entries share a path, the earlier one is the deletion
/// and the later one carries content.
pub open spec fn entries_split_ordered(entries: Seq<EntryV>) -> bool {
    forall|a: int, b: int|
        0 <= a < b < entries.len() && (#[trigger] entries[a]).0 == (#[trigger] entries[b]).0
            ==> entries[a].1 is None && entries[b].1 is Some
}

/// The file modes the store accepts in a staged entry: regular blob,
/// executable blob, symbolic link, and commit (submodule).
pub open spec fn valid_git_mode(mode: u32) -> bool {
    mode == 0o100644 || mode == 0o100755 || mode == 0o120000 || mode == 0o160000
}

/// `pre` names a directory on the way to `full`: it is a proper prefix
/// ending immediately before a separator.
pub open spec fn is_slash_prefix(pre: Seq<char>, full: Seq<char>) -> bool {
    pre.len() < full.len() && full.take(pre.len() as int) == pre && full[pre.len() as int] == '/'
}

/// The two paths collide as file versus directory: one is a proper
/// slash-prefix of the other, so no snapshot can hold both.
pub open spec fn paths_collide(p: Seq<char>, q: Seq<char>) -> bool {
    is_slash_prefix(p, q) || is_slash_prefix(q, p)
}

/// No two paths of the snapshot collide as file versus directory. Every
/// snapshot read from a well-formed tree has this shape.
pub open spec fn snapshot_collision_free(snap: SnapshotV) -> bool {
    forall|p: Seq<char>, q: Seq<char>|
        #[trigger] snap.dom().contains(p) && #[trigger] snap.dom().contains(q)
            ==> !paths_collide(p, q)
}

/// Insert one path the way the store does: every entry colliding with the
/// new path as file-versus-directory is dropped, then the path is bound.
pub open spec fn store_insert(snap: SnapshotV, p: Seq<char>, item: (Seq<u8>, u32)) -> SnapshotV {
    Map::new(
        |q: Seq<char>| (snap.dom().contains(q) && !paths_collide(p, q)) || q == p,
        |q: Seq<char>|
            if q == p {
                item
            } else {
                snap[q]
            },
    )
}

/// Apply one staged entry with the store's insertion semantics.
pub open spec fn apply_store_change(snap: SnapshotV, e: EntryV) -> SnapshotV {
    match e.1 {
        Some(item) => store_insert(snap, e.0, item),
        None => snap.remove(e.0),
    }
}

/// Apply a list of staged entries with the store's insertion semantics,
/// in order.
pub open spec fn apply_store_changes(base: SnapshotV, entries: Seq<EntryV>) -> SnapshotV
    decreases entries.len(),
{
    if entries.len() == 0 {
        base
    } else {
        apply_store_change(apply_store_changes(base, entries.drop_last()), entries.last())
    }
}

/// Every entry applies cleanly to the evolving snapshot, in order: an
/// insertion carries a full-length content id and an accepted file mode,
/// and a deletion names an acceptable path the snapshot holds at its
/// turn.
pub open spec fn entries_store_applicable(base: SnapshotV, entries: Seq<EntryV>) -> bool
    decreases entries.len(),
{
    if entries.len() == 0 {
        true
    } else {
        entries_store_applicable(base, entries.drop_last()) && (match entries.last().1 {
            Some((id, mode)) => id.len() == 20 && valid_git_mode(mode),
            None => crate::paths::repo_path_accepted(entries.last().0) && apply_store_changes(
                base,
                entries.drop_last(),
            ).dom().contains(entries.last().0),
        })
    }
}

/// No insertion among the entries collides with a base path or with
/// another entry's path: the condition under which the store's insertion
/// semantics and the plain override semantics agree.
pub open spec fn no_insert_collisions(base: SnapshotV, entries: Seq<EntryV>) -> bool {
    forall|i: int, q: Seq<char>|
        0 <= i < entries.len() && (#[trigger] entries[i]).1 is Some && (base.dom().contains(q)
            || mentions_path(entries, q)) ==> !(#[trigger] paths_collide(entries[i].0, q))
}

/// Whether some entry in the list is at path `p`.
pub open spec fn mentions_path(entries: Seq<EntryV>, p: Seq<char>) -> bool {
    exists|i: int| 0 <= i < entries.len() && (#[trigger] entries[i]).0 == p
}

/// Every entry records a genuine difference from `base`: an insertion or
/// replacement differs from what `base` holds, and a deletion deletes a
/// path `base` has.
pub open spec fn entries_are_changes(base: SnapshotV, entries: Seq<EntryV>) -> bool {
    forall|i: int|
        0 <= i < entries.len() ==> match (#[trigger] entries[i]).1 {
            Some(item) => !base.dom().contains(entries[i].0) || base[entries[i].0] != item,
            None => base.dom().contains(entries[i].0),
        }
}

/// Isolation: applying staged entries leaves every unmentioned path exactly
/// as the base snapshot has it.
pub proof fn lemma_apply_changes_unrelated(base: SnapshotV, entries: Seq<EntryV>, p: Seq<char>)
    requires
        !mentions_path(entries, p),
    ensures
        apply_changes(base, entries).dom().contains(p) == base.dom().contains(p),
        base.dom().contains(p) ==> apply_changes(base, entries)[p] == base[p],
    decreases entries.len(),
{
    if entries.len() > 0 {
        let rest = entries.drop_last();
        assert(!mentions_path(rest, p)) by {
            if mentions_path(rest, p) {
                let i = choose|i: int| 0 <= i < rest.len() && (#[trigger] rest[i]).0 == p;
                assert((entries[i]).0 == p);
            }
        }
        assert((entries[entries.len() - 1]).0 == entries.last().0);
        lemma_apply_changes_unrelated(base, rest, p);
    }
}

/// Snapshot completeness: if every entry is a genuine change against
/// `base`, then diffing the applied snapshot back against `base` yields
/// exactly the entry list (as a map; later entries win).
pub proof fn lemma_snapshot_completeness(base: SnapshotV, entries: Seq<EntryV>)
    requires
        entries_are_changes(base, entries),
    ensures
        staged_changes(base, apply_changes(base, entries)) == entries_map(entries),
    decreases entries.len(),
{
    if entries.len() == 0 {
        assert(staged_changes(base, base) =~= Map::<Seq<char>, Option<(Seq<u8>, u32)>>::empty());
    } else {
        let rest = entries.drop_last();
        let e = entries.last();
        assert(entries_are_changes(base, rest)) by {
            assert(forall|i: int| 0 <= i < rest.len() ==> rest[i] == entries[i]);
        }
        lemma_snapshot_completeness(base, rest);
        let applied_rest = apply_changes(base, rest);
        let applied = apply_changes(base, entries);
        assert((entries[entries.len() - 1]).1 == e.1);
        assert(staged_changes(base, applied) =~= entries_map(rest).insert(e.0, e.1)) by {
            assert(forall|p: Seq<char>|
                p != e.0 ==> #[trigger] applied.dom().contains(p) == applied_rest.dom().contains(
                    p,
                ));
            assert(forall|p: Seq<char>|
                p != e.0 && applied.dom().contains(p) ==> #[trigger] applied[p]
                    == applied_rest[p]);
        }
    }
}

/// The store's insertion keeps a snapshot collision-free.
pub proof fn lemma_store_insert_collision_free(
    snap: SnapshotV,
    p: Seq<char>,
    item: (Seq<u8>, u32),
)
    requires
        snapshot_collision_free(snap),
    ensures
        snapshot_collision_free(store_insert(snap, p, item)),
{
    let out = store_insert(snap, p, item);
    assert forall|a: Seq<char>, b: Seq<char>|
        #[trigger] out.dom().contains(a) && #[trigger] out.dom().contains(b) implies !paths_collide(
        a,
        b,
    ) by {
        if a != p && b != p {
            assert(snap.dom().contains(a) && snap.dom().contains(b));
        }
        assert(!paths_collide(p, p));
    }
}

/// Removal keeps a snapshot collision-free.
pub proof fn lemma_remove_collision_free(snap: SnapshotV, p: Seq<char>)
    requires
        snapshot_collision_free(snap),
    ensures
        snapshot_collision_free(snap.remove(p)),
{
    assert forall|a: Seq<char>, b: Seq<char>|
        #[trigger] snap.remove(p).dom().contains(a) && #[trigger] snap.remove(p).dom().contains(
        b,
    ) implies !paths_collide(a, b) by {
        assert(snap.dom().contains(a) && snap.dom().contains(b));
    }
}

/// Every path of an applied snapshot is a base path or a mentioned entry
/// path.
pub proof fn lemma_apply_changes_dom(base: SnapshotV, entries: Seq<EntryV>, p: Seq<char>)
    requires
        apply_changes(base, entries).dom().contains(p),
    ensures
        base.dom().contains(p) || mentions_path(entries, p),
    decreases entries.len(),
{
    if entries.len() > 0 {
        let rest = entries.drop_last();
        let e = entries.last();
        assert((entries[entries.len() - 1]) == e);
        if e.0 != p {
            lemma_apply_changes_dom(base, rest, p);
            if mentions_path(rest, p) {
                let i = choose|i: int| 0 <= i < rest.len() && (#[trigger] rest[i]).0 == p;
                assert((entries[i]).0 == p);
            }
        }
    }
}

/// When no insertion collides with a base path or another entry path, the
/// store's insertion semantics agree with the plain override semantics.
pub proof fn lemma_store_apply_matches_plain(base: SnapshotV, entries: Seq<EntryV>)
    requires
        no_insert_collisions(base, entries),
    ensures
        apply_store_changes(base, entries) == apply_changes(base, entries),
    decreases entries.len(),
{
    if entries.len() > 0 {
        let rest = entries.drop_last();
        let e = entries.last();
        assert((entries[entries.len() - 1]) == e);
        assert(no_insert_collisions(base, rest)) by {
            assert forall|i: int, q: Seq<char>|
                0 <= i < rest.len() && (#[trigger] rest[i]).1 is Some && (base.dom().contains(q)
                    || mentions_path(rest, q)) implies !(#[trigger] paths_collide(
                rest[i].0,
                q,
            )) by {
                assert((entries[i]) == rest[i]);
                if mentions_path(rest, q) {
                    let w = choose|w: int| 0 <= w < rest.len() && (#[trigger] rest[w]).0 == q;
                    assert((entries[w]).0 == q);
                }
            }
        }
        lemma_store_apply_matches_plain(base, rest);
        let m = apply_changes(base, rest);
        match e.1 {
            Some(item) => {
                assert(store_insert(m, e.0, item) =~= m.insert(e.0, item)) by {
                    assert forall|q: Seq<char>| #[trigger] m.dom().contains(q) implies
                        !paths_collide(e.0, q) by {
                        lemma_apply_changes_dom(base, rest, q);
                        if mentions_path(rest, q) {
                            let w = choose|w: int|
                                0 <= w < rest.len() && (#[trigger] rest[w]).0 == q;
                            assert((entries[w]).0 == q);
                        }
                        assert(mentions_path(entries, q) || base.dom().contains(q));
                    }
                    assert(!paths_collide(e.0, e.0));
                }
            },
            None => {},
        }
    }
}

/// Deletion/rename decomposition: a rename staged as a deletion at the old
/// path plus an addition at the new path yields a snapshot that holds the
/// new path and no longer holds the old one, and leaves every other path
/// alone.
pub proof fn lemma_rename_decomposition(
    base: SnapshotV,
    old_path: Seq<char>,
    new_path: Seq<char>,
    item: (Seq<u8>, u32),
)
    requires
        old_path != new_path,
    ensures
        !apply_changes(base, seq![(old_path, None), (new_path, Some(item))]).dom().contains(
            old_path,
        ),
        apply_changes(base, seq![(old_path, None), (new_path, Some(item))]).dom().contains(
            new_path,
        ),
        apply_changes(base, seq![(old_path, None), (new_path, Some(item))])[new_path] == item,
{
    let no_change: Option<(Seq<u8>, u32)> = None;
    let entries = seq![(old_path, None), (new_path, Some(item))];
    assert(entries.drop_last() =~= seq![(old_path, no_change)]);
    assert(entries.drop_last().drop_last() =~= Seq::<EntryV>::empty());
    assert(entries.last() == (new_path, Some(item)));
    assert(entries.drop_last().last() == (old_path, no_change));
    assert(apply_changes(base, entries.drop_last().drop_last()) == base);
    assert(apply_changes(base, entries.drop_last()) == base.remove(old_path));
    assert(apply_changes(base, entries) == base.remove(old_path).insert(new_path, item));
}

} // verus!
