//! Plain records of staged-diff entries.
//!
//! The underlying store reports the staging area's differences against the
//! last commit as a list of deltas. Each one is captured here as plain
//! values, so the selection logic over them can be verified.

use vstd::prelude::*;

verus! {

/// The path reported for one delta, if it carried one that this crate can
/// hold as text.
#[derive(Debug, Clone, PartialEq, Eq)]
pub enum DeltaPath {
    /// The delta carried no path at all.
    Missing,
    /// The delta's path is not valid Unicode.
    NotUnicode,
    /// The delta's repository-relative path.
    Known(String),
}

/// One difference between the last-commit tree and the staging area, as
/// plain values: the path, whether the path was deleted from the staging
/// area, and otherwise the staged content id (raw object-id bytes) and
/// file mode.
#[derive(Debug, Clone)]
pub struct DeltaRecord {
    pub path: DeltaPath,
    pub deleted: bool,
    pub id: Vec<u8>,
    pub mode: u32,
}

/// Whether every delta carries a Unicode path.
pub open spec fn all_paths_known(deltas: Seq<DeltaRecord>) -> bool {
    forall|i: int| 0 <= i < deltas.len() ==> (#[trigger] deltas[i]).path is Known
}

/// The first delta path that is missing or not Unicode, scanning in order.
pub open spec fn spec_first_bad_path(deltas: Seq<DeltaRecord>) -> Option<DeltaPath>
    decreases deltas.len(),
{
    if deltas.len() == 0 {
        None
    } else if !(deltas.first().path is Known) {
        Some(deltas.first().path)
    } else {
        spec_first_bad_path(deltas.drop_first())
    }
}

/// Every delta records a genuine difference from the base snapshot: a
/// deletion's path is one the base holds, and any other delta carries
/// content or mode other than what the base holds at its path.
pub open spec fn deltas_are_changes(
    deltas: Seq<DeltaRecord>,
    base: crate::snapshot::SnapshotV,
) -> bool {
    forall|j: int|
        0 <= j < deltas.len() ==> ((#[trigger] deltas[j]).path matches DeltaPath::Known(s) ==> (
        if deltas[j].deleted {
            base.dom().contains(s@)
        } else {
            !base.dom().contains(s@) || base[s@] != (deltas[j].id@, deltas[j].mode)
        }))
}

/// At most two deltas share a known path, and then the earlier one is a
/// deletion and the later one is not: the shape in which the store
/// reports a staged file-type change (it splits the change into a
/// deletion and an addition at the same path); every other path appears
/// at most once.
pub open spec fn paths_split_ordered(deltas: Seq<DeltaRecord>) -> bool {
    forall|i: int, j: int|
        0 <= i < j < deltas.len() ==> match (
            (#[trigger] deltas[i]).path,
            (#[trigger] deltas[j]).path,
        ) {
            (DeltaPath::Known(a), DeltaPath::Known(b)) => a@ == b@ ==> deltas[i].deleted
                && !deltas[j].deleted,
            _ => true,
        }
}

} // verus!
