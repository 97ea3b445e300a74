//! Pathspec handling for paths that have been expanded to files.

use vstd::prelude::*;

verus! {

/// A path that has been "unglobbed": directories expanded to their file
/// contents. A value of this type stands for a concrete file path
/// (existing, deleted, or a symlink), never a directory; the caller doing
/// the expansion upholds that.
#[derive(Debug, Clone)]
pub struct UnglobbedPath {
    path: String,
}

impl View for UnglobbedPath {
    type V = Seq<char>;

    closed spec fn view(&self) -> Seq<char> {
        self.path@
    }
}

impl UnglobbedPath {
    /// Wrap one concrete file path.
    pub fn new(path: String) -> (r: Self)
        ensures
            r@ == path@,
    {
        UnglobbedPath { path }
    }

    /// The wrapped path.
    pub fn as_str(&self) -> (r: &str)
        ensures
            r@ == self@,
    {
        self.path.as_str()
    }
}

} // verus!
