//! Typed indices: newtypes over `usize` that say what they index.

use vstd::prelude::*;

verus! {

/// A type usable as an index into an `IdxVec` or `IdxSlice`.
pub trait Idx: Copy + Sized {
    /// The position this index denotes.
    spec fn spec_idx(&self) -> usize;

    fn new(idx: usize) -> (r: Self)
        ensures
            r.spec_idx() == idx,
    ;

    fn idx(&self) -> (r: usize)
        ensures
            r == self.spec_idx(),
    ;

    fn incr(&mut self)
        requires
            old(self).spec_idx() < usize::MAX,
        ensures
            final(self).spec_idx() == old(self).spec_idx() + 1,
    ;

    fn incr_by(&mut self, by: usize)
        requires
            old(self).spec_idx() + by <= usize::MAX,
        ensures
            final(self).spec_idx() == old(self).spec_idx() + by,
    ;
}

} // verus!
