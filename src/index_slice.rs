//! A read-only view of contiguous elements addressed by a typed index.

use std::marker::PhantomData;
use std::slice::Iter;

use vstd::prelude::*;
use vstd::std_specs::cmp::OrdSpec;

use crate::idx::Idx;

verus! {

/// A view into contiguous `T`s, indexed by `I` rather than by `usize`.
pub struct IdxSlice<'a, I, T> {
    _marker: PhantomData<I>,
    pub raw: &'a [T],
}

impl<'a, I, T> View for IdxSlice<'a, I, T> {
    type V = Seq<T>;

    closed spec fn view(&self) -> Seq<T> {
        self.raw@
    }
}

impl<'a, I: Idx, T> IdxSlice<'a, I, T> {
    pub fn empty() -> (r: IdxSlice<'a, I, T>)
        ensures
            r@.len() == 0,
    {
        let raw: &'a [T] = &[];
        IdxSlice::from_raw(raw)
    }

    pub fn from_raw(raw: &'a [T]) -> (r: IdxSlice<'a, I, T>)
        ensures
            r@ == raw@,
    {
        IdxSlice { _marker: PhantomData, raw }
    }

    pub fn len(&self) -> (r: usize)
        ensures
            r == self@.len(),
    {
        self.raw.len()
    }

    pub fn is_empty(&self) -> (r: bool)
        ensures
            r == (self@.len() == 0),
    {
        self.raw.len() == 0
    }

    /// The index that the next pushed element would get.
    pub fn next_index(&self) -> (r: I)
        ensures
            r.spec_idx() == self@.len(),
    {
        I::new(self.len())
    }

    pub fn iter(&self) -> (r: Iter<'a, T>)
        ensures
            vstd::std_specs::iter::IteratorSpec::remaining(&r) == self@.as_ref(),
    {
        self.raw.iter()
    }

    /// Each element paired with its index, in order.
    pub fn iter_enumerated(&self) -> (r: Vec<(I, &'a T)>)
        ensures
            r@.len() == self@.len(),
            forall|i: int|
                0 <= i < r@.len() ==> (#[trigger] r@[i]).0.spec_idx() == i && *r@[i].1
                    == self@[i],
    {
        let mut out: Vec<(I, &'a T)> = Vec::new();
        let n = self.raw.len();
        let mut k: usize = 0;
        while k < n
            invariant
                n == self@.len(),
                k <= n,
                out@.len() == k,
                forall|i: int|
                    0 <= i < k ==> (#[trigger] out@[i]).0.spec_idx() == i && *out@[i].1
                        == self@[i],
            decreases n - k,
        {
            out.push((I::new(k), &self.raw[k]));
            k = k + 1;
        }
        out
    }

    /// All indices of the slice, in order.
    pub fn indices(&self) -> (r: Vec<I>)
        ensures
            r@.len() == self@.len(),
            forall|i: int| 0 <= i < r@.len() ==> (#[trigger] r@[i]).spec_idx() == i,
    {
        let mut out: Vec<I> = Vec::new();
        let n = self.raw.len();
        let mut k: usize = 0;
        while k < n
            invariant
                k <= n,
                out@.len() == k,
                forall|i: int| 0 <= i < k ==> (#[trigger] out@[i]).spec_idx() == i,
            decreases n - k,
        {
            out.push(I::new(k));
            k = k + 1;
        }
        out
    }

    pub fn last_index(&self) -> (r: Option<I>)
        ensures
            self@.len() == 0 ==> r is None,
            self@.len() > 0 ==> r is Some && r->Some_0.spec_idx() == self@.len() - 1,
    {
        let n = self.raw.len();
        if n == 0 {
            None
        } else {
            Some(I::new(n - 1))
        }
    }

    /// The element at `index`, or `None` past the end.
    pub fn get(&self, index: I) -> (r: Option<&'a T>)
        ensures
            index.spec_idx() < self@.len() ==> r is Some && *r->Some_0 == self@[index.spec_idx() as int],
            index.spec_idx() >= self@.len() ==> r is None,
    {
        let i = index.idx();
        if i < self.raw.len() {
            Some(&self.raw[i])
        } else {
            None
        }
    }

    /// The elements from `start` up to, not including, `end`; `None` when the
    /// range is reversed or runs past the end.
    pub fn get_range(&self, start: I, end: I) -> (r: Option<&'a [T]>)
        ensures
            start.spec_idx() <= end.spec_idx() <= self@.len() ==> r is Some && r->Some_0@
                == self@.subrange(start.spec_idx() as int, end.spec_idx() as int),
            !(start.spec_idx() <= end.spec_idx() <= self@.len()) ==> r is None,
    {
        let (s, e) = (start.idx(), end.idx());
        if s <= e && e <= self.raw.len() {
            Some(self.index_range(start, end))
        } else {
            None
        }
    }

    /// The elements from `start` up to, not including, `end`.
    pub fn index_range(&self, start: I, end: I) -> (r: &'a [T])
        requires
            start.spec_idx() <= end.spec_idx() <= self@.len(),
        ensures
            r@ == self@.subrange(start.spec_idx() as int, end.spec_idx() as int),
    {
        let (s, e) = (start.idx(), end.idx());
        let (left, _) = self.raw.split_at(e);
        let (_, mid) = left.split_at(s);
        mid
    }
}

impl<'a, I: Idx, T: Ord> IdxSlice<'a, I, T> {
    /// Binary search for `value`: `Ok` with the index of an element equal to
    /// it, or `Err` with an index no greater than the length. In a slice
    /// sorted around `value`, `Err` gives the index where it would be
    /// inserted to keep the slice sorted.
    pub fn binary_search(&self, value: &T) -> (r: Result<I, I>)
        requires
            T::obeys_cmp_spec(),
        ensures
            match r {
                Ok(i) => i.spec_idx() < self@.len() && self@[i.spec_idx() as int].cmp_spec(value)
                    == std::cmp::Ordering::Equal,
                Err(i) => i.spec_idx() <= self@.len() && (partitioned(self@, value) ==> all_below(
                    self@,
                    i.spec_idx() as int,
                    value,
                ) && all_above(self@, i.spec_idx() as int, value)),
            },
    {
        let mut lo: usize = 0;
        let mut hi: usize = self.raw.len();
        while lo < hi
            invariant
                hi <= self@.len(),
                lo <= hi,
                T::obeys_cmp_spec(),
                partitioned(self@, value) ==> all_below(self@, lo as int, value) && all_above(
                    self@,
                    hi as int,
                    value,
                ),
            decreases hi - lo,
        {
            let mid = lo + (hi - lo) / 2;
            match self.raw[mid].cmp(value) {
                std::cmp::Ordering::Less => {
                    proof {
                        if partitioned(self@, value) {
                            assert forall|k: int| 0 <= k < mid + 1 implies (#[trigger] self@[k]).cmp_spec(
                                value,
                            ) == std::cmp::Ordering::Less by {
                                if k < mid {
                                    assert(self@[mid as int].cmp_spec(value) == std::cmp::Ordering::Less);
                                }
                            }
                        }
                    }
                    lo = mid + 1;
                },
                std::cmp::Ordering::Equal => {
                    return Ok(I::new(mid));
                },
                std::cmp::Ordering::Greater => {
                    proof {
                        if partitioned(self@, value) {
                            assert forall|k: int| mid <= k < self@.len() implies (#[trigger] self@[k]).cmp_spec(
                                value,
                            ) == std::cmp::Ordering::Greater by {
                                if k > mid {
                                    assert(self@[mid as int].cmp_spec(value) == std::cmp::Ordering::Greater);
                                }
                            }
                        }
                    }
                    hi = mid;
                },
            }
        }
        Err(I::new(lo))
    }
}

/// The elements of `s` that order below `value` all come before those that
/// do not, and those that order above it all come after those that do not:
/// what a slice sorted by the same order satisfies.
pub open spec fn partitioned<T: Ord>(s: Seq<T>, value: &T) -> bool {
    forall|i: int, j: int|
        0 <= i <= j < s.len() ==> ((#[trigger] s[j]).cmp_spec(value) == std::cmp::Ordering::Less
            ==> (#[trigger] s[i]).cmp_spec(value) == std::cmp::Ordering::Less) && (s[i].cmp_spec(
            value,
        ) == std::cmp::Ordering::Greater ==> s[j].cmp_spec(value) == std::cmp::Ordering::Greater)
}

/// Every element of `s` from position `start` on orders above `value`.
pub open spec fn all_above<T: Ord>(s: Seq<T>, start: int, value: &T) -> bool {
    forall|k: int| start <= k < s.len() ==> (#[trigger] s[k]).cmp_spec(value) == std::cmp::Ordering::Greater
}

/// Every element of `s` before position `end` orders below `value`.
pub open spec fn all_below<T: Ord>(s: Seq<T>, end: int, value: &T) -> bool {
    forall|k: int| 0 <= k < end ==> (#[trigger] s[k]).cmp_spec(value) == std::cmp::Ordering::Less
}

impl<'a, I: Idx, T> std::ops::Index<I> for IdxSlice<'a, I, T> {
    type Output = T;

    fn index(&self, index: I) -> (r: &T)
        ensures
            *r == self@[index.spec_idx() as int],
    {
        &self.raw[index.idx()]
    }
}

impl<'a, I: Idx, T> vstd::std_specs::core::IndexSpecImpl<I> for IdxSlice<'a, I, T> {
    open spec fn index_req(&self, index: &I) -> bool {
        index.spec_idx() < self@.len()
    }
}

impl<'a, I: Idx, T> IntoIterator for IdxSlice<'a, I, T> {
    type Item = &'a T;

    type IntoIter = Iter<'a, T>;

    fn into_iter(self) -> (r: Iter<'a, T>)
        ensures
            vstd::std_specs::iter::IteratorSpec::remaining(&r) == self@.as_ref(),
    {
        self.raw.iter()
    }
}

} // verus!
