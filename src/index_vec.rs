//! An owned vector addressed by a typed index.

use std::marker::PhantomData;
use std::ops::Range;
use std::slice::{Iter, IterMut};

use vstd::prelude::*;

use crate::idx::Idx;
use crate::index_slice::IdxSlice;

verus! {

/// std's iterator of exclusive slice references, carried as an opaque value.
#[verifier::external_type_specification]
#[verifier::external_body]
#[verifier::reject_recursive_types(T)]
pub struct ExIterMut<'a, T: 'a>(IterMut<'a, T>);

/// Relies on `Vec::shrink_to_fit`: only the capacity changes, never the contents.
#[verifier::external_body]
fn vec_shrink_to_fit<T>(v: &mut Vec<T>)
    ensures
        final(v)@ == old(v)@,
{
    v.shrink_to_fit()
}

/// Relies on `<[T]>::iter_mut`: an iterator of exclusive references to the
/// elements, in order.
#[verifier::external_body]
fn vec_iter_mut<'a, T>(v: &'a mut Vec<T>) -> (r: IterMut<'a, T>) {
    v.iter_mut()
}

/// An owned contiguous collection of `T`s, indexed by `I` rather than by `usize`.
#[derive(Debug, PartialEq, Eq, Hash)]
pub struct IdxVec<I, T> {
    _marker: PhantomData<I>,
    pub raw: Vec<T>,
}

impl<I, T> View for IdxVec<I, T> {
    type V = Seq<T>;

    closed spec fn view(&self) -> Seq<T> {
        self.raw@
    }
}

/// Every element of `v` from `from` up to `to` is a value `fill` may return.
pub open spec fn filled_by<T, F: Fn() -> T>(v: Seq<T>, from: int, to: int, fill: F) -> bool {
    forall|j: int| from <= j < to ==> call_ensures(fill, (), #[trigger] v[j])
}

/// `v` is a value that `func` may return for an index denoting `k`.
pub open spec fn made_by<I: Idx, T, F: Fn(I) -> T>(func: F, k: int, v: T) -> bool {
    exists|i: I| i.spec_idx() == k && call_ensures(func, (i,), v)
}

impl<I: Idx, T> IdxVec<I, T> {
    pub fn new() -> (r: Self)
        ensures
            r@.len() == 0,
    {
        IdxVec::from_raw(Vec::new())
    }

    pub fn from_raw(raw: Vec<T>) -> (r: Self)
        ensures
            r@ == raw@,
    {
        IdxVec { _marker: PhantomData, raw }
    }

    pub fn with_capacity(capacity: usize) -> (r: Self)
        ensures
            r@.len() == 0,
    {
        IdxVec::from_raw(Vec::with_capacity(capacity))
    }

    pub fn len(&self) -> (r: usize)
        ensures
            r == self@.len(),
    {
        self.raw.len()
    }

    pub fn is_empty(&self) -> (r: bool)
        ensures
            r == (self@.len() == 0),
    {
        self.raw.len() == 0
    }

    /// The index that the next pushed element gets.
    pub fn next_index(&self) -> (r: I)
        ensures
            r.spec_idx() == self@.len(),
    {
        I::new(self.raw.len())
    }

    /// Appends `value`, returning the index it was stored at.
    pub fn push(&mut self, value: T) -> (r: I)
        requires
            old(self)@.len() < usize::MAX,
        ensures
            r.spec_idx() == old(self)@.len(),
            final(self)@ == old(self)@.push(value),
    {
        let idx = self.next_index();
        self.raw.push(value);
        idx
    }

    /// A vector with a copy of `elem` for each index of `universe`.
    pub fn from_elem<S>(elem: T, universe: &IdxSlice<'_, I, S>) -> (r: Self) where T: Clone
        ensures
            r@.len() == universe@.len(),
            forall|i: int| 0 <= i < r@.len() ==> cloned(elem, #[trigger] r@[i]),
    {
        IdxVec::from_raw(vec![elem; universe.len()])
    }

    /// A vector of `n` copies of `elem`.
    pub fn from_elem_n(elem: T, n: usize) -> (r: Self) where T: Clone
        ensures
            r@.len() == n,
            forall|i: int| 0 <= i < r@.len() ==> cloned(elem, #[trigger] r@[i]),
    {
        IdxVec::from_raw(vec![elem; n])
    }

    /// A vector of `n` elements whose element at `i` is `func(i)`.
    pub fn from_fn_n<F: Fn(I) -> T>(func: F, n: usize) -> (r: Self)
        requires
            forall|i: I| call_requires(func, (i,)),
        ensures
            r@.len() == n,
            forall|k: int| 0 <= k < n ==> made_by(func, k, #[trigger] r@[k]),
    {
        let mut raw: Vec<T> = Vec::with_capacity(n);
        let mut k: usize = 0;
        while k < n
            invariant
                k <= n,
                raw@.len() == k,
                forall|i: I| call_requires(func, (i,)),
                forall|j: int| 0 <= j < k ==> made_by(func, j, #[trigger] raw@[j]),
            decreases n - k,
        {
            let i = I::new(k);
            let v = func(i);
            let ghost prev = raw@;
            raw.push(v);
            assert forall|j: int| 0 <= j < k + 1 implies made_by(func, j, #[trigger] raw@[j]) by {
                if j < k {
                    assert(raw@[j] == prev[j]);
                } else {
                    assert(i.spec_idx() == j && call_ensures(func, (i,), raw@[j]));
                }
            }
            k = k + 1;
        }
        IdxVec::from_raw(raw)
    }

    /// A read-only view of the elements.
    pub fn as_slice(&self) -> (r: IdxSlice<'_, I, T>)
        ensures
            r@ == self@,
    {
        IdxSlice::from_raw(self.raw.as_slice())
    }

    /// Exclusive access to the elements as a slice of fixed length.
    pub fn as_mut_slice(&mut self) -> (r: &mut [T])
        ensures
            r@ == old(self)@,
            final(self)@ == final(r)@,
    {
        self.raw.as_mut_slice()
    }

    /// Exclusive references to all elements, each paired with its index, in order.
    pub fn iter_enumerated_mut(&mut self) -> (r: Vec<(I, &mut T)>)
        ensures
            r@.len() == old(self)@.len(),
            forall|i: int|
                0 <= i < r@.len() ==> (#[trigger] r@[i]).0.spec_idx() == i && *r@[i].1 == old(self)@[i],
            final(self)@.len() == old(self)@.len(),
            forall|i: int| 0 <= i < r@.len() ==> final(self)@[i] == *final(r@[i].1),
    {
        let ghost s0 = self@;
        let n = self.raw.len();
        let mut rest: &mut [T] = self.raw.as_mut_slice();
        let ghost whole = rest;
        let mut out: Vec<(I, &mut T)> = Vec::new();
        let mut k: usize = 0;
        proof {
            assert(out@.map_values(|p: (I, &mut T)| *final(p.1)) + final(rest)@ =~= final(rest)@);
        }
        while rest.len() > 0
            invariant
                k + rest@.len() == s0.len(),
                s0.len() == n,
                out@.len() == k,
                rest@ == s0.subrange(k as int, s0.len() as int),
                forall|i: int| 0 <= i < k ==> (#[trigger] out@[i]).0.spec_idx() == i && *out@[i].1 == s0[i],
                final(whole)@ == out@.map_values(|p: (I, &mut T)| *final(p.1)) + final(rest)@,
            decreases rest@.len(),
        {
            let (head, tail) = rest.split_at_mut(1);
            let x = head.first_mut().unwrap();
            out.push((I::new(k), x));
            rest = tail;
            k = k + 1;
        }
        out
    }

    pub fn pop(&mut self) -> (r: Option<T>)
        ensures
            old(self)@.len() > 0 ==> r == Some(old(self)@.last()) && final(self)@ == old(self)@.drop_last(),
            old(self)@.len() == 0 ==> r is None && final(self)@ == old(self)@,
    {
        self.raw.pop()
    }

    /// Consumes the vector, pairing each element with its index.
    pub fn into_iter_enumerated(self) -> (r: Vec<(I, T)>)
        ensures
            r@.len() == self@.len(),
            forall|i: int|
                0 <= i < r@.len() ==> (#[trigger] r@[i]).0.spec_idx() == i && r@[i].1 == self@[i],
    {
        let n = self.raw.len();
        assert(0 + n <= usize::MAX);
        enumerate_from(self.raw, 0)
    }

    /// Removes the elements in `range` and returns them, in order.
    pub fn drain(&mut self, range: Range<usize>) -> (r: Vec<T>)
        requires
            range.start <= range.end <= old(self)@.len(),
        ensures
            r@ == old(self)@.subrange(range.start as int, range.end as int),
            final(self)@ == old(self)@.subrange(0, range.start as int) + old(self)@.subrange(
                range.end as int,
                old(self)@.len() as int,
            ),
    {
        let mut tail = self.raw.split_off(range.end);
        let mid = self.raw.split_off(range.start);
        self.raw.append(&mut tail);
        mid
    }

    /// Removes the elements in `range` and returns them with their former indices.
    pub fn drain_enumerated(&mut self, range: Range<usize>) -> (r: Vec<(I, T)>)
        requires
            range.start <= range.end <= old(self)@.len(),
        ensures
            r@.len() == range.end - range.start,
            forall|i: int|
                0 <= i < r@.len() ==> (#[trigger] r@[i]).0.spec_idx() == range.start + i && r@[i].1
                    == old(self)@[range.start + i],
            final(self)@ == old(self)@.subrange(0, range.start as int) + old(self)@.subrange(
                range.end as int,
                old(self)@.len() as int,
            ),
    {
        let begin = range.start;
        let drained = self.drain(range);
        assert(begin + drained@.len() == range.end);
        enumerate_from(drained, begin)
    }

    pub fn shrink_to_fit(&mut self)
        ensures
            final(self)@ == old(self)@,
    {
        vec_shrink_to_fit(&mut self.raw)
    }

    /// Keeps the first `a` elements; has no effect when there are fewer.
    pub fn truncate(&mut self, a: usize)
        ensures
            a <= old(self)@.len() ==> final(self)@ == old(self)@.subrange(0, a as int),
            a > old(self)@.len() ==> final(self)@ == old(self)@,
    {
        self.raw.truncate(a)
    }

    /// Grows the vector with values of `fill_value` until `elem` is in range,
    /// then returns the entry at `elem`.
    pub fn ensure_contains_elem<F: Fn() -> T>(&mut self, elem: I, fill_value: F) -> (r: &mut T)
        requires
            elem.spec_idx() < usize::MAX,
            call_requires(fill_value, ()),
        ensures
            elem.spec_idx() < old(self)@.len() ==> *r == old(self)@[elem.spec_idx() as int]
                && final(self)@ == old(self)@.update(elem.spec_idx() as int, *final(r)),
            elem.spec_idx() >= old(self)@.len() ==> {
                &&& final(self)@.len() == elem.spec_idx() + 1
                &&& final(self)@.subrange(0, old(self)@.len() as int) == old(self)@
                &&& filled_by(final(self)@, old(self)@.len() as int, elem.spec_idx() as int, fill_value)
                &&& call_ensures(fill_value, (), *r)
                &&& final(self)@[elem.spec_idx() as int] == *final(r)
            },
    {
        let i = elem.idx();
        if self.raw.len() < i + 1 {
            self.resize_to_elem(elem, fill_value);
        }
        &mut self.raw[i]
    }

    /// Sets the length to `new_len`, dropping the tail or appending copies of `value`.
    pub fn resize(&mut self, new_len: usize, value: T) where T: Clone
        ensures
            new_len <= old(self)@.len() ==> final(self)@ == old(self)@.subrange(0, new_len as int),
            new_len > old(self)@.len() ==> {
                &&& final(self)@.len() == new_len
                &&& final(self)@.subrange(0, old(self)@.len() as int) == old(self)@
                &&& forall|i: int|
                    old(self)@.len() <= i < new_len ==> cloned(value, #[trigger] final(self)@[i])
            },
    {
        self.raw.resize(new_len, value)
    }

    /// Sets the length to one past `elem`, dropping the tail or appending
    /// values of `fill_value`.
    pub fn resize_to_elem<F: Fn() -> T>(&mut self, elem: I, fill_value: F)
        requires
            elem.spec_idx() < usize::MAX,
            call_requires(fill_value, ()),
        ensures
            final(self)@.len() == elem.spec_idx() + 1,
            elem.spec_idx() + 1 <= old(self)@.len() ==> final(self)@ == old(self)@.subrange(
                0,
                elem.spec_idx() + 1,
            ),
            elem.spec_idx() + 1 > old(self)@.len() ==> final(self)@.subrange(
                0,
                old(self)@.len() as int,
            ) == old(self)@ && filled_by(
                final(self)@,
                old(self)@.len() as int,
                elem.spec_idx() + 1,
                fill_value,
            ),
    {
        let min_new_len = elem.idx() + 1;
        if min_new_len <= self.raw.len() {
            self.raw.truncate(min_new_len);
        } else {
            let ghost start = self.raw@;
            while self.raw.len() < min_new_len
                invariant
                    start.len() < min_new_len,
                    start.len() <= self.raw@.len() <= min_new_len,
                    self.raw@.subrange(0, start.len() as int) == start,
                    filled_by(self.raw@, start.len() as int, self.raw@.len() as int, fill_value),
                    call_requires(fill_value, ()),
                decreases min_new_len - self.raw@.len(),
            {
                let v = fill_value();
                self.raw.push(v);
                assert(self.raw@.subrange(0, start.len() as int) =~= start);
            }
        }
    }

    /// Moves all elements of `other` to the end of `self`, leaving `other` empty.
    pub fn append(&mut self, other: &mut Self)
        ensures
            final(self)@ == old(self)@ + old(other)@,
            final(other)@.len() == 0,
    {
        self.raw.append(&mut other.raw);
    }

    pub fn iter(&self) -> (r: Iter<'_, T>)
        ensures
            vstd::std_specs::iter::IteratorSpec::remaining(&r) == self@.as_ref(),
    {
        self.raw.as_slice().iter()
    }

    /// An iterator of exclusive references to the elements, in order.
    pub fn iter_mut(&mut self) -> IterMut<'_, T> {
        vec_iter_mut(&mut self.raw)
    }

    pub fn last_index(&self) -> (r: Option<I>)
        ensures
            self@.len() == 0 ==> r is None,
            self@.len() > 0 ==> r is Some && r->Some_0.spec_idx() == self@.len() - 1,
    {
        self.as_slice().last_index()
    }

    /// The element at `index`, or `None` past the end.
    pub fn get(&self, index: I) -> (r: Option<&T>)
        ensures
            index.spec_idx() < self@.len() ==> r is Some && *r->Some_0 == self@[index.spec_idx() as int],
            index.spec_idx() >= self@.len() ==> r is None,
    {
        let i = index.idx();
        if i < self.raw.len() {
            Some(&self.raw[i])
        } else {
            None
        }
    }

    /// An exclusive reference to the element at `index`, or `None` past the end.
    pub fn get_mut(&mut self, index: I) -> (r: Option<&mut T>)
        ensures
            index.spec_idx() < old(self)@.len() ==> r is Some && *r.unwrap() == old(self)@[index.spec_idx() as int]
                && final(self)@ == old(self)@.update(index.spec_idx() as int, *final(r.unwrap())),
            index.spec_idx() >= old(self)@.len() ==> r is None && final(self)@ == old(self)@,
    {
        let i = index.idx();
        if i < self.raw.len() {
            Some(&mut self.raw[i])
        } else {
            None
        }
    }
}

impl<I: Idx, T> IdxVec<I, T> {
    /// Exclusive references to the two distinct elements at `a` and `b`.
    pub fn pick2_mut(&mut self, a: I, b: I) -> (r: (&mut T, &mut T))
        requires
            a.spec_idx() != b.spec_idx(),
            a.spec_idx() < old(self)@.len(),
            b.spec_idx() < old(self)@.len(),
        ensures
            *r.0 == old(self)@[a.spec_idx() as int],
            *r.1 == old(self)@[b.spec_idx() as int],
            final(self)@ == old(self)@.update(a.spec_idx() as int, *final(r.0)).update(
                b.spec_idx() as int,
                *final(r.1),
            ),
    {
        let (ai, bi) = (a.idx(), b.idx());
        let (lo, hi) = if ai < bi { (ai, bi) } else { (bi, ai) };
        let (c1, c2) = self.raw.as_mut_slice().split_at_mut(hi);
        let (_, c1_tail) = c1.split_at_mut(lo);
        let first = c1_tail.first_mut().unwrap();
        let second = c2.first_mut().unwrap();
        if ai < bi {
            (first, second)
        } else {
            (second, first)
        }
    }

    /// Exclusive references to the three distinct elements at `a`, `b` and `c`.
    pub fn pick3_mut(&mut self, a: I, b: I, c: I) -> (r: (&mut T, &mut T, &mut T))
        requires
            a.spec_idx() != b.spec_idx(),
            b.spec_idx() != c.spec_idx(),
            c.spec_idx() != a.spec_idx(),
            a.spec_idx() < old(self)@.len(),
            b.spec_idx() < old(self)@.len(),
            c.spec_idx() < old(self)@.len(),
        ensures
            *r.0 == old(self)@[a.spec_idx() as int],
            *r.1 == old(self)@[b.spec_idx() as int],
            *r.2 == old(self)@[c.spec_idx() as int],
            final(self)@ == old(self)@.update(a.spec_idx() as int, *final(r.0)).update(
                b.spec_idx() as int,
                *final(r.1),
            ).update(c.spec_idx() as int, *final(r.2)),
    {
        let (ai, bi, ci) = (a.idx(), b.idx(), c.idx());
        // Order the three positions as lo < md < hi, then split around them.
        let (lo, md, hi) = if ai < bi {
            if bi < ci { (ai, bi, ci) } else if ai < ci { (ai, ci, bi) } else { (ci, ai, bi) }
        } else {
            if ai < ci { (bi, ai, ci) } else if bi < ci { (bi, ci, ai) } else { (ci, bi, ai) }
        };
        let (left, right) = self.raw.as_mut_slice().split_at_mut(hi);
        let (left, middle) = left.split_at_mut(md);
        let (_, low) = left.split_at_mut(lo);
        let x_lo = low.first_mut().unwrap();
        let x_md = middle.first_mut().unwrap();
        let x_hi = right.first_mut().unwrap();
        if ai == lo {
            if bi == md { (x_lo, x_md, x_hi) } else { (x_lo, x_hi, x_md) }
        } else if ai == md {
            if bi == lo { (x_md, x_lo, x_hi) } else { (x_md, x_hi, x_lo) }
        } else {
            if bi == lo { (x_hi, x_lo, x_md) } else { (x_hi, x_md, x_lo) }
        }
    }

    /// Exchanges the elements at `a` and `b`.
    pub fn swap(&mut self, a: I, b: I)
        requires
            a.spec_idx() < old(self)@.len(),
            b.spec_idx() < old(self)@.len(),
        ensures
            final(self)@ == old(self)@.update(a.spec_idx() as int, old(self)@[b.spec_idx() as int]).update(
                b.spec_idx() as int,
                old(self)@[a.spec_idx() as int],
            ),
    {
        if a.idx() != b.idx() {
            let (x, y) = self.pick2_mut(a, b);
            core::mem::swap(x, y);
        } else {
            proof {
                assert(old(self)@.update(a.spec_idx() as int, old(self)@[b.spec_idx() as int]).update(
                    b.spec_idx() as int, old(self)@[a.spec_idx() as int]) =~= old(self)@);
            }
        }
    }
}

impl<I: Idx, T> std::ops::Index<I> for IdxVec<I, T> {
    type Output = T;

    fn index(&self, index: I) -> (r: &T)
        ensures
            *r == self@[index.spec_idx() as int],
    {
        &self.raw[index.idx()]
    }
}

impl<I: Idx, T> vstd::std_specs::core::IndexSpecImpl<I> for IdxVec<I, T> {
    open spec fn index_req(&self, index: &I) -> bool {
        index.spec_idx() < self@.len()
    }
}

impl<I: Idx, T> Default for IdxVec<I, T> {
    fn default() -> (r: Self)
        ensures
            r@.len() == 0,
    {
        Self::new()
    }
}

impl<I: Idx, T> IntoIterator for IdxVec<I, T> {
    type Item = T;

    type IntoIter = std::vec::IntoIter<T>;

    fn into_iter(self) -> std::vec::IntoIter<T> {
        self.raw.into_iter()
    }
}

impl<'a, I: Idx, T> IntoIterator for &'a IdxVec<I, T> {
    type Item = &'a T;

    type IntoIter = Iter<'a, T>;

    fn into_iter(self) -> (r: Iter<'a, T>)
        ensures
            vstd::std_specs::iter::IteratorSpec::remaining(&r) == self@.as_ref(),
    {
        self.raw.as_slice().iter()
    }
}

/// Pushing values one after another onto an empty vector gives them the
/// indices 0, 1, 2, ... in push order, and each of those indices then holds
/// the value pushed with it. `states[i]` is the contents before the `i`-th
/// push, and `indices[i]` what that push returned.
pub proof fn lemma_push_assigns_indices_in_order<I: Idx, T>(
    states: Seq<Seq<T>>,
    values: Seq<T>,
    indices: Seq<I>,
)
    requires
        states.len() == values.len() + 1,
        indices.len() == values.len(),
        states[0].len() == 0,
        forall|i: int|
            0 <= i < values.len() ==> (#[trigger] indices[i]).spec_idx() == states[i].len()
                && states[i + 1] == states[i].push(values[i]),
    ensures
        states.last().len() == values.len(),
        forall|i: int|
            0 <= i < values.len() ==> (#[trigger] indices[i]).spec_idx() == i && states.last()[i]
                == values[i],
    decreases values.len(),
{
    if values.len() > 0 {
        let n = values.len() - 1;
        assert forall|i: int| 0 <= i < n implies (#[trigger] indices.drop_last()[i]).spec_idx()
            == states.drop_last()[i].len() && states.drop_last()[i + 1] == states.drop_last()[i].push(
            values.drop_last()[i],
        ) by {
            assert(indices[i].spec_idx() == states[i].len());
        }
        lemma_push_assigns_indices_in_order(states.drop_last(), values.drop_last(), indices.drop_last());
        assert(states.drop_last().last() == states[n]);
        assert(indices[n].spec_idx() == states[n].len());
        assert forall|i: int| 0 <= i < values.len() implies (#[trigger] indices[i]).spec_idx() == i
            && states.last()[i] == values[i] by {
            if i < n {
                assert(indices.drop_last()[i] == indices[i]);
                assert(values.drop_last()[i] == values[i]);
            }
        }
    }
}

impl<'a, I: Idx, T> IntoIterator for &'a mut IdxVec<I, T> {
    type Item = &'a mut T;

    type IntoIter = IterMut<'a, T>;

    fn into_iter(self) -> IterMut<'a, T> {
        vec_iter_mut(&mut self.raw)
    }
}

/// Pairs each element of `items` with the index `begin` plus its position.
fn enumerate_from<I: Idx, T>(items: Vec<T>, begin: usize) -> (r: Vec<(I, T)>)
    requires
        begin + items@.len() <= usize::MAX,
    ensures
        r@.len() == items@.len(),
        forall|i: int|
            0 <= i < r@.len() ==> (#[trigger] r@[i]).0.spec_idx() == begin + i && r@[i].1 == items@[i],
{
    let ghost orig = items@;
    let mut rest = items;
    let mut out: Vec<(I, T)> = Vec::new();
    let n = rest.len();
    let mut k: usize = 0;
    while k < n
        invariant
            n == orig.len(),
            begin + n <= usize::MAX,
            k <= n,
            rest@ == orig.subrange(k as int, n as int),
            out@.len() == k,
            forall|i: int|
                0 <= i < k ==> (#[trigger] out@[i]).0.spec_idx() == begin + i && out@[i].1 == orig[i],
        decreases n - k,
    {
        let t = rest.remove(0);
        out.push((I::new(begin + k), t));
        k = k + 1;
        assert(rest@ =~= orig.subrange(k as int, n as int));
    }
    out
}

} // verus!
