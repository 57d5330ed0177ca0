//! A dropless arena: values are bump-allocated into chunks that are never
//! moved or freed while the arena lives, so a handle stays valid and keeps
//! denoting the same value for the arena's whole lifetime.

use vstd::prelude::*;

verus! {

/// The number of slots of every chunk.
pub const MIN_CHUNK_SIZE: usize = 1024;

/// The stable address of a value in an arena: its chunk and its slot there.
#[derive(PartialEq, Eq, Structural, Clone, Copy, Debug, Hash)]
pub struct ArenaPrt {
    pub chunk: usize,
    pub offset: usize,
}

/// One block of slots of an arena; it is filled in order and never grows
/// past its capacity.
#[derive(Debug)]
pub struct ArenaChunk<T> {
    mem: Vec<T>,
}

/// An arena whose current chunk has its first free slot at `start` and its
/// end at `end`.
#[derive(Debug)]
pub struct ArenaDropless<T> {
    start: usize,
    end: usize,
    inner: Vec<ArenaChunk<T>>,
}

impl<T> View for ArenaDropless<T> {
    /// The values held by each chunk, in allocation order.
    type V = Seq<Seq<T>>;

    closed spec fn view(&self) -> Seq<Seq<T>> {
        self.inner@.map_values(|c: ArenaChunk<T>| c.mem@)
    }
}

/// `p` denotes a value held by an arena whose chunks are `chunks`.
pub open spec fn holds<T>(chunks: Seq<Seq<T>>, p: ArenaPrt) -> bool {
    p.chunk < chunks.len() && p.offset < chunks[p.chunk as int].len()
}

/// The value that `p` denotes in an arena whose chunks are `chunks`.
pub open spec fn value_at<T>(chunks: Seq<Seq<T>>, p: ArenaPrt) -> T {
    chunks[p.chunk as int][p.offset as int]
}

/// Every handle of `before` is still held by `after`, and denotes the same value.
pub open spec fn keeps_all<T>(before: Seq<Seq<T>>, after: Seq<Seq<T>>) -> bool {
    forall|p: ArenaPrt|
        #[trigger] holds(before, p) ==> holds(after, p) && value_at(after, p) == value_at(before, p)
}

/// The number of values held by the chunks `chunks`.
pub open spec fn total<T>(chunks: Seq<Seq<T>>) -> nat
    decreases chunks.len(),
{
    if chunks.len() == 0 {
        0
    } else {
        total(chunks.drop_last()) + chunks.last().len()
    }
}

impl<T> ArenaDropless<T> {
    /// The bump cursor and the limit describe the last chunk, and no chunk
    /// holds more than a chunk's capacity.
    pub closed spec fn wf(&self) -> bool {
        &&& self.end == if self.inner@.len() == 0 { 0 } else { MIN_CHUNK_SIZE }
        &&& self.inner@.len() == 0 ==> self.start == 0
        &&& self.inner@.len() > 0 ==> self.start == self.inner@.last().mem@.len()
        &&& forall|c: int|
            0 <= c < self.inner@.len() ==> (#[trigger] self.inner@[c]).mem@.len() <= MIN_CHUNK_SIZE
    }

    pub fn new() -> (r: Self)
        ensures
            r.wf(),
            r@.len() == 0,
    {
        ArenaDropless { start: 0, end: 0, inner: Vec::new() }
    }

    /// Moves `value` into the arena and returns its handle. Values already
    /// in the arena keep their handles and stay unchanged.
    pub fn allocate(&mut self, value: T) -> (r: ArenaPrt)
        requires
            old(self).wf(),
        ensures
            final(self).wf(),
            !holds(old(self)@, r),
            holds(final(self)@, r),
            value_at(final(self)@, r) == value,
            keeps_all(old(self)@, final(self)@),
            forall|p: ArenaPrt| #[trigger] holds(final(self)@, p) ==> holds(old(self)@, p) || p == r,
            total(final(self)@) == total(old(self)@) + 1,
    {
        let ghost before = self@;
        if self.start >= self.end {
            // The current chunk is full, or there is none yet: start a new one.
            let chunk = ArenaChunk { mem: Vec::with_capacity(MIN_CHUNK_SIZE) };
            self.inner.push(chunk);
            self.start = 0;
            self.end = MIN_CHUNK_SIZE;
            proof {
                assert(self@ =~= before.push(Seq::empty()));
                assert(self@.drop_last() =~= before);
                assert(total(self@) == total(before));
            }
        }
        let ghost mid = self@;
        let last = self.inner.len() - 1;
        let mut chunk = self.inner.pop().unwrap();
        let offset = chunk.mem.len();
        chunk.mem.push(value);
        self.inner.push(chunk);
        self.start = self.start + 1;
        let r = ArenaPrt { chunk: last, offset };
        proof {
            assert(self@ =~= mid.update(last as int, mid[last as int].push(value)));
            assert(self@.drop_last() =~= mid.drop_last());
            assert forall|p: ArenaPrt| #[trigger] holds(before, p) implies holds(self@, p)
                && value_at(self@, p) == value_at(before, p) by {
                if p.chunk == last {
                    assert(mid[last as int] == before[last as int]);
                }
            }
        }
        r
    }

    /// The value that `p` denotes.
    pub fn get(&self, p: ArenaPrt) -> (r: &T)
        requires
            holds(self@, p),
        ensures
            *r == value_at(self@, p),
    {
        &self.inner[p.chunk].mem[p.offset]
    }

    /// The number of values allocated so far.
    pub fn len(&self) -> (r: usize)
        requires
            self.wf(),
            total(self@) <= usize::MAX,
        ensures
            r == total(self@),
    {
        let mut sum: usize = 0;
        let mut c: usize = 0;
        while c < self.inner.len()
            invariant
                c <= self@.len(),
                sum == total(self@.subrange(0, c as int)),
                total(self@) <= usize::MAX,
            decreases self@.len() - c,
        {
            proof {
                lemma_total_prefix(self@, c as int + 1);
                assert(self@.subrange(0, c as int + 1).drop_last() =~= self@.subrange(0, c as int));
            }
            sum = sum + self.inner[c].mem.len();
            c = c + 1;
        }
        proof {
            assert(self@.subrange(0, c as int) =~= self@);
        }
        sum
    }
}

/// A prefix of an arena holds no more values than the whole.
proof fn lemma_total_prefix<T>(chunks: Seq<Seq<T>>, n: int)
    requires
        0 <= n <= chunks.len(),
    ensures
        total(chunks.subrange(0, n)) <= total(chunks),
    decreases chunks.len() - n,
{
    if n < chunks.len() {
        lemma_total_prefix(chunks, n + 1);
        assert(chunks.subrange(0, n + 1).drop_last() =~= chunks.subrange(0, n));
    } else {
        assert(chunks.subrange(0, n) =~= chunks);
    }
}

/// A handle that an arena returned keeps denoting the same value after any
/// number of later allocations, however many new chunks they start.
pub proof fn lemma_handles_stay_valid<T>(history: Seq<Seq<Seq<T>>>, p: ArenaPrt)
    requires
        history.len() > 0,
        holds(history[0], p),
        forall|i: int| 0 <= i < history.len() - 1 ==> keeps_all(#[trigger] history[i], history[i + 1]),
    ensures
        forall|i: int|
            0 <= i < history.len() ==> holds(#[trigger] history[i], p) && value_at(history[i], p)
                == value_at(history[0], p),
    decreases history.len(),
{
    if history.len() > 1 {
        let shorter = history.drop_last();
        assert forall|i: int| 0 <= i < shorter.len() - 1 implies keeps_all(#[trigger] shorter[i], shorter[i + 1]) by {
            assert(keeps_all(history[i], history[i + 1]));
        }
        lemma_handles_stay_valid(shorter, p);
        let n = history.len() - 1;
        assert(keeps_all(history[n - 1], history[n]));
        assert(holds(shorter[n - 1], p));
        assert forall|i: int| 0 <= i < history.len() implies holds(#[trigger] history[i], p)
            && value_at(history[i], p) == value_at(history[0], p) by {
            if i < n {
                assert(shorter[i] == history[i]);
            }
        }
    }
}

} // verus!
