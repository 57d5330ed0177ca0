//! The compilation context: the target, the arguments, and the interner
//! that gives each distinct type or layout one canonical handle.

use vstd::prelude::*;

use crate::arena::{holds, keeps_all, value_at, ArenaDropless, ArenaPrt};
use crate::layout::{
    layout_of_ty, BackendKind, LayoutData, LayoutError, TargetDataLayout, TirTarget, TyAndLayout,
};
use crate::layout_ctx::LayoutCtx;
use crate::tir::TirTy;

verus! {

/// The kind of output a compilation emits.
#[derive(PartialEq, Eq, Structural, Clone, Copy, Debug, Hash)]
pub enum EmitKind {
    Assembly,
    Object,
    LlvmIr,
}

#[derive(PartialEq, Eq, Structural, Clone, Copy, Debug, Hash)]
pub struct TirArgs {
    pub emit_kind: EmitKind,
}

/// A value that can be interned: its content can be compared.
pub trait Internable: Sized {
    fn same_content(&self, other: &Self) -> (r: bool)
        ensures
            r == (*self == *other),
    ;
}

impl Internable for TirTy {
    fn same_content(&self, other: &Self) -> (r: bool) {
        *self == *other
    }
}

impl Internable for LayoutData {
    fn same_content(&self, other: &Self) -> (r: bool) {
        *self == *other
    }
}

/// A handle to an interned value. Two handles of one context are equal
/// exactly when the values they denote are.
#[derive(PartialEq, Eq, Structural, Clone, Copy, Debug, Hash)]
pub struct Interned {
    pub prt: ArenaPrt,
}

impl Interned {
    /// Wraps the arena address of a value that is interned exactly once.
    pub fn new(prt: ArenaPrt) -> (r: Interned)
        ensures
            r.prt == prt,
    {
        Interned { prt }
    }
}

/// The handles of all values interned so far, one per distinct value.
#[derive(Debug)]
pub struct InternedSet<T> {
    entries: Vec<ArenaPrt>,
    _marker: std::marker::PhantomData<T>,
}

/// `entries` are handles held by `chunks` that denote pairwise distinct values.
pub open spec fn canonical<T>(entries: Seq<ArenaPrt>, chunks: Seq<Seq<T>>) -> bool {
    &&& forall|i: int| 0 <= i < entries.len() ==> holds(chunks, #[trigger] entries[i])
    &&& forall|i: int, j: int|
        0 <= i < entries.len() && 0 <= j < entries.len() && i != j ==> value_at(
            chunks,
            #[trigger] entries[i],
        ) != value_at(chunks, #[trigger] entries[j])
}

/// Some entry denotes `value`.
pub open spec fn has_value<T>(entries: Seq<ArenaPrt>, chunks: Seq<Seq<T>>, value: T) -> bool {
    exists|i: int| 0 <= i < entries.len() && value_at(chunks, #[trigger] entries[i]) == value
}

/// What interning `value` did, from the set `e0` over the arena `a0` to the
/// set `e1` over `a1`, returning `r`: an existing handle for the same value
/// is returned and nothing changes; otherwise the value is moved into the
/// arena under a fresh handle, which joins the set.
pub open spec fn interned<T>(
    e0: Seq<ArenaPrt>,
    a0: Seq<Seq<T>>,
    value: T,
    r: ArenaPrt,
    e1: Seq<ArenaPrt>,
    a1: Seq<Seq<T>>,
) -> bool {
    &&& canonical(e1, a1)
    &&& keeps_all(a0, a1)
    &&& holds(a1, r)
    &&& value_at(a1, r) == value
    &&& forall|p: ArenaPrt| #[trigger] holds(a1, p) ==> holds(a0, p) || p == r
    &&& e1.contains(r)
    &&& has_value(e0, a0, value) ==> e1 == e0 && a1 == a0 && e0.contains(r)
    &&& !has_value(e0, a0, value) ==> e1 == e0.push(r) && !holds(a0, r)
}

/// Interning two values one after the other gives the same handle exactly
/// when the values are equal: interning is idempotent, and distinct contents
/// get distinct handles.
pub proof fn lemma_intern_canonical<T>(
    e0: Seq<ArenaPrt>,
    a0: Seq<Seq<T>>,
    x: T,
    r1: ArenaPrt,
    e1: Seq<ArenaPrt>,
    a1: Seq<Seq<T>>,
    y: T,
    r2: ArenaPrt,
    e2: Seq<ArenaPrt>,
    a2: Seq<Seq<T>>,
)
    requires
        canonical(e0, a0),
        interned(e0, a0, x, r1, e1, a1),
        interned(e1, a1, y, r2, e2, a2),
    ensures
        (x == y) <==> (r1 == r2),
{
    assert(holds(a1, r1));
    assert(value_at(a2, r1) == x);
    if x == y {
        let i = choose|i: int| 0 <= i < e1.len() && e1[i] == r1;
        assert(value_at(a1, e1[i]) == y);
        assert(has_value(e1, a1, y));
        let j = choose|j: int| 0 <= j < e1.len() && e1[j] == r2;
        assert(value_at(a1, e1[j]) == y);
        if i != j {
            assert(value_at(a1, e1[i]) != value_at(a1, e1[j]));
        }
    }
}

impl<T: Internable> InternedSet<T> {
    pub closed spec fn entries(&self) -> Seq<ArenaPrt> {
        self.entries@
    }

    pub fn new() -> (r: Self)
        ensures
            r.entries().len() == 0,
    {
        InternedSet { entries: Vec::new(), _marker: std::marker::PhantomData }
    }

    /// The canonical handle of `value`: the one already in the set for an
    /// equal value, else a fresh one for `value` moved into `arena`.
    pub fn intern(&mut self, arena: &mut ArenaDropless<T>, value: T) -> (r: ArenaPrt)
        requires
            old(arena).wf(),
            canonical(old(self).entries(), old(arena)@),
        ensures
            final(arena).wf(),
            interned(old(self).entries(), old(arena)@, value, r, final(self).entries(), final(arena)@),
    {
        let n = self.entries.len();
        let mut k: usize = 0;
        while k < n
            invariant
                n == self.entries@.len(),
                k <= n,
                canonical(self.entries@, arena@),
                arena.wf(),
                forall|i: int| 0 <= i < k ==> value_at(arena@, #[trigger] self.entries@[i]) != value,
            decreases n - k,
        {
            let prt = self.entries[k];
            if arena.get(prt).same_content(&value) {
                proof {
                    assert(self.entries@.contains(prt));
                }
                return prt;
            }
            k = k + 1;
        }
        let ghost e0 = self.entries@;
        let ghost a0 = arena@;
        let prt = arena.allocate(value);
        self.entries.push(prt);
        proof {
            let e1 = self.entries@;
            assert(e1[e1.len() - 1] == prt);
            assert forall|i: int| 0 <= i < e1.len() implies holds(arena@, #[trigger] e1[i]) by {
                if i < e0.len() {
                    assert(holds(a0, e0[i]));
                }
            }
            assert forall|i: int, j: int|
                0 <= i < e1.len() && 0 <= j < e1.len() && i != j implies value_at(
                arena@,
                #[trigger] e1[i],
            ) != value_at(arena@, #[trigger] e1[j]) by {
                if i < e0.len() {
                    assert(holds(a0, e0[i]));
                }
                if j < e0.len() {
                    assert(holds(a0, e0[j]));
                }
            }
            assert(e1.contains(prt));
        }
        prt
    }
}

/// The arenas that hold every interned value of a context.
#[derive(Debug)]
pub struct TirArena {
    pub types: ArenaDropless<TirTy>,
    pub layouts: ArenaDropless<LayoutData>,
}

impl TirArena {
    pub open spec fn wf(&self) -> bool {
        self.types.wf() && self.layouts.wf()
    }
}

impl Default for TirArena {
    fn default() -> (r: TirArena)
        ensures
            r.wf(),
            r.types@.len() == 0,
            r.layouts@.len() == 0,
    {
        TirArena { types: ArenaDropless::new(), layouts: ArenaDropless::new() }
    }
}

/// The interner of a context: its arena and the sets of interned types and layouts.
#[derive(Debug)]
pub struct InternCtx {
    arena: TirArena,
    types: InternedSet<TirTy>,
    layouts: InternedSet<LayoutData>,
}

impl InternCtx {
    pub closed spec fn wf(&self) -> bool {
        &&& self.arena.wf()
        &&& canonical(self.types.entries(), self.arena.types@)
        &&& canonical(self.layouts.entries(), self.arena.layouts@)
    }

    /// The chunks of interned types.
    pub closed spec fn type_chunks(&self) -> Seq<Seq<TirTy>> {
        self.arena.types@
    }

    /// The handles of interned types.
    pub closed spec fn type_entries(&self) -> Seq<ArenaPrt> {
        self.types.entries()
    }

    /// The chunks of interned layouts.
    pub closed spec fn layout_chunks(&self) -> Seq<Seq<LayoutData>> {
        self.arena.layouts@
    }

    /// The handles of interned layouts.
    pub closed spec fn layout_entries(&self) -> Seq<ArenaPrt> {
        self.layouts.entries()
    }

    /// An interner over `arena`, with nothing interned yet.
    pub fn new(arena: TirArena) -> (r: Self)
        requires
            arena.wf(),
        ensures
            r.wf(),
            r.type_chunks() == arena.types@,
            r.layout_chunks() == arena.layouts@,
            r.type_entries().len() == 0,
            r.layout_entries().len() == 0,
    {
        InternCtx { arena, types: InternedSet::new(), layouts: InternedSet::new() }
    }
}

/// A context that hands out handles for its interned types.
pub trait Interner: Sized {
    type Ty: Copy;
}

/// A handle type for the types of the interner `I`.
pub trait Ty<I: Interner>: Sized + Copy {}

/// A handle to an interned type.
#[derive(PartialEq, Eq, Structural, Clone, Copy, Debug, Hash)]
pub struct InternedTy(pub Interned);

impl Ty<TirCtx> for InternedTy {}

impl Interner for TirCtx {
    type Ty = InternedTy;
}

/// A handle to an interned layout.
#[derive(PartialEq, Eq, Structural, Clone, Copy, Debug, Hash)]
pub struct Layout(pub Interned);

/// Everything a pass needs besides the IR: the target, the arguments, and
/// the interner.
#[derive(Debug)]
pub struct TirCtx {
    target: TirTarget,
    arguments: TirArgs,
    intern_ctx: InternCtx,
    /// Layouts already computed, keyed by the canonical handle of their type.
    layout_cache: Vec<(InternedTy, TyAndLayout)>,
}

/// Every cached entry is the layout of the type its handle denotes.
pub open spec fn cache_ok(
    cache: Seq<(InternedTy, TyAndLayout)>,
    chunks: Seq<Seq<TirTy>>,
    dl: TargetDataLayout,
) -> bool {
    forall|i: int|
        0 <= i < cache.len() ==> holds(chunks, (#[trigger] cache[i]).0.0.prt) && layout_of_ty(
            value_at(chunks, cache[i].0.0.prt),
            dl,
        ) == Ok::<TyAndLayout, LayoutError>(cache[i].1)
}

impl TirCtx {
    pub closed spec fn wf(&self) -> bool {
        &&& self.intern_ctx.wf()
        &&& cache_ok(self.layout_cache@, self.intern_ctx.type_chunks(), self.target.data_layout)
    }

    pub closed spec fn target_spec(&self) -> TirTarget {
        self.target
    }

    pub closed spec fn arguments_spec(&self) -> TirArgs {
        self.arguments
    }

    pub closed spec fn interner(&self) -> InternCtx {
        self.intern_ctx
    }

    pub fn new(target: TirTarget, arguments: TirArgs, intern_ctx: InternCtx) -> (r: Self)
        requires
            intern_ctx.wf(),
        ensures
            r.wf(),
            r.target_spec() == target,
            r.arguments_spec() == arguments,
            r.interner() == intern_ctx,
    {
        TirCtx { target, arguments, intern_ctx, layout_cache: Vec::new() }
    }

    pub fn target(&self) -> (r: &TirTarget)
        ensures
            *r == self.target_spec(),
    {
        &self.target
    }

    /// The layout of `ty` on this context's target.
    pub fn layout_of(&self, ty: TirTy) -> (r: Result<TyAndLayout, LayoutError>)
        ensures
            r == layout_of_ty(ty, self.target_spec().data_layout),
    {
        let layout_ctx = LayoutCtx::new(self);
        layout_ctx.compute_layout(ty)
    }

    pub fn backend_kind(&self) -> (r: &BackendKind)
        ensures
            *r == self.target_spec().codegen_backend,
    {
        &self.target.codegen_backend
    }

    pub fn emit_kind(&self) -> (r: &EmitKind)
        ensures
            *r == self.arguments_spec().emit_kind,
    {
        &self.arguments.emit_kind
    }

    /// The canonical handle of `layout` in this context.
    pub fn intern_layout(&mut self, layout: LayoutData) -> (r: Layout)
        requires
            old(self).wf(),
        ensures
            final(self).wf(),
            final(self).target_spec() == old(self).target_spec(),
            final(self).arguments_spec() == old(self).arguments_spec(),
            final(self).interner().type_chunks() == old(self).interner().type_chunks(),
            final(self).interner().type_entries() == old(self).interner().type_entries(),
            interned(
                old(self).interner().layout_entries(),
                old(self).interner().layout_chunks(),
                layout,
                r.0.prt,
                final(self).interner().layout_entries(),
                final(self).interner().layout_chunks(),
            ),
    {
        let prt = self.intern_ctx.layouts.intern(&mut self.intern_ctx.arena.layouts, layout);
        Layout(Interned::new(prt))
    }

    /// The canonical handle of `ty` in this context.
    pub fn intern_ty(&mut self, ty: TirTy) -> (r: InternedTy)
        requires
            old(self).wf(),
        ensures
            final(self).wf(),
            final(self).target_spec() == old(self).target_spec(),
            final(self).arguments_spec() == old(self).arguments_spec(),
            final(self).interner().layout_chunks() == old(self).interner().layout_chunks(),
            final(self).interner().layout_entries() == old(self).interner().layout_entries(),
            interned(
                old(self).interner().type_entries(),
                old(self).interner().type_chunks(),
                ty,
                r.0.prt,
                final(self).interner().type_entries(),
                final(self).interner().type_chunks(),
            ),
    {
        let ghost before = self.intern_ctx.type_chunks();
        let prt = self.intern_ctx.types.intern(&mut self.intern_ctx.arena.types, ty);
        proof {
            let after = self.intern_ctx.type_chunks();
            let cache = self.layout_cache@;
            assert forall|i: int| 0 <= i < cache.len() implies holds(after, (#[trigger] cache[i]).0.0.prt)
                && layout_of_ty(value_at(after, cache[i].0.0.prt), self.target.data_layout)
                == Ok::<TyAndLayout, LayoutError>(cache[i].1) by {
                assert(holds(before, cache[i].0.0.prt));
            }
        }
        InternedTy(Interned::new(prt))
    }

    /// The layout of the type that `ty` denotes, computed on the first request
    /// and then taken from the context's cache.
    pub fn layout_of_interned(&mut self, ty: InternedTy) -> (r: Result<TyAndLayout, LayoutError>)
        requires
            old(self).wf(),
            holds(old(self).interner().type_chunks(), ty.0.prt),
        ensures
            final(self).wf(),
            final(self).target_spec() == old(self).target_spec(),
            final(self).arguments_spec() == old(self).arguments_spec(),
            final(self).interner() == old(self).interner(),
            r == layout_of_ty(
                value_at(old(self).interner().type_chunks(), ty.0.prt),
                old(self).target_spec().data_layout,
            ),
    {
        let n = self.layout_cache.len();
        let mut k: usize = 0;
        while k < n
            invariant
                n == self.layout_cache@.len(),
                k <= n,
                *self == *old(self),
                self.wf(),
            decreases n - k,
        {
            if self.layout_cache[k].0 == ty {
                proof {
                    assert(cache_ok(self.layout_cache@, self.intern_ctx.type_chunks(), self.target.data_layout));
                    assert(self.layout_cache@[k as int].0 == ty);
                }
                return Ok(self.layout_cache[k].1);
            }
            k = k + 1;
        }
        let data = self.ty_data(ty);
        let r = self.layout_of(data);
        if let Ok(l) = r {
            let ghost old_cache = self.layout_cache@;
            self.layout_cache.push((ty, l));
            proof {
                let cache = self.layout_cache@;
                assert forall|i: int| 0 <= i < cache.len() implies holds(
                    self.intern_ctx.type_chunks(),
                    (#[trigger] cache[i]).0.0.prt,
                ) && layout_of_ty(value_at(self.intern_ctx.type_chunks(), cache[i].0.0.prt), self.target.data_layout)
                    == Ok::<TyAndLayout, LayoutError>(cache[i].1) by {
                    if i < old_cache.len() {
                        assert(cache[i] == old_cache[i]);
                    }
                }
            }
        }
        r
    }

    /// The type that an interned handle of this context denotes.
    pub fn ty_data(&self, ty: InternedTy) -> (r: TirTy)
        requires
            holds(self.interner().type_chunks(), ty.0.prt),
        ensures
            r == value_at(self.interner().type_chunks(), ty.0.prt),
    {
        *self.intern_ctx.arena.types.get(ty.0.prt)
    }

    /// The layout that an interned handle of this context denotes.
    pub fn layout_data(&self, layout: Layout) -> (r: LayoutData)
        requires
            holds(self.interner().layout_chunks(), layout.0.prt),
        ensures
            r == value_at(self.interner().layout_chunks(), layout.0.prt),
    {
        *self.intern_ctx.arena.layouts.get(layout.0.prt)
    }
}

} // verus!
