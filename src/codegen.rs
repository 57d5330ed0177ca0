//! Preparing a unit for a backend: choosing the backend and computing the
//! layout of every local of every body.

use vstd::prelude::*;

use crate::ctx::TirCtx;
use crate::layout::{layout_of_ty, BackendKind, LayoutError, TargetDataLayout, TyAndLayout};
use crate::tir::{DefId, Local, LocalData, TirBody, TirTy, TirUnit};

verus! {

/// Why a unit could not be handed to a backend.
#[derive(PartialEq, Eq, Structural, Clone, Copy, Debug, Hash)]
pub enum CodegenError {
    /// The target selects a backend that has no implementation.
    UnsupportedBackend(BackendKind),
    /// A local of the given body has a type without a layout.
    Layout(DefId, LayoutError),
}

/// The types of a body's locals: the return slot and parameters, then the rest.
pub open spec fn local_tys(body: TirBody) -> Seq<TirTy> {
    (body.ret_and_args@ + body.locals@).map_values(|d: LocalData| d.ty)
}

/// The layouts of `tys` in order, or the error of the first one without a layout.
pub open spec fn layouts_of(tys: Seq<TirTy>, dl: TargetDataLayout) -> Result<Seq<TyAndLayout>, LayoutError>
    decreases tys.len(),
{
    if tys.len() == 0 {
        Ok(Seq::empty())
    } else {
        match layouts_of(tys.drop_last(), dl) {
            Err(e) => Err(e),
            Ok(s) => match layout_of_ty(tys.last(), dl) {
                Err(e) => Err(e),
                Ok(l) => Ok(s.push(l)),
            },
        }
    }
}

/// The local layouts of each body of `bodies` in order, or the error of the
/// first body with a local that has no layout.
pub open spec fn unit_layouts(bodies: Seq<TirBody>, dl: TargetDataLayout) -> Result<Seq<Seq<TyAndLayout>>, CodegenError>
    decreases bodies.len(),
{
    if bodies.len() == 0 {
        Ok(Seq::empty())
    } else {
        match unit_layouts(bodies.drop_last(), dl) {
            Err(e) => Err(e),
            Ok(s) => match layouts_of(local_tys(bodies.last()), dl) {
                Err(e) => Err(CodegenError::Layout(DefId((bodies.len() - 1) as usize), e)),
                Ok(l) => Ok(s.push(l)),
            },
        }
    }
}

/// What the backend receives for `unit` on a target with backend `backend`.
pub open spec fn codegen_plan(unit: TirUnit, backend: BackendKind, dl: TargetDataLayout) -> Result<Seq<Seq<TyAndLayout>>, CodegenError> {
    match backend {
        BackendKind::Llvm => unit_layouts(unit.bodies@, dl),
        _ => Err(CodegenError::UnsupportedBackend(backend)),
    }
}

/// The views of nested vectors.
pub open spec fn views(v: Seq<Vec<TyAndLayout>>) -> Seq<Seq<TyAndLayout>> {
    v.map_values(|b: Vec<TyAndLayout>| b@)
}

/// The layouts of the locals of `body`, in local order.
fn body_layouts(ctx: &TirCtx, body: &TirBody) -> (r: Result<Vec<TyAndLayout>, LayoutError>)
    ensures
        match (r, layouts_of(local_tys(*body), ctx.target_spec().data_layout)) {
            (Ok(v), Ok(s)) => v@ == s,
            (Err(e), Err(f)) => e == f,
            _ => false,
        },
{
    let ghost dl = ctx.target_spec().data_layout;
    let ghost tys = local_tys(*body);
    let na = body.ret_and_args.len();
    let nl = body.locals.len();
    let mut out: Vec<TyAndLayout> = Vec::new();
    let mut k: usize = 0;
    while k < na
        invariant
            na == body.ret_and_args@.len(),
            nl == body.locals@.len(),
            tys == local_tys(*body),
            dl == ctx.target_spec().data_layout,
            k <= na,
            layouts_of(tys.subrange(0, k as int), dl) == Ok::<Seq<TyAndLayout>, LayoutError>(out@),
        decreases na - k,
    {
        let ty = body.ret_and_args[Local(k)].ty;
        proof {
            assert(tys.subrange(0, k as int + 1).drop_last() =~= tys.subrange(0, k as int));
            assert(tys[k as int] == ty);
        }
        match ctx.layout_of(ty) {
            Ok(l) => out.push(l),
            Err(e) => {
                proof { lemma_layouts_of_err_prefix(tys, k as int + 1, dl); }
                return Err(e);
            },
        }
        k = k + 1;
    }
    let mut j: usize = 0;
    while j < nl
        invariant
            na == body.ret_and_args@.len(),
            nl == body.locals@.len(),
            tys == local_tys(*body),
            tys.len() == na + nl,
            dl == ctx.target_spec().data_layout,
            j <= nl,
            layouts_of(tys.subrange(0, na + j), dl) == Ok::<Seq<TyAndLayout>, LayoutError>(out@),
        decreases nl - j,
    {
        let ty = body.locals[Local(j)].ty;
        proof {
            assert(tys.subrange(0, na + j + 1).drop_last() =~= tys.subrange(0, na + j));
            assert(tys[na + j] == ty);
        }
        match ctx.layout_of(ty) {
            Ok(l) => out.push(l),
            Err(e) => {
                proof { lemma_layouts_of_err_prefix(tys, na + j + 1, dl); }
                return Err(e);
            },
        }
        j = j + 1;
    }
    proof {
        assert(tys.subrange(0, na + nl) =~= tys);
    }
    Ok(out)
}

/// When a prefix of `tys` already fails, all of `tys` fails with that error.
proof fn lemma_layouts_of_err_prefix(tys: Seq<TirTy>, n: int, dl: TargetDataLayout)
    requires
        0 <= n <= tys.len(),
        layouts_of(tys.subrange(0, n), dl) is Err,
    ensures
        layouts_of(tys, dl) == layouts_of(tys.subrange(0, n), dl),
    decreases tys.len() - n,
{
    if n < tys.len() {
        assert(tys.subrange(0, n + 1).drop_last() =~= tys.subrange(0, n));
        lemma_layouts_of_err_prefix(tys, n + 1, dl);
    } else {
        assert(tys.subrange(0, n) =~= tys);
    }
}

/// When a prefix of `bodies` already fails, all of `bodies` fails with that error.
proof fn lemma_unit_layouts_err_prefix(bodies: Seq<TirBody>, n: int, dl: TargetDataLayout)
    requires
        0 <= n <= bodies.len(),
        unit_layouts(bodies.subrange(0, n), dl) is Err,
    ensures
        unit_layouts(bodies, dl) == unit_layouts(bodies.subrange(0, n), dl),
    decreases bodies.len() - n,
{
    if n < bodies.len() {
        assert(bodies.subrange(0, n + 1).drop_last() =~= bodies.subrange(0, n));
        lemma_unit_layouts_err_prefix(bodies, n + 1, dl);
    } else {
        assert(bodies.subrange(0, n) =~= bodies);
    }
}

/// Hands `unit` to the backend of the context's target: for the LLVM backend,
/// the layouts of every local of every body, in order; an error for a backend
/// without an implementation, or for the first body with a local whose type
/// has no layout.
pub fn codegen_lir_unit(ctx: &TirCtx, unit: &TirUnit) -> (r: Result<Vec<Vec<TyAndLayout>>, CodegenError>)
    ensures
        match (r, codegen_plan(*unit, ctx.target_spec().codegen_backend, ctx.target_spec().data_layout)) {
            (Ok(v), Ok(s)) => views(v@) == s,
            (Err(e), Err(f)) => e == f,
            _ => false,
        },
{
    match ctx.backend_kind() {
        BackendKind::Llvm => {},
        BackendKind::Cranelift => {
            return Err(CodegenError::UnsupportedBackend(BackendKind::Cranelift));
        },
        BackendKind::Gcc => {
            return Err(CodegenError::UnsupportedBackend(BackendKind::Gcc));
        },
    }
    let ghost dl = ctx.target_spec().data_layout;
    let ghost bodies = unit.bodies@;
    let n = unit.bodies.len();
    let mut out: Vec<Vec<TyAndLayout>> = Vec::new();
    proof {
        assert(views(out@) =~= Seq::<Seq<TyAndLayout>>::empty());
        assert(bodies.subrange(0, 0).len() == 0);
    }
    let mut k: usize = 0;
    while k < n
        invariant
            n == bodies.len(),
            bodies == unit.bodies@,
            dl == ctx.target_spec().data_layout,
            ctx.target_spec().codegen_backend == BackendKind::Llvm,
            k <= n,
            unit_layouts(bodies.subrange(0, k as int), dl) == Ok::<Seq<Seq<TyAndLayout>>, CodegenError>(views(out@)),
        decreases n - k,
    {
        let body = &unit.bodies[DefId(k)];
        proof {
            assert(bodies.subrange(0, k as int + 1).drop_last() =~= bodies.subrange(0, k as int));
            assert(bodies.subrange(0, k as int + 1).last() == *body);
        }
        match body_layouts(ctx, body) {
            Ok(v) => {
                let ghost prev = out@;
                out.push(v);
                proof {
                    assert(views(out@) =~= views(prev).push(v@));
                }
            },
            Err(e) => {
                proof {
                    let sub = bodies.subrange(0, k as int + 1);
                    assert(sub.len() - 1 == k);
                    assert(unit_layouts(sub, dl) == Err::<Seq<Seq<TyAndLayout>>, CodegenError>(
                        CodegenError::Layout(DefId(k), e),
                    ));
                    lemma_unit_layouts_err_prefix(bodies, k as int + 1, dl);
                }
                return Err(CodegenError::Layout(DefId(k), e));
            },
        }
        k = k + 1;
    }
    proof {
        assert(bodies.subrange(0, n as int) =~= bodies);
    }
    Ok(out)
}

} // verus!
