//! Layout computation against the target of a context.

use vstd::prelude::*;

use crate::ctx::TirCtx;
use crate::layout::{
    layout_of_ty, scalar_layout, LayoutData, LayoutError, Primitive, TyAndLayout,
};
use crate::tir::TirTy;

verus! {

/// Computes layouts for the target of a `TirCtx`.
pub struct LayoutCtx<'a> {
    tir_ctx: &'a TirCtx,
}

impl<'a> LayoutCtx<'a> {
    pub closed spec fn ctx(&self) -> &'a TirCtx {
        self.tir_ctx
    }

    pub fn new(tir_ctx: &'a TirCtx) -> (r: Self)
        ensures
            r.ctx() == tir_ctx,
    {
        LayoutCtx { tir_ctx }
    }

    /// The size, alignment and representation of `ty` on the context's
    /// target; `Metadata` has none and yields the unsupported outcome. The
    /// result depends on `ty` and the target's data layout alone.
    pub fn compute_layout(&self, ty: TirTy) -> (r: Result<TyAndLayout, LayoutError>)
        ensures
            r == layout_of_ty(ty, self.ctx().target_spec().data_layout),
    {
        let data_layout = &self.tir_ctx.target().data_layout;
        let primitive = match ty {
            TirTy::I8 => Primitive::I8,
            TirTy::I16 => Primitive::I16,
            TirTy::I32 => Primitive::I32,
            TirTy::I64 => Primitive::I64,
            TirTy::I128 => Primitive::I128,
            TirTy::U8 => Primitive::U8,
            TirTy::U16 => Primitive::U16,
            TirTy::U32 => Primitive::U32,
            TirTy::U64 => Primitive::U64,
            TirTy::U128 => Primitive::U128,
            TirTy::F16 => Primitive::F16,
            TirTy::F32 => Primitive::F32,
            TirTy::F64 => Primitive::F64,
            TirTy::F128 => Primitive::F128,
            TirTy::Metadata => {
                return Err(LayoutError::Unsupported(ty));
            },
        };
        let layout: LayoutData = scalar_layout(primitive, data_layout);
        Ok(TyAndLayout { ty, layout })
    }
}

} // verus!
