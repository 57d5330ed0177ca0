use tidec::ctx::{InternCtx, TirArena, TirArgs, TirCtx, EmitKind};
use tidec::layout::{
    scalar_layout, AbiAndPrefAlign, AddressSpace, Align, BackendKind, BackendRepr, LayoutError,
    PointerSpec, Primitive, Size, TargetDataLayout, TirTarget,
};
use tidec::layout_ctx::LayoutCtx;
use tidec::tir::TirTy;

fn ctx_for(dl: TargetDataLayout) -> TirCtx {
    TirCtx::new(
        TirTarget::new(dl, BackendKind::Llvm),
        TirArgs { emit_kind: EmitKind::Object },
        InternCtx::new(TirArena::default()),
    )
}

#[test]
fn standard_integer_layouts() {
    let ctx = ctx_for(TargetDataLayout::default());
    let lc = LayoutCtx::new(&ctx);
    let i8l = lc.compute_layout(TirTy::I8).unwrap();
    assert_eq!((i8l.layout.size.bytes(), i8l.layout.align.abi.bytes()), (1, 1));
    let i32l = lc.compute_layout(TirTy::I32).unwrap();
    assert_eq!((i32l.layout.size.bytes(), i32l.layout.align.abi.bytes()), (4, 4));
    let i64l = lc.compute_layout(TirTy::I64).unwrap();
    assert_eq!((i64l.layout.size.bytes(), i64l.layout.align.abi.bytes()), (8, 8));
    assert_eq!(i32l.ty, TirTy::I32);
    assert_eq!(i32l.layout.backend_repr, BackendRepr::Scalar(Primitive::I32));
}

#[test]
fn pointer_layout_follows_target_rule() {
    let dl = TargetDataLayout::default();
    let p = scalar_layout(Primitive::Pointer(AddressSpace(0)), &dl);
    assert_eq!(p.size, Size::from_bytes(8));
    assert_eq!(p.align.abi, Align::from_bytes(8));

    let mut dl32 = TargetDataLayout::default();
    dl32.pointer_size = Size::from_bytes(4);
    dl32.pointer_align = AbiAndPrefAlign::new(4);
    let p32 = scalar_layout(Primitive::Pointer(AddressSpace(0)), &dl32);
    assert_eq!(p32.size.bytes(), 4);
    assert_eq!(p32.align.pref.bytes(), 4);
    assert_eq!(p32.backend_repr, BackendRepr::Scalar(Primitive::Pointer(AddressSpace(0))));
}

#[test]
fn every_width_class_uses_its_table_entry() {
    let mut dl = TargetDataLayout::default();
    dl.int64_align = AbiAndPrefAlign { abi: Align::from_bytes(4), pref: Align::from_bytes(8) };
    dl.float16_align = AbiAndPrefAlign::new(1);
    let ctx = ctx_for(dl);
    let u64l = ctx.layout_of(TirTy::U64).unwrap().layout;
    assert_eq!(u64l.size.bytes(), 8);
    assert_eq!(u64l.align.abi.bytes(), 4);
    assert_eq!(u64l.align.pref.bytes(), 8);
    let f16l = ctx.layout_of(TirTy::F16).unwrap().layout;
    assert_eq!((f16l.size.bytes(), f16l.align.abi.bytes()), (2, 1));
    let u128l = ctx.layout_of(TirTy::U128).unwrap().layout;
    assert_eq!((u128l.size.bytes(), u128l.align.abi.bytes()), (16, 16));
    let f64l = ctx.layout_of(TirTy::F64).unwrap().layout;
    assert_eq!(f64l.backend_repr, BackendRepr::Scalar(Primitive::F64));
}

#[test]
fn metadata_layout_is_unsupported() {
    let ctx = ctx_for(TargetDataLayout::default());
    let lc = LayoutCtx::new(&ctx);
    assert_eq!(lc.compute_layout(TirTy::Metadata), Err(LayoutError::Unsupported(TirTy::Metadata)));
    assert_eq!(ctx.layout_of(TirTy::Metadata), Err(LayoutError::Unsupported(TirTy::Metadata)));
}

#[test]
fn layout_is_deterministic() {
    let ctx = ctx_for(TargetDataLayout::default());
    let other = ctx_for(TargetDataLayout::default());
    let tys = [
        TirTy::I8, TirTy::I16, TirTy::I32, TirTy::I64, TirTy::I128, TirTy::U8, TirTy::U16,
        TirTy::U32, TirTy::U64, TirTy::U128, TirTy::F16, TirTy::F32, TirTy::F64, TirTy::F128,
        TirTy::Metadata,
    ];
    for ty in tys {
        let a = LayoutCtx::new(&ctx).compute_layout(ty);
        let b = LayoutCtx::new(&ctx).compute_layout(ty);
        let c = LayoutCtx::new(&other).compute_layout(ty);
        assert_eq!(a, b);
        assert_eq!(a, c);
    }
}

#[test]
fn size_from_bits_rounds_up() {
    assert_eq!(Size::from_bits(32).bytes(), 4);
    assert_eq!(Size::from_bits(1).bytes(), 1);
    assert_eq!(Size::from_bits(9).bytes(), 2);
    assert_eq!(Size::from_bits(0).bytes(), 0);
}

#[test]
fn context_accessors() {
    let ctx = ctx_for(TargetDataLayout::default());
    assert_eq!(*ctx.backend_kind(), BackendKind::Llvm);
    assert_eq!(*ctx.emit_kind(), EmitKind::Object);
    assert_eq!(ctx.target().data_layout, TargetDataLayout::default());
    assert_eq!(ctx.target().data_layout.pointer_size(AddressSpace(0)), Size::from_bytes(8));
    assert_eq!(ctx.target().data_layout.pointer_align(AddressSpace(1)), AbiAndPrefAlign::new(8));
}

#[test]
fn pointer_rules_per_address_space() {
    let mut dl = TargetDataLayout::default();
    dl.pointer_spaces.push(PointerSpec {
        address_space: AddressSpace(1),
        size: Size::from_bytes(4),
        align: AbiAndPrefAlign::new(4),
    });
    dl.pointer_spaces.push(PointerSpec {
        address_space: AddressSpace(1),
        size: Size::from_bytes(2),
        align: AbiAndPrefAlign::new(2),
    });
    let space_one = scalar_layout(Primitive::Pointer(AddressSpace(1)), &dl);
    assert_eq!((space_one.size.bytes(), space_one.align.abi.bytes()), (4, 4));
    let space_zero = scalar_layout(Primitive::Pointer(AddressSpace(0)), &dl);
    assert_eq!((space_zero.size.bytes(), space_zero.align.abi.bytes()), (8, 8));
    assert_eq!(dl.pointer_size(AddressSpace(7)), Size::from_bytes(8));
    assert_eq!(dl.pointer_align(AddressSpace(1)), AbiAndPrefAlign::new(4));
}
