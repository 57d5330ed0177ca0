use tidec::codegen::{codegen_lir_unit, CodegenError};
use tidec::ctx::{EmitKind, InternCtx, TirArena, TirArgs, TirCtx};
use tidec::idx::Idx;
use tidec::index_vec::IdxVec;
use tidec::layout::{BackendKind, LayoutError, TargetDataLayout, TirTarget};
use tidec::tir::{
    BasicBlockData, BinaryOp, CallConv, CallConvUtils, ConstOperand, ConstScalar, ConstValue,
    DefId, Linkage, Local, LocalData, Operand, Place, Projection, RValue, RawScalarValue,
    Statement, Terminator, TirBody, TirBodyKind, TirBodyMetadata, TirItemKind, TirTy, TirUnit,
    TirUnitMetadata, UnnamedAddress, Visibility, RETURN_LOCAL,
};
use tidec::validate::{validate_body, validate_unit};
use tidec::visitor::{Entered, Hook, Visitor};
use vstd::seq::Seq;

fn metadata(id: usize, name: &str) -> TirBodyMetadata {
    TirBodyMetadata {
        def_id: DefId(id),
        name: name.to_string(),
        kind: TirBodyKind::Item(TirItemKind::Function),
        inlined: false,
        linkage: Linkage::External,
        visibility: Visibility::Default,
        unnamed_address: UnnamedAddress::Significant,
        call_conv: CallConv::C,
    }
}

fn const_i32(v: u128) -> Operand {
    Operand::Const(ConstOperand::Value(
        ConstValue::Scalar(ConstScalar::Value(RawScalarValue { data: v, size: 4 })),
        TirTy::I32,
    ))
}

fn return_place() -> Place {
    Place { local: Local(RETURN_LOCAL), projection: vec![] }
}

fn return_seven_unit() -> TirUnit {
    let body = TirBody {
        metadata: metadata(0, "main"),
        ret_and_args: IdxVec::from_raw(vec![LocalData { ty: TirTy::I32, mutable: false }]),
        locals: IdxVec::new(),
        basic_blocks: IdxVec::from_raw(vec![BasicBlockData {
            statements: vec![Statement::Assign(Box::new((
                return_place(),
                RValue::Operand(const_i32(7)),
            )))],
            terminator: Terminator::Return,
        }]),
    };
    TirUnit {
        metadata: TirUnitMetadata { unit_name: "main".to_string() },
        bodies: IdxVec::from_raw(vec![body]),
    }
}

fn ctx_with(backend: BackendKind) -> TirCtx {
    TirCtx::new(
        TirTarget::new(TargetDataLayout::default(), backend),
        TirArgs { emit_kind: EmitKind::Object },
        InternCtx::new(TirArena::default()),
    )
}

/// A unit of `n` bodies, each of `m` blocks of `k` statements.
fn grid_unit(n: usize, m: usize, k: usize) -> TirUnit {
    let mut bodies = IdxVec::new();
    for b in 0..n {
        let mut blocks = IdxVec::new();
        for _ in 0..m {
            let mut statements = Vec::new();
            for s in 0..k {
                statements.push(Statement::Assign(Box::new((
                    return_place(),
                    RValue::BinaryOp(BinaryOp::Add, const_i32(s as u128), const_i32(1)),
                ))));
            }
            blocks.push(BasicBlockData { statements, terminator: Terminator::Return });
        }
        let body = TirBody {
            metadata: metadata(b, "f"),
            ret_and_args: IdxVec::from_raw(vec![LocalData { ty: TirTy::I32, mutable: true }]),
            locals: IdxVec::new(),
            basic_blocks: blocks,
        };
        let _: DefId = bodies.push(body);
    }
    TirUnit { metadata: TirUnitMetadata { unit_name: "grid".to_string() }, bodies }
}

#[derive(Default)]
struct Counter {
    statements: usize,
    terminators: usize,
    operands: usize,
    places: usize,
    order: Vec<(usize, u128)>,
    block: usize,
}

impl<'tir> Visitor<'tir> for Counter {
    fn trace(&self) -> Seq<Hook> {
        Seq::empty()
    }

    fn descends() -> bool {
        false
    }

    fn note(&mut self, _entered: Entered) {}

    fn visit_basic_block(&mut self, block: &'tir BasicBlockData) {
        self.block += 1;
        self.super_basic_block(block);
    }

    fn visit_statement(&mut self, statement: &'tir Statement) {
        self.statements += 1;
        let Statement::Assign(assign) = statement;
        if let RValue::BinaryOp(_, Operand::Const(ConstOperand::Value(ConstValue::Scalar(ConstScalar::Value(v)), _)), _) = &assign.1 {
            self.order.push((self.block, v.data));
        }
        self.super_statement(statement);
    }

    fn visit_terminator(&mut self, terminator: &'tir Terminator) {
        self.terminators += 1;
        self.super_terminator(terminator);
    }

    fn visit_operand(&mut self, operand: &'tir Operand) {
        self.operands += 1;
        self.super_operand(operand);
    }

    fn visit_place(&mut self, place: &'tir Place) {
        self.places += 1;
        self.super_place(place);
    }
}

struct SkipBodies {
    statements: usize,
}

impl<'tir> Visitor<'tir> for SkipBodies {
    fn trace(&self) -> Seq<Hook> {
        Seq::empty()
    }

    fn descends() -> bool {
        false
    }

    fn note(&mut self, _entered: Entered) {}

    fn visit_body(&mut self, _body: &'tir TirBody) {}

    fn visit_statement(&mut self, _statement: &'tir Statement) {
        self.statements += 1;
    }
}

#[test]
fn visitor_hooks_fire_once_per_node_in_order() {
    let unit = grid_unit(3, 4, 5);
    let mut counter = Counter::default();
    counter.visit_unit(&unit);
    assert_eq!(counter.statements, 3 * 4 * 5);
    assert_eq!(counter.terminators, 3 * 4);
    assert_eq!(counter.operands, 3 * 4 * 5 * 2);
    assert_eq!(counter.places, 3 * 4 * 5);
    let mut expected = Vec::new();
    for block in 1..=12 {
        for s in 0..5u128 {
            expected.push((block, s));
        }
    }
    assert_eq!(counter.order, expected);
}

#[test]
fn visitor_override_without_descent_skips_subtree() {
    let unit = grid_unit(2, 2, 2);
    let mut skip = SkipBodies { statements: 0 };
    skip.visit_unit(&unit);
    assert_eq!(skip.statements, 0);
}

#[test]
fn visitor_on_empty_unit_fires_nothing() {
    let unit = grid_unit(0, 3, 3);
    let mut counter = Counter::default();
    counter.visit_unit(&unit);
    assert_eq!((counter.statements, counter.terminators), (0, 0));
}

#[test]
fn return_seven_end_to_end() {
    let unit = return_seven_unit();
    assert!(validate_unit(&unit));
    let ctx = ctx_with(BackendKind::Llvm);
    let plan = codegen_lir_unit(&ctx, &unit).unwrap();
    assert_eq!(plan.len(), 1);
    assert_eq!(plan[0].len(), 1);
    let ret = plan[0][0];
    assert_eq!(ret.ty, TirTy::I32);
    assert_eq!(ret.layout.size.bytes(), 4);
    assert_eq!(ret.layout.align.abi.bytes(), 4);
    let Statement::Assign(assign) = &unit.bodies[DefId(0)].basic_blocks.raw[0].statements[0];
    assert_eq!(assign.0.local, Local(RETURN_LOCAL));
    assert_eq!(assign.1, RValue::Operand(const_i32(7)));
}

#[test]
fn codegen_rejects_backends_without_implementation() {
    let unit = return_seven_unit();
    assert_eq!(
        codegen_lir_unit(&ctx_with(BackendKind::Cranelift), &unit),
        Err(CodegenError::UnsupportedBackend(BackendKind::Cranelift))
    );
    assert_eq!(
        codegen_lir_unit(&ctx_with(BackendKind::Gcc), &unit),
        Err(CodegenError::UnsupportedBackend(BackendKind::Gcc))
    );
}

#[test]
fn codegen_reports_first_local_without_layout() {
    let mut unit = grid_unit(3, 1, 1);
    unit.bodies.raw[1].locals.push(LocalData { ty: TirTy::U8, mutable: true });
    unit.bodies.raw[1].locals.push(LocalData { ty: TirTy::Metadata, mutable: false });
    unit.bodies.raw[2].locals.push(LocalData { ty: TirTy::Metadata, mutable: false });
    assert_eq!(
        codegen_lir_unit(&ctx_with(BackendKind::Llvm), &unit),
        Err(CodegenError::Layout(DefId(1), LayoutError::Unsupported(TirTy::Metadata)))
    );
}

#[test]
fn codegen_lays_out_args_then_locals() {
    let mut unit = grid_unit(1, 1, 0);
    unit.bodies.raw[0].ret_and_args.push(LocalData { ty: TirTy::I64, mutable: false });
    unit.bodies.raw[0].locals.push(LocalData { ty: TirTy::U8, mutable: true });
    let plan = codegen_lir_unit(&ctx_with(BackendKind::Llvm), &unit).unwrap();
    let sizes: Vec<u64> = plan[0].iter().map(|l| l.layout.size.bytes()).collect();
    assert_eq!(sizes, vec![4, 8, 1]);
}

#[test]
fn validation_rejects_dangling_locals() {
    let mut unit = return_seven_unit();
    assert!(validate_body(&unit.bodies[DefId(0)]));
    unit.bodies.raw[0].basic_blocks.raw[0].statements.push(Statement::Assign(Box::new((
        Place { local: Local(0), projection: vec![Projection::Deref, Projection::Index(Local(1))] },
        RValue::UnaryOp(tidec::tir::UnaryOp::Neg, Operand::Use(return_place())),
    ))));
    assert!(!validate_body(&unit.bodies[DefId(0)]));
    assert!(!validate_unit(&unit));
    unit.bodies.raw[0].locals.push(LocalData { ty: TirTy::I32, mutable: true });
    assert!(validate_unit(&unit));
}

#[test]
fn validation_requires_return_slot() {
    let mut unit = return_seven_unit();
    unit.bodies.raw[0].ret_and_args = IdxVec::new();
    assert!(!validate_unit(&unit));
}

#[test]
fn call_conv_codes() {
    assert_eq!(CallConv::C.into_call_conv(), 0);
    assert_eq!(CallConv::Fast.into_call_conv(), 8);
    assert_eq!(CallConv::Cold.into_call_conv(), 9);
}

#[test]
fn local_index_type_roundtrip() {
    let mut l = Local::new(3);
    l.incr();
    l.incr_by(2);
    assert_eq!(l.idx(), 6);
}
