//! The explicit well-formedness check of the IR: every place refers to a
//! declared local of its body, and every body has a return slot.

use vstd::prelude::*;

use crate::tir::{
    BasicBlock, BasicBlockData, DefId, Local, Operand, Place, Projection, RValue, Statement,
    TirBody, TirUnit,
};

verus! {

/// `l` is one of the `n_ret_and_args + n_locals` locals of a body.
pub open spec fn local_ok(l: Local, n_ret_and_args: int, n_locals: int) -> bool {
    l.0 < n_ret_and_args + n_locals
}

pub open spec fn projection_ok(p: Projection, na: int, nl: int) -> bool {
    match p {
        Projection::Index(l) => local_ok(l, na, nl),
        _ => true,
    }
}

pub open spec fn place_ok(p: Place, na: int, nl: int) -> bool {
    &&& local_ok(p.local, na, nl)
    &&& forall|k: int| 0 <= k < p.projection@.len() ==> projection_ok(#[trigger] p.projection@[k], na, nl)
}

pub open spec fn operand_ok(o: Operand, na: int, nl: int) -> bool {
    match o {
        Operand::Use(p) => place_ok(p, na, nl),
        Operand::Const(_) => true,
    }
}

pub open spec fn rvalue_ok(rv: RValue, na: int, nl: int) -> bool {
    match rv {
        RValue::Operand(o) => operand_ok(o, na, nl),
        RValue::UnaryOp(_, o) => operand_ok(o, na, nl),
        RValue::BinaryOp(_, a, b) => operand_ok(a, na, nl) && operand_ok(b, na, nl),
    }
}

pub open spec fn statement_ok(s: Statement, na: int, nl: int) -> bool {
    match s {
        Statement::Assign(assign) => place_ok(assign.0, na, nl) && rvalue_ok(assign.1, na, nl),
    }
}

pub open spec fn block_ok(b: BasicBlockData, na: int, nl: int) -> bool {
    forall|k: int| 0 <= k < b.statements@.len() ==> statement_ok(#[trigger] b.statements@[k], na, nl)
}

/// A body is well formed when it has a return slot and all its places name
/// its locals.
pub open spec fn body_wf(body: TirBody) -> bool {
    let na = body.ret_and_args@.len() as int;
    let nl = body.locals@.len() as int;
    &&& na > 0
    &&& forall|k: int|
        0 <= k < body.basic_blocks@.len() ==> block_ok(#[trigger] body.basic_blocks@[k], na, nl)
}

/// Every body of the unit is well formed.
pub open spec fn unit_wf(unit: TirUnit) -> bool {
    forall|k: int| 0 <= k < unit.bodies@.len() ==> body_wf(#[trigger] unit.bodies@[k])
}

fn check_local(l: Local, na: usize, nl: usize) -> (r: bool)
    ensures
        r == local_ok(l, na as int, nl as int),
{
    l.0 < na || l.0 - na < nl
}

fn check_place(p: &Place, na: usize, nl: usize) -> (r: bool)
    ensures
        r == place_ok(*p, na as int, nl as int),
{
    if !check_local(p.local, na, nl) {
        return false;
    }
    let mut k: usize = 0;
    while k < p.projection.len()
        invariant
            k <= p.projection@.len(),
            forall|j: int| 0 <= j < k ==> projection_ok(#[trigger] p.projection@[j], na as int, nl as int),
        decreases p.projection@.len() - k,
    {
        let ok = match p.projection[k] {
            Projection::Index(l) => check_local(l, na, nl),
            _ => true,
        };
        if !ok {
            return false;
        }
        k = k + 1;
    }
    true
}

fn check_operand(o: &Operand, na: usize, nl: usize) -> (r: bool)
    ensures
        r == operand_ok(*o, na as int, nl as int),
{
    match o {
        Operand::Use(p) => check_place(p, na, nl),
        Operand::Const(_) => true,
    }
}

fn check_rvalue(rv: &RValue, na: usize, nl: usize) -> (r: bool)
    ensures
        r == rvalue_ok(*rv, na as int, nl as int),
{
    match rv {
        RValue::Operand(o) => check_operand(o, na, nl),
        RValue::UnaryOp(_, o) => check_operand(o, na, nl),
        RValue::BinaryOp(_, a, b) => check_operand(a, na, nl) && check_operand(b, na, nl),
    }
}

fn check_block(b: &BasicBlockData, na: usize, nl: usize) -> (r: bool)
    ensures
        r == block_ok(*b, na as int, nl as int),
{
    let mut k: usize = 0;
    while k < b.statements.len()
        invariant
            k <= b.statements@.len(),
            forall|j: int| 0 <= j < k ==> statement_ok(#[trigger] b.statements@[j], na as int, nl as int),
        decreases b.statements@.len() - k,
    {
        let ok = match &b.statements[k] {
            Statement::Assign(assign) => check_place(&assign.0, na, nl) && check_rvalue(&assign.1, na, nl),
        };
        if !ok {
            return false;
        }
        k = k + 1;
    }
    true
}

/// Checks that `body` has a return slot and that all its places name its locals.
pub fn validate_body(body: &TirBody) -> (r: bool)
    ensures
        r == body_wf(*body),
{
    let na = body.ret_and_args.len();
    let nl = body.locals.len();
    if na == 0 {
        return false;
    }
    let mut k: usize = 0;
    while k < body.basic_blocks.len()
        invariant
            na == body.ret_and_args@.len(),
            nl == body.locals@.len(),
            k <= body.basic_blocks@.len(),
            forall|j: int| 0 <= j < k ==> block_ok(#[trigger] body.basic_blocks@[j], na as int, nl as int),
        decreases body.basic_blocks@.len() - k,
    {
        if !check_block(&body.basic_blocks[BasicBlock(k)], na, nl) {
            return false;
        }
        k = k + 1;
    }
    true
}

/// Checks every body of `unit`.
pub fn validate_unit(unit: &TirUnit) -> (r: bool)
    ensures
        r == unit_wf(*unit),
{
    let mut k: usize = 0;
    while k < unit.bodies.len()
        invariant
            k <= unit.bodies@.len(),
            forall|j: int| 0 <= j < k ==> body_wf(#[trigger] unit.bodies@[j]),
        decreases unit.bodies@.len() - k,
    {
        if !validate_body(&unit.bodies[DefId(k)]) {
            return false;
        }
        k = k + 1;
    }
    true
}

} // verus!
