//! Read-only traversal of the IR. Each `visit_*` hook records that it was
//! entered and by default descends through its `super_*` counterpart; a pass
//! overrides the hooks it cares about, and an override that does not call the
//! descent skips that subtree.
//!
//! The contracts speak of a visitor's trace: the hooks entered so far, in
//! order. Every hook call adds one segment to it, which begins with that
//! hook's own entry; a descent adds one segment per child, in declaration
//! order.

use vstd::prelude::*;

use crate::tir::{
    BasicBlock, BasicBlockData, DefId, Operand, Place, RValue, Statement, Terminator, TirBody,
    TirUnit,
};

verus! {

/// The entry of a hook, with the node it was called on.
pub enum Hook {
    Unit(TirUnit),
    Body(TirBody),
    BasicBlock(BasicBlockData),
    Statement(Statement),
    RValue(RValue),
    Operand(Operand),
    Place(Place),
    Terminator(Terminator),
}

/// The record of one hook entry, handed to `Visitor::note`.
pub struct Entered {
    pub hook: Ghost<Hook>,
}

/// The segments `segs`, one after another.
pub open spec fn joined(segs: Seq<Seq<Hook>>) -> Seq<Hook>
    decreases segs.len(),
{
    if segs.len() == 0 {
        Seq::empty()
    } else {
        joined(segs.drop_last()) + segs.last()
    }
}

/// The hooks that the descent of the node of `h` calls, in order.
pub open spec fn heads_of(h: Hook) -> Seq<Hook> {
    match h {
        Hook::Unit(u) => unit_heads(u),
        Hook::Body(b) => body_heads(b),
        Hook::BasicBlock(b) => block_heads(b),
        Hook::Statement(s) => statement_heads(s),
        Hook::RValue(r) => rvalue_heads(r),
        Hook::Operand(o) => operand_heads(o),
        Hook::Place(_) => seq![],
        Hook::Terminator(_) => seq![],
    }
}

/// `seg` is what one call of the hook `h` adds to a trace: its own entry,
/// then either nothing (an override that skips the descent) or exactly one
/// well-formed segment per child of its node, in order.
pub open spec fn seg_ok(h: Hook, seg: Seq<Hook>) -> bool
    decreases seg.len(),
{
    &&& seg.len() > 0
    &&& seg[0] == h
    &&& seg.len() == 1 || exists|segs: Seq<Seq<Hook>>|
        segs.len() == heads_of(h).len() && seg.drop_first() == joined(segs) && forall|i: int|
            0 <= i < segs.len() ==> (#[trigger] segs[i]).len() < seg.len() && seg_ok(
                heads_of(h)[i],
                segs[i],
            )
}

/// `after` is `before` followed by exactly one well-formed segment per entry
/// of `heads`, in order.
pub open spec fn children(before: Seq<Hook>, after: Seq<Hook>, heads: Seq<Hook>) -> bool {
    exists|segs: Seq<Seq<Hook>>|
        segs.len() == heads.len() && after == before + joined(segs) && forall|i: int|
            0 <= i < segs.len() ==> seg_ok(heads[i], #[trigger] segs[i])
}

/// The hooks a unit's descent calls: one per body, in order.
pub open spec fn unit_heads(unit: TirUnit) -> Seq<Hook> {
    unit.bodies@.map_values(|b: TirBody| Hook::Body(b))
}

/// The hooks a body's descent calls: one per basic block, in order.
pub open spec fn body_heads(body: TirBody) -> Seq<Hook> {
    body.basic_blocks@.map_values(|b: BasicBlockData| Hook::BasicBlock(b))
}

/// The hooks a block's descent calls: one per statement, in order, then the
/// terminator's.
pub open spec fn block_heads(block: BasicBlockData) -> Seq<Hook> {
    block.statements@.map_values(|s: Statement| Hook::Statement(s)).push(
        Hook::Terminator(block.terminator),
    )
}

/// The hooks a statement's descent calls: the assigned place's, then the
/// assigned value's.
pub open spec fn statement_heads(statement: Statement) -> Seq<Hook> {
    match statement {
        Statement::Assign(assign) => seq![Hook::Place(assign.0), Hook::RValue(assign.1)],
    }
}

/// The hooks an rvalue's descent calls: one per operand, in order.
pub open spec fn rvalue_heads(rvalue: RValue) -> Seq<Hook> {
    match rvalue {
        RValue::Operand(o) => seq![Hook::Operand(o)],
        RValue::UnaryOp(_, o) => seq![Hook::Operand(o)],
        RValue::BinaryOp(_, lhs, rhs) => seq![Hook::Operand(lhs), Hook::Operand(rhs)],
    }
}

/// The hooks an operand's descent calls: the place it reads, if any.
pub open spec fn operand_heads(operand: Operand) -> Seq<Hook> {
    match operand {
        Operand::Use(p) => seq![Hook::Place(p)],
        Operand::Const(_) => seq![],
    }
}

/// The trace of a visit of a place.
pub open spec fn full_place(p: Place) -> Seq<Hook> {
    seq![Hook::Place(p)]
}

/// The trace of a visit of a terminator.
pub open spec fn full_terminator(t: Terminator) -> Seq<Hook> {
    seq![Hook::Terminator(t)]
}

/// The trace of the descent of an operand when every hook descends.
pub open spec fn operand_rest(o: Operand) -> Seq<Hook> {
    match o {
        Operand::Use(p) => full_place(p),
        Operand::Const(_) => seq![],
    }
}

/// The trace of a visit of an operand when every hook descends.
pub open spec fn full_operand(o: Operand) -> Seq<Hook> {
    seq![Hook::Operand(o)] + operand_rest(o)
}

/// The trace of the descent of an rvalue when every hook descends.
pub open spec fn rvalue_rest(rv: RValue) -> Seq<Hook> {
    match rv {
        RValue::Operand(o) => full_operand(o),
        RValue::UnaryOp(_, o) => full_operand(o),
        RValue::BinaryOp(_, lhs, rhs) => full_operand(lhs) + full_operand(rhs),
    }
}

/// The trace of a visit of an rvalue when every hook descends.
pub open spec fn full_rvalue(rv: RValue) -> Seq<Hook> {
    seq![Hook::RValue(rv)] + rvalue_rest(rv)
}

/// The trace of the descent of a statement when every hook descends.
pub open spec fn statement_rest(s: Statement) -> Seq<Hook> {
    match s {
        Statement::Assign(assign) => full_place(assign.0) + full_rvalue(assign.1),
    }
}

/// The trace of a visit of a statement when every hook descends.
pub open spec fn full_statement(s: Statement) -> Seq<Hook> {
    seq![Hook::Statement(s)] + statement_rest(s)
}

/// The trace of the descent of a block when every hook descends.
pub open spec fn block_rest(b: BasicBlockData) -> Seq<Hook> {
    joined(b.statements@.map_values(|s: Statement| full_statement(s))) + full_terminator(
        b.terminator,
    )
}

/// The trace of a visit of a block when every hook descends.
pub open spec fn full_block(b: BasicBlockData) -> Seq<Hook> {
    seq![Hook::BasicBlock(b)] + block_rest(b)
}

/// The trace of the descent of a body when every hook descends.
pub open spec fn body_rest(b: TirBody) -> Seq<Hook> {
    joined(b.basic_blocks@.map_values(|bb: BasicBlockData| full_block(bb)))
}

/// The trace of a visit of a body when every hook descends.
pub open spec fn full_body(b: TirBody) -> Seq<Hook> {
    seq![Hook::Body(b)] + body_rest(b)
}

/// The trace of the descent of a unit when every hook descends.
pub open spec fn unit_rest(u: TirUnit) -> Seq<Hook> {
    joined(u.bodies@.map_values(|b: TirBody| full_body(b)))
}

/// The trace of a visit of a unit when every hook descends: the pre-order
/// walk of its tree.
pub open spec fn full_unit(u: TirUnit) -> Seq<Hook> {
    seq![Hook::Unit(u)] + unit_rest(u)
}

/// A segment is no longer than all segments together.
pub proof fn lemma_joined_len(segs: Seq<Seq<Hook>>, i: int)
    requires
        0 <= i < segs.len(),
    ensures
        segs[i].len() <= joined(segs).len(),
    decreases segs.len(),
{
    if i < segs.len() - 1 {
        lemma_joined_len(segs.drop_last(), i);
    }
}

/// A trace has no segments after itself.
pub proof fn lemma_children_none(t: Seq<Hook>)
    ensures
        children(t, t, seq![]),
{
    let segs = Seq::<Seq<Hook>>::empty();
    assert(t + joined(segs) =~= t);
}

/// One more segment, well formed for `h`, extends a run of segments.
pub proof fn lemma_children_step(
    before: Seq<Hook>,
    mid: Seq<Hook>,
    after: Seq<Hook>,
    heads: Seq<Hook>,
    h: Hook,
)
    requires
        children(before, mid, heads),
        children(mid, after, seq![h]),
    ensures
        children(before, after, heads.push(h)),
{
    let segs = choose|segs: Seq<Seq<Hook>>|
        segs.len() == heads.len() && mid == before + joined(segs) && forall|i: int|
            0 <= i < segs.len() ==> seg_ok(heads[i], #[trigger] segs[i]);
    let ones = choose|segs: Seq<Seq<Hook>>|
        segs.len() == 1 && after == mid + joined(segs) && forall|i: int|
            0 <= i < segs.len() ==> seg_ok(seq![h][i], #[trigger] segs[i]);
    assert(ones.drop_last() =~= Seq::<Seq<Hook>>::empty());
    assert(joined(Seq::<Seq<Hook>>::empty()) == Seq::<Hook>::empty());
    assert(joined(ones) =~= ones[0]);
    assert(seg_ok(seq![h][0], ones[0]));
    let more = segs.push(ones[0]);
    assert(more.drop_last() =~= segs);
    assert(after =~= before + joined(more));
    assert forall|i: int| 0 <= i < more.len() implies seg_ok(heads.push(h)[i], #[trigger] more[i]) by {
        if i < segs.len() {
            assert(more[i] == segs[i]);
        }
    }
}

/// An entry followed by one well-formed segment per child of its node is one
/// well-formed segment for that entry.
pub proof fn lemma_children_enter(before: Seq<Hook>, after: Seq<Hook>, h: Hook)
    requires
        children(before.push(h), after, heads_of(h)),
    ensures
        children(before, after, seq![h]),
{
    let heads = heads_of(h);
    let segs = choose|segs: Seq<Seq<Hook>>|
        segs.len() == heads.len() && after == before.push(h) + joined(segs) && forall|i: int|
            0 <= i < segs.len() ==> seg_ok(heads[i], #[trigger] segs[i]);
    let seg = seq![h] + joined(segs);
    assert(seg.drop_first() =~= joined(segs));
    assert forall|i: int| 0 <= i < segs.len() implies (#[trigger] segs[i]).len() < seg.len() && seg_ok(
        heads[i],
        segs[i],
    ) by {
        lemma_joined_len(segs, i);
    }
    assert(seg_ok(h, seg));
    let ones = seq![seg];
    assert(ones.drop_last() =~= Seq::<Seq<Hook>>::empty());
    assert(joined(Seq::<Seq<Hook>>::empty()) == Seq::<Hook>::empty());
    assert(joined(ones) =~= seg);
    assert(after =~= before + joined(ones));
    assert(seg_ok(seq![h][0], ones[0]));
}

/// One more child's full trace extends the full traces of the children before it.
pub proof fn lemma_joined_push(t0: Seq<Hook>, fulls: Seq<Seq<Hook>>, i: int, mid: Seq<Hook>, after: Seq<Hook>)
    requires
        0 <= i < fulls.len(),
        mid == t0 + joined(fulls.subrange(0, i)),
        after == mid + fulls[i],
    ensures
        after == t0 + joined(fulls.subrange(0, i + 1)),
{
    assert(fulls.subrange(0, i + 1).drop_last() =~= fulls.subrange(0, i));
    assert(after =~= t0 + joined(fulls.subrange(0, i + 1)));
}

/// The entries of `t` that satisfy `p`.
pub open spec fn count_where(t: Seq<Hook>, p: spec_fn(Hook) -> bool) -> nat
    decreases t.len(),
{
    if t.len() == 0 {
        0
    } else {
        count_where(t.drop_last(), p) + if p(t.last()) {
            1nat
        } else {
            0nat
        }
    }
}

/// Is a statement hook's entry.
pub open spec fn statement_entry() -> spec_fn(Hook) -> bool {
    |h: Hook| h is Statement
}

/// Is a terminator hook's entry.
pub open spec fn terminator_entry() -> spec_fn(Hook) -> bool {
    |h: Hook| h is Terminator
}

proof fn lemma_count_add(a: Seq<Hook>, b: Seq<Hook>, p: spec_fn(Hook) -> bool)
    ensures
        count_where(a + b, p) == count_where(a, p) + count_where(b, p),
    decreases b.len(),
{
    if b.len() == 0 {
        assert(a + b =~= a);
    } else {
        assert((a + b).drop_last() =~= a + b.drop_last());
        lemma_count_add(a, b.drop_last(), p);
    }
}

proof fn lemma_count_one(h: Hook, p: spec_fn(Hook) -> bool)
    ensures
        count_where(seq![h], p) == if p(h) { 1nat } else { 0nat },
{
    assert(seq![h].drop_last() =~= Seq::<Hook>::empty());
    assert(count_where(Seq::<Hook>::empty(), p) == 0);
    assert(seq![h].last() == h);
}

proof fn lemma_count_joined(segs: Seq<Seq<Hook>>, p: spec_fn(Hook) -> bool, c: nat)
    requires
        forall|i: int| 0 <= i < segs.len() ==> count_where(#[trigger] segs[i], p) == c,
    ensures
        count_where(joined(segs), p) == c * segs.len(),
    decreases segs.len(),
{
    if segs.len() > 0 {
        let n = segs.len() - 1;
        lemma_count_joined(segs.drop_last(), p, c);
        lemma_count_add(joined(segs.drop_last()), segs.last(), p);
        assert(count_where(segs[n as int], p) == c);
        assert(c * n + c == c * (n + 1)) by (nonlinear_arith);
    }
}

proof fn lemma_operand_counts(o: Operand, p: spec_fn(Hook) -> bool)
    requires
        p == statement_entry() || p == terminator_entry(),
    ensures
        count_where(full_operand(o), p) == 0,
{
    lemma_count_one(Hook::Operand(o), p);
    lemma_count_add(seq![Hook::Operand(o)], operand_rest(o), p);
    match o {
        Operand::Use(pl) => lemma_count_one(Hook::Place(pl), p),
        Operand::Const(_) => {},
    }
}

proof fn lemma_statement_counts(s: Statement)
    ensures
        count_where(full_statement(s), statement_entry()) == 1,
        count_where(full_statement(s), terminator_entry()) == 0,
{
    let Statement::Assign(assign) = s;
    let (pl, rv) = *assign;
    assert forall|p: spec_fn(Hook) -> bool| p == statement_entry() || p == terminator_entry() implies
        count_where(statement_rest(s), p) == 0 by {
        lemma_count_one(Hook::Place(pl), p);
        lemma_count_one(Hook::RValue(rv), p);
        lemma_count_add(seq![Hook::RValue(rv)], rvalue_rest(rv), p);
        match rv {
            RValue::Operand(o) => lemma_operand_counts(o, p),
            RValue::UnaryOp(_, o) => lemma_operand_counts(o, p),
            RValue::BinaryOp(_, a, b) => {
                lemma_operand_counts(a, p);
                lemma_operand_counts(b, p);
                lemma_count_add(full_operand(a), full_operand(b), p);
            },
        }
        lemma_count_add(full_place(pl), full_rvalue(rv), p);
    }
    lemma_count_one(Hook::Statement(s), statement_entry());
    lemma_count_one(Hook::Statement(s), terminator_entry());
    lemma_count_add(seq![Hook::Statement(s)], statement_rest(s), statement_entry());
    lemma_count_add(seq![Hook::Statement(s)], statement_rest(s), terminator_entry());
}

proof fn lemma_block_counts(b: BasicBlockData)
    ensures
        count_where(full_block(b), statement_entry()) == b.statements@.len(),
        count_where(full_block(b), terminator_entry()) == 1,
{
    let fulls = b.statements@.map_values(|s: Statement| full_statement(s));
    assert forall|i: int| 0 <= i < fulls.len() implies count_where(#[trigger] fulls[i], statement_entry()) == 1
        && count_where(fulls[i], terminator_entry()) == 0 by {
        lemma_statement_counts(b.statements@[i]);
    }
    lemma_count_joined(fulls, statement_entry(), 1);
    lemma_count_joined(fulls, terminator_entry(), 0);
    let t = Hook::Terminator(b.terminator);
    lemma_count_one(t, statement_entry());
    lemma_count_one(t, terminator_entry());
    lemma_count_add(joined(fulls), full_terminator(b.terminator), statement_entry());
    lemma_count_add(joined(fulls), full_terminator(b.terminator), terminator_entry());
    let h = Hook::BasicBlock(b);
    lemma_count_one(h, statement_entry());
    lemma_count_one(h, terminator_entry());
    lemma_count_add(seq![h], block_rest(b), statement_entry());
    lemma_count_add(seq![h], block_rest(b), terminator_entry());
}

proof fn lemma_body_counts(b: TirBody, k: nat)
    requires
        forall|j: int| 0 <= j < b.basic_blocks@.len() ==> (#[trigger] b.basic_blocks@[j]).statements@.len() == k,
    ensures
        count_where(full_body(b), statement_entry()) == k * b.basic_blocks@.len(),
        count_where(full_body(b), terminator_entry()) == b.basic_blocks@.len(),
{
    let fulls = b.basic_blocks@.map_values(|bb: BasicBlockData| full_block(bb));
    assert forall|i: int| 0 <= i < fulls.len() implies count_where(#[trigger] fulls[i], statement_entry()) == k
        && count_where(fulls[i], terminator_entry()) == 1 by {
        lemma_block_counts(b.basic_blocks@[i]);
    }
    lemma_count_joined(fulls, statement_entry(), k);
    lemma_count_joined(fulls, terminator_entry(), 1);
    let h = Hook::Body(b);
    lemma_count_one(h, statement_entry());
    lemma_count_one(h, terminator_entry());
    lemma_count_add(seq![h], body_rest(b), statement_entry());
    lemma_count_add(seq![h], body_rest(b), terminator_entry());
}

/// A visitor whose hooks all descend, run over a unit of `n` bodies of `m`
/// basic blocks of `k` statements each, enters the statement hook exactly
/// `n * m * k` times and the terminator hook exactly `n * m` times: its trace
/// grows by `full_unit(u)`, the pre-order walk of the unit in declaration order.
pub proof fn lemma_visit_counts(u: TirUnit, n: nat, m: nat, k: nat)
    requires
        u.bodies@.len() == n,
        forall|i: int| 0 <= i < n ==> (#[trigger] u.bodies@[i]).basic_blocks@.len() == m,
        forall|i: int, j: int|
            0 <= i < n && 0 <= j < m ==> (#[trigger] u.bodies@[i].basic_blocks@[j]).statements@.len() == k,
    ensures
        count_where(full_unit(u), statement_entry()) == n * m * k,
        count_where(full_unit(u), terminator_entry()) == n * m,
{
    let fulls = u.bodies@.map_values(|b: TirBody| full_body(b));
    assert forall|i: int| 0 <= i < fulls.len() implies count_where(#[trigger] fulls[i], statement_entry()) == k * m
        && count_where(fulls[i], terminator_entry()) == m by {
        let b = u.bodies@[i];
        assert forall|j: int| 0 <= j < b.basic_blocks@.len() implies (#[trigger] b.basic_blocks@[j]).statements@.len() == k by {
            assert(u.bodies@[i].basic_blocks@[j].statements@.len() == k);
        }
        lemma_body_counts(b, k);
    }
    lemma_count_joined(fulls, statement_entry(), k * m);
    lemma_count_joined(fulls, terminator_entry(), m);
    let h = Hook::Unit(u);
    lemma_count_one(h, statement_entry());
    lemma_count_one(h, terminator_entry());
    lemma_count_add(seq![h], unit_rest(u), statement_entry());
    lemma_count_add(seq![h], unit_rest(u), terminator_entry());
    assert(k * m * n == n * m * k) by (nonlinear_arith);
    assert(m * n == n * m) by (nonlinear_arith);
}

pub trait Visitor<'tir> {
    /// The hooks entered so far, in order.
    spec fn trace(&self) -> Seq<Hook>;

    /// Every `visit_*` hook of this visitor notes its entry and then descends
    /// through its `super_*` counterpart, as the defaults do.
    spec fn descends() -> bool;

    /// Records the entry of a hook.
    fn note(&mut self, entered: Entered)
        ensures
            final(self).trace() == old(self).trace().push(entered.hook@),
    ;

    fn visit_unit(&mut self, unit: &'tir TirUnit)
        ensures
            children(old(self).trace(), final(self).trace(), seq![Hook::Unit(*unit)]),
            Self::descends() ==> final(self).trace() == old(self).trace() + full_unit(*unit),
    {
        let ghost t0 = self.trace();
        self.note(Entered { hook: Ghost(Hook::Unit(*unit)) });
        self.super_unit(unit);
        proof {
            lemma_children_enter(t0, self.trace(), Hook::Unit(*unit));
            assert(t0.push(Hook::Unit(*unit)) + unit_rest(*unit) =~= t0 + full_unit(*unit));
        }
    }

    /// Visits the bodies in order.
    fn super_unit(&mut self, unit: &'tir TirUnit)
        ensures
            children(old(self).trace(), final(self).trace(), unit_heads(*unit)),
            Self::descends() ==> final(self).trace() == old(self).trace() + unit_rest(*unit),
    {
        let ghost t0 = self.trace();
        let ghost heads = unit_heads(*unit);
        let ghost fulls = unit.bodies@.map_values(|b: TirBody| full_body(b));
        proof {
            lemma_children_none(t0);
            assert(heads.subrange(0, 0) =~= seq![]);
            assert(fulls.subrange(0, 0) =~= Seq::<Seq<Hook>>::empty());
            assert(t0 + joined(fulls.subrange(0, 0)) =~= t0);
        }
        let bodies = &unit.bodies;
        let mut i: usize = 0;
        while i < bodies.len()
            invariant
                heads == unit_heads(*unit),
                fulls == unit.bodies@.map_values(|b: TirBody| full_body(b)),
                bodies == &unit.bodies,
                i <= bodies@.len(),
                children(t0, self.trace(), heads.subrange(0, i as int)),
                Self::descends() ==> self.trace() == t0 + joined(fulls.subrange(0, i as int)),
            decreases bodies@.len() - i,
        {
            let ghost mid = self.trace();
            let body = &bodies[DefId(i)];
            self.visit_body(body);
            proof {
                assert(heads[i as int] == Hook::Body(unit.bodies@[i as int]));
                lemma_children_step(t0, mid, self.trace(), heads.subrange(0, i as int), Hook::Body(*body));
                assert(heads.subrange(0, i as int).push(Hook::Body(*body)) =~= heads.subrange(0, i + 1));
                if Self::descends() {
                    assert(fulls[i as int] == full_body(*body));
                    lemma_joined_push(t0, fulls, i as int, mid, self.trace());
                }
            }
            i = i + 1;
        }
        proof {
            assert(heads.subrange(0, i as int) =~= heads);
            assert(fulls.subrange(0, i as int) =~= fulls);
        }
    }

    fn visit_body(&mut self, body: &'tir TirBody)
        ensures
            children(old(self).trace(), final(self).trace(), seq![Hook::Body(*body)]),
            Self::descends() ==> final(self).trace() == old(self).trace() + full_body(*body),
    {
        let ghost t0 = self.trace();
        self.note(Entered { hook: Ghost(Hook::Body(*body)) });
        self.super_body(body);
        proof {
            lemma_children_enter(t0, self.trace(), Hook::Body(*body));
            assert(t0.push(Hook::Body(*body)) + body_rest(*body) =~= t0 + full_body(*body));
        }
    }

    /// Visits the basic blocks in order.
    fn super_body(&mut self, body: &'tir TirBody)
        ensures
            children(old(self).trace(), final(self).trace(), body_heads(*body)),
            Self::descends() ==> final(self).trace() == old(self).trace() + body_rest(*body),
    {
        let ghost t0 = self.trace();
        let ghost heads = body_heads(*body);
        let ghost fulls = body.basic_blocks@.map_values(|bb: BasicBlockData| full_block(bb));
        proof {
            lemma_children_none(t0);
            assert(heads.subrange(0, 0) =~= seq![]);
            assert(fulls.subrange(0, 0) =~= Seq::<Seq<Hook>>::empty());
            assert(t0 + joined(fulls.subrange(0, 0)) =~= t0);
        }
        let blocks = &body.basic_blocks;
        let mut i: usize = 0;
        while i < blocks.len()
            invariant
                heads == body_heads(*body),
                fulls == body.basic_blocks@.map_values(|bb: BasicBlockData| full_block(bb)),
                blocks == &body.basic_blocks,
                i <= blocks@.len(),
                children(t0, self.trace(), heads.subrange(0, i as int)),
                Self::descends() ==> self.trace() == t0 + joined(fulls.subrange(0, i as int)),
            decreases blocks@.len() - i,
        {
            let ghost mid = self.trace();
            let block = &blocks[BasicBlock(i)];
            self.visit_basic_block(block);
            proof {
                assert(heads[i as int] == Hook::BasicBlock(body.basic_blocks@[i as int]));
                lemma_children_step(t0, mid, self.trace(), heads.subrange(0, i as int), Hook::BasicBlock(*block));
                assert(heads.subrange(0, i as int).push(Hook::BasicBlock(*block)) =~= heads.subrange(0, i + 1));
                if Self::descends() {
                    assert(fulls[i as int] == full_block(*block));
                    lemma_joined_push(t0, fulls, i as int, mid, self.trace());
                }
            }
            i = i + 1;
        }
        proof {
            assert(heads.subrange(0, i as int) =~= heads);
            assert(fulls.subrange(0, i as int) =~= fulls);
        }
    }

    fn visit_basic_block(&mut self, block: &'tir BasicBlockData)
        ensures
            children(old(self).trace(), final(self).trace(), seq![Hook::BasicBlock(*block)]),
            Self::descends() ==> final(self).trace() == old(self).trace() + full_block(*block),
    {
        let ghost t0 = self.trace();
        self.note(Entered { hook: Ghost(Hook::BasicBlock(*block)) });
        self.super_basic_block(block);
        proof {
            lemma_children_enter(t0, self.trace(), Hook::BasicBlock(*block));
            assert(t0.push(Hook::BasicBlock(*block)) + block_rest(*block) =~= t0 + full_block(*block));
        }
    }

    /// Visits the statements in order, then the terminator.
    fn super_basic_block(&mut self, block: &'tir BasicBlockData)
        ensures
            children(old(self).trace(), final(self).trace(), block_heads(*block)),
            Self::descends() ==> final(self).trace() == old(self).trace() + block_rest(*block),
    {
        let ghost t0 = self.trace();
        let ghost heads = block_heads(*block);
        let ghost fulls = block.statements@.map_values(|s: Statement| full_statement(s));
        let statements = &block.statements;
        proof {
            lemma_children_none(t0);
            assert(heads.subrange(0, 0) =~= seq![]);
            assert(fulls.subrange(0, 0) =~= Seq::<Seq<Hook>>::empty());
            assert(t0 + joined(fulls.subrange(0, 0)) =~= t0);
        }
        let mut i: usize = 0;
        while i < statements.len()
            invariant
                heads == block_heads(*block),
                fulls == block.statements@.map_values(|s: Statement| full_statement(s)),
                statements == &block.statements,
                i <= statements@.len(),
                children(t0, self.trace(), heads.subrange(0, i as int)),
                Self::descends() ==> self.trace() == t0 + joined(fulls.subrange(0, i as int)),
            decreases statements@.len() - i,
        {
            let ghost mid = self.trace();
            let statement = &statements[i];
            self.visit_statement(statement);
            proof {
                lemma_children_step(t0, mid, self.trace(), heads.subrange(0, i as int), Hook::Statement(*statement));
                assert(heads.subrange(0, i as int).push(Hook::Statement(*statement)) =~= heads.subrange(0, i + 1));
                if Self::descends() {
                    assert(fulls[i as int] == full_statement(*statement));
                    lemma_joined_push(t0, fulls, i as int, mid, self.trace());
                }
            }
            i = i + 1;
        }
        let ghost mid = self.trace();
        self.visit_terminator(&block.terminator);
        proof {
            lemma_children_step(t0, mid, self.trace(), heads.subrange(0, i as int), Hook::Terminator(block.terminator));
            assert(heads.subrange(0, i as int).push(Hook::Terminator(block.terminator)) =~= heads);
            assert(fulls.subrange(0, i as int) =~= fulls);
            if Self::descends() {
                assert(self.trace() =~= t0 + block_rest(*block));
            }
        }
    }

    fn visit_statement(&mut self, statement: &'tir Statement)
        ensures
            children(old(self).trace(), final(self).trace(), seq![Hook::Statement(*statement)]),
            Self::descends() ==> final(self).trace() == old(self).trace() + full_statement(*statement),
    {
        let ghost t0 = self.trace();
        self.note(Entered { hook: Ghost(Hook::Statement(*statement)) });
        self.super_statement(statement);
        proof {
            lemma_children_enter(t0, self.trace(), Hook::Statement(*statement));
            assert(t0.push(Hook::Statement(*statement)) + statement_rest(*statement) =~= t0 + full_statement(*statement));
        }
    }

    /// Visits the assigned place, then the assigned value.
    fn super_statement(&mut self, statement: &'tir Statement)
        ensures
            children(old(self).trace(), final(self).trace(), statement_heads(*statement)),
            Self::descends() ==> final(self).trace() == old(self).trace() + statement_rest(*statement),
    {
        let ghost t0 = self.trace();
        proof {
            lemma_children_none(t0);
        }
        match statement {
            Statement::Assign(assign) => {
                let (place, rvalue) = &**assign;
                self.visit_place(place);
                proof {
                    lemma_children_step(t0, t0, self.trace(), seq![], Hook::Place(*place));
                    assert(Seq::<Hook>::empty().push(Hook::Place(*place)) =~= seq![Hook::Place(*place)]);
                }
                let ghost t1 = self.trace();
                self.visit_rvalue(rvalue);
                proof {
                    lemma_children_step(t0, t1, self.trace(), seq![Hook::Place(*place)], Hook::RValue(*rvalue));
                    assert(seq![Hook::Place(*place)].push(Hook::RValue(*rvalue)) =~= statement_heads(*statement));
                    if Self::descends() {
                        assert(self.trace() =~= t0 + statement_rest(*statement));
                    }
                }
            },
        }
    }

    fn visit_rvalue(&mut self, rvalue: &'tir RValue)
        ensures
            children(old(self).trace(), final(self).trace(), seq![Hook::RValue(*rvalue)]),
            Self::descends() ==> final(self).trace() == old(self).trace() + full_rvalue(*rvalue),
    {
        let ghost t0 = self.trace();
        self.note(Entered { hook: Ghost(Hook::RValue(*rvalue)) });
        self.super_rvalue(rvalue);
        proof {
            lemma_children_enter(t0, self.trace(), Hook::RValue(*rvalue));
            assert(t0.push(Hook::RValue(*rvalue)) + rvalue_rest(*rvalue) =~= t0 + full_rvalue(*rvalue));
        }
    }

    /// Visits the operands in order.
    fn super_rvalue(&mut self, rvalue: &'tir RValue)
        ensures
            children(old(self).trace(), final(self).trace(), rvalue_heads(*rvalue)),
            Self::descends() ==> final(self).trace() == old(self).trace() + rvalue_rest(*rvalue),
    {
        let ghost t0 = self.trace();
        proof {
            lemma_children_none(t0);
        }
        match rvalue {
            RValue::Operand(operand) => {
                self.visit_operand(operand);
                proof {
                    lemma_children_step(t0, t0, self.trace(), seq![], Hook::Operand(*operand));
                    assert(Seq::<Hook>::empty().push(Hook::Operand(*operand)) =~= rvalue_heads(*rvalue));
                }
            },
            RValue::UnaryOp(_, operand) => {
                self.visit_operand(operand);
                proof {
                    lemma_children_step(t0, t0, self.trace(), seq![], Hook::Operand(*operand));
                    assert(Seq::<Hook>::empty().push(Hook::Operand(*operand)) =~= rvalue_heads(*rvalue));
                }
            },
            RValue::BinaryOp(_, lhs, rhs) => {
                self.visit_operand(lhs);
                proof {
                    lemma_children_step(t0, t0, self.trace(), seq![], Hook::Operand(*lhs));
                }
                let ghost t1 = self.trace();
                self.visit_operand(rhs);
                proof {
                    assert(Seq::<Hook>::empty().push(Hook::Operand(*lhs)) =~= seq![Hook::Operand(*lhs)]);
                    lemma_children_step(t0, t1, self.trace(), seq![Hook::Operand(*lhs)], Hook::Operand(*rhs));
                    assert(seq![Hook::Operand(*lhs)].push(Hook::Operand(*rhs)) =~= rvalue_heads(*rvalue));
                    if Self::descends() {
                        assert(self.trace() =~= t0 + rvalue_rest(*rvalue));
                    }
                }
            },
        }
    }

    fn visit_operand(&mut self, operand: &'tir Operand)
        ensures
            children(old(self).trace(), final(self).trace(), seq![Hook::Operand(*operand)]),
            Self::descends() ==> final(self).trace() == old(self).trace() + full_operand(*operand),
    {
        let ghost t0 = self.trace();
        self.note(Entered { hook: Ghost(Hook::Operand(*operand)) });
        self.super_operand(operand);
        proof {
            lemma_children_enter(t0, self.trace(), Hook::Operand(*operand));
            assert(t0.push(Hook::Operand(*operand)) + operand_rest(*operand) =~= t0 + full_operand(*operand));
        }
    }

    /// Visits the place an operand reads, if any.
    fn super_operand(&mut self, operand: &'tir Operand)
        ensures
            children(old(self).trace(), final(self).trace(), operand_heads(*operand)),
            Self::descends() ==> final(self).trace() == old(self).trace() + operand_rest(*operand),
    {
        let ghost t0 = self.trace();
        proof {
            lemma_children_none(t0);
        }
        match operand {
            Operand::Use(place) => {
                self.visit_place(place);
                proof {
                    lemma_children_step(t0, t0, self.trace(), seq![], Hook::Place(*place));
                    assert(Seq::<Hook>::empty().push(Hook::Place(*place)) =~= operand_heads(*operand));
                }
            },
            Operand::Const(_) => {
                proof {
                    assert(operand_heads(*operand) =~= seq![]);
                    assert(t0 + operand_rest(*operand) =~= t0);
                }
            },
        }
    }

    fn visit_place(&mut self, place: &'tir Place)
        ensures
            children(old(self).trace(), final(self).trace(), seq![Hook::Place(*place)]),
            Self::descends() ==> final(self).trace() == old(self).trace() + full_place(*place),
    {
        let ghost t0 = self.trace();
        self.note(Entered { hook: Ghost(Hook::Place(*place)) });
        self.super_place(place);
        proof {
            lemma_children_none(self.trace());
            lemma_children_enter(t0, self.trace(), Hook::Place(*place));
            assert(t0.push(Hook::Place(*place)) =~= t0 + full_place(*place));
        }
    }

    /// A place has no children to visit.
    fn super_place(&mut self, place: &'tir Place)
        ensures
            final(self).trace() == old(self).trace(),
    {
    }

    fn visit_terminator(&mut self, terminator: &'tir Terminator)
        ensures
            children(old(self).trace(), final(self).trace(), seq![Hook::Terminator(*terminator)]),
            Self::descends() ==> final(self).trace() == old(self).trace() + full_terminator(*terminator),
    {
        let ghost t0 = self.trace();
        self.note(Entered { hook: Ghost(Hook::Terminator(*terminator)) });
        self.super_terminator(terminator);
        proof {
            lemma_children_none(self.trace());
            lemma_children_enter(t0, self.trace(), Hook::Terminator(*terminator));
            assert(t0.push(Hook::Terminator(*terminator)) =~= t0 + full_terminator(*terminator));
        }
    }

    /// A terminator has no children to visit.
    fn super_terminator(&mut self, terminator: &'tir Terminator)
        ensures
            final(self).trace() == old(self).trace(),
    {
    }
}

} // verus!
