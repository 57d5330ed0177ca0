//! The typed IR: units of bodies, bodies of locals and basic blocks, blocks of
//! statements ending in a terminator.

use vstd::prelude::*;

use crate::idx::Idx;
use crate::index_vec::IdxVec;

verus! {

/// The primitive types of the IR. `Metadata` stands for unsized or
/// type-erased values and has no layout yet.
#[derive(PartialEq, Eq, Structural, Clone, Copy, Debug, Hash)]
pub enum TirTy {
    I8,
    I16,
    I32,
    I64,
    I128,
    U8,
    U16,
    U32,
    U64,
    U128,
    F16,
    F32,
    F64,
    F128,
    Metadata,
}

/// The index of a local in a body: the return slot, then the parameters,
/// then the ordinary locals.
#[derive(PartialEq, Eq, Structural, Clone, Copy, Debug, Hash, PartialOrd, Ord)]
pub struct Local(pub usize);

/// The index of the local that holds a body's return value.
pub const RETURN_LOCAL: usize = 0;

impl Idx for Local {
    open spec fn spec_idx(&self) -> usize {
        self.0
    }

    fn new(idx: usize) -> (r: Self) {
        Local(idx)
    }

    fn idx(&self) -> (r: usize) {
        self.0
    }

    fn incr(&mut self) {
        self.0 = self.0 + 1;
    }

    fn incr_by(&mut self, by: usize) {
        self.0 = self.0 + by;
    }
}

/// The index of a basic block in a body.
#[derive(PartialEq, Eq, Structural, Clone, Copy, Debug, Hash, PartialOrd, Ord)]
pub struct BasicBlock(pub usize);

impl Idx for BasicBlock {
    open spec fn spec_idx(&self) -> usize {
        self.0
    }

    fn new(idx: usize) -> (r: Self) {
        BasicBlock(idx)
    }

    fn idx(&self) -> (r: usize) {
        self.0
    }

    fn incr(&mut self) {
        self.0 = self.0 + 1;
    }

    fn incr_by(&mut self, by: usize) {
        self.0 = self.0 + by;
    }
}

/// The index of a body in a unit.
#[derive(PartialEq, Eq, Structural, Clone, Copy, Debug, Hash, PartialOrd, Ord)]
pub struct DefId(pub usize);

impl Idx for DefId {
    open spec fn spec_idx(&self) -> usize {
        self.0
    }

    fn new(idx: usize) -> (r: Self) {
        DefId(idx)
    }

    fn idx(&self) -> (r: usize) {
        self.0
    }

    fn incr(&mut self) {
        self.0 = self.0 + 1;
    }

    fn incr_by(&mut self, by: usize) {
        self.0 = self.0 + by;
    }
}

/// One step from a storage location to a part of it.
#[derive(PartialEq, Eq, Structural, Clone, Copy, Debug, Hash)]
pub enum Projection {
    Field(usize),
    Deref,
    Index(Local),
}

/// A storage location: a local and a path into it.
#[derive(Clone, Debug, PartialEq, Eq, Hash)]
pub struct Place {
    pub local: Local,
    pub projection: Vec<Projection>,
}

/// A raw bit pattern together with its width in bytes.
#[derive(PartialEq, Eq, Structural, Clone, Copy, Debug, Hash)]
pub struct RawScalarValue {
    pub data: u128,
    pub size: u8,
}

#[derive(PartialEq, Eq, Structural, Clone, Copy, Debug, Hash)]
pub enum ConstScalar {
    Value(RawScalarValue),
}

#[derive(PartialEq, Eq, Structural, Clone, Copy, Debug, Hash)]
pub enum ConstValue {
    Scalar(ConstScalar),
}

/// A typed literal.
#[derive(PartialEq, Eq, Structural, Clone, Copy, Debug, Hash)]
pub enum ConstOperand {
    Value(ConstValue, TirTy),
}

/// A value source: a read of a place or a literal.
#[derive(Clone, Debug, PartialEq, Eq, Hash)]
pub enum Operand {
    Use(Place),
    Const(ConstOperand),
}

#[derive(PartialEq, Eq, Structural, Clone, Copy, Debug, Hash)]
pub enum UnaryOp {
    Neg,
    Not,
}

#[derive(PartialEq, Eq, Structural, Clone, Copy, Debug, Hash)]
pub enum BinaryOp {
    Add,
    Sub,
    Mul,
    Div,
    Rem,
    BitAnd,
    BitOr,
    BitXor,
    Shl,
    Shr,
    Eq,
    Ne,
    Lt,
    Le,
    Gt,
    Ge,
}

/// The right-hand side of an assignment.
#[derive(Clone, Debug, PartialEq, Eq, Hash)]
pub enum RValue {
    Operand(Operand),
    UnaryOp(UnaryOp, Operand),
    BinaryOp(BinaryOp, Operand, Operand),
}

#[derive(Clone, Debug, PartialEq, Eq, Hash)]
pub enum Statement {
    Assign(Box<(Place, RValue)>),
}

/// The control transfer that ends a basic block.
#[derive(PartialEq, Eq, Structural, Clone, Copy, Debug, Hash)]
pub enum Terminator {
    Return,
}

/// Statements run in order, then the terminator.
#[derive(Clone, Debug, PartialEq, Eq, Hash)]
pub struct BasicBlockData {
    pub statements: Vec<Statement>,
    pub terminator: Terminator,
}

/// A declared local: its type and whether it may be assigned more than once.
#[derive(PartialEq, Eq, Structural, Clone, Copy, Debug, Hash)]
pub struct LocalData {
    pub ty: TirTy,
    pub mutable: bool,
}

#[derive(PartialEq, Eq, Structural, Clone, Copy, Debug, Hash)]
pub enum TirItemKind {
    Function,
}

#[derive(PartialEq, Eq, Structural, Clone, Copy, Debug, Hash)]
pub enum TirBodyKind {
    Item(TirItemKind),
}

#[derive(PartialEq, Eq, Structural, Clone, Copy, Debug, Hash)]
pub enum Linkage {
    Private,
    Internal,
    AvailableExternally,
    LinkOnce,
    Weak,
    Common,
    Appending,
    ExternWeak,
    LinkOnceODR,
    WeakODR,
    External,
}

#[derive(PartialEq, Eq, Structural, Clone, Copy, Debug, Hash)]
pub enum Visibility {
    Default,
    Hidden,
    Protected,
}

#[derive(PartialEq, Eq, Structural, Clone, Copy, Debug, Hash)]
pub enum UnnamedAddress {
    /// The address is significant.
    Significant,
    /// Only the contents matter within the module.
    Local,
    /// Only the contents matter anywhere.
    Global,
}

/// The calling convention of a body.
#[derive(PartialEq, Eq, Structural, Clone, Copy, Debug, Hash)]
pub enum CallConv {
    C,
    Fast,
    Cold,
}

/// The backend's numeric code of a calling convention.
pub open spec fn call_conv_code(c: CallConv) -> u32 {
    match c {
        CallConv::C => 0,
        CallConv::Fast => 8,
        CallConv::Cold => 9,
    }
}

/// Converts a calling convention into the backend's numeric code.
pub trait CallConvUtils {
    fn into_call_conv(self) -> u32;
}

impl CallConvUtils for CallConv {
    fn into_call_conv(self) -> (r: u32)
        ensures
            r == call_conv_code(self),
    {
        match self {
            CallConv::C => 0,
            CallConv::Fast => 8,
            CallConv::Cold => 9,
        }
    }
}

#[derive(Clone, Debug, PartialEq, Eq, Hash)]
pub struct TirBodyMetadata {
    pub def_id: DefId,
    pub name: String,
    pub kind: TirBodyKind,
    pub inlined: bool,
    pub linkage: Linkage,
    pub visibility: Visibility,
    pub unnamed_address: UnnamedAddress,
    pub call_conv: CallConv,
}

/// One function: its metadata, its return slot and parameters, its other
/// locals, and its basic blocks.
#[derive(Debug, PartialEq, Eq, Hash)]
pub struct TirBody {
    pub metadata: TirBodyMetadata,
    pub ret_and_args: IdxVec<Local, LocalData>,
    pub locals: IdxVec<Local, LocalData>,
    pub basic_blocks: IdxVec<BasicBlock, BasicBlockData>,
}

#[derive(Clone, Debug, PartialEq, Eq, Hash)]
pub struct TirUnitMetadata {
    pub unit_name: String,
}

/// A compilation unit: a name and its bodies, in order.
#[derive(Debug, PartialEq, Eq, Hash)]
pub struct TirUnit {
    pub metadata: TirUnitMetadata,
    pub bodies: IdxVec<DefId, TirBody>,
}

} // verus!
