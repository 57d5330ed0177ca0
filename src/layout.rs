//! Size, alignment and backend representation of the IR's types against a
//! target description.

use vstd::prelude::*;

use crate::tir::TirTy;

verus! {

/// A size in bytes.
#[derive(PartialEq, Eq, Structural, Clone, Copy, Debug, Hash)]
pub struct Size {
    pub raw: u64,
}

impl Size {
    /// The size needed to hold `bits` bits, rounded up to whole bytes.
    pub fn from_bits(bits: u64) -> (r: Size)
        ensures
            r.raw == (bits as int + 7) / 8,
    {
        let extra: u64 = if bits % 8 == 0 { 0 } else { 1 };
        Size { raw: bits / 8 + extra }
    }

    pub fn from_bytes(bytes: u64) -> (r: Size)
        ensures
            r.raw == bytes,
    {
        Size { raw: bytes }
    }

    pub fn bytes(&self) -> (r: u64)
        ensures
            r == self.raw,
    {
        self.raw
    }
}

/// An alignment in bytes.
#[derive(PartialEq, Eq, Structural, Clone, Copy, Debug, Hash)]
pub struct Align {
    pub raw: u64,
}

impl Align {
    pub fn from_bytes(bytes: u64) -> (r: Align)
        ensures
            r.raw == bytes,
    {
        Align { raw: bytes }
    }

    pub fn bytes(&self) -> (r: u64)
        ensures
            r == self.raw,
    {
        self.raw
    }
}

/// The alignment the ABI demands together with the one the target prefers.
#[derive(PartialEq, Eq, Structural, Clone, Copy, Debug, Hash)]
pub struct AbiAndPrefAlign {
    pub abi: Align,
    pub pref: Align,
}

impl AbiAndPrefAlign {
    /// An alignment whose ABI and preferred parts are both `bytes`.
    pub fn new(bytes: u64) -> (r: AbiAndPrefAlign)
        ensures
            r.abi.raw == bytes,
            r.pref.raw == bytes,
    {
        AbiAndPrefAlign { abi: Align { raw: bytes }, pref: Align { raw: bytes } }
    }
}

/// A pointer address space.
#[derive(PartialEq, Eq, Structural, Clone, Copy, Debug, Hash)]
pub struct AddressSpace(pub u32);

/// The scalar kinds a backend can hold in a register.
#[derive(PartialEq, Eq, Structural, Clone, Copy, Debug, Hash)]
pub enum Primitive {
    I8,
    I16,
    I32,
    I64,
    I128,
    U8,
    U16,
    U32,
    U64,
    U128,
    F16,
    F32,
    F64,
    F128,
    Pointer(AddressSpace),
}

/// How a backend stores a value of a type.
#[derive(PartialEq, Eq, Structural, Clone, Copy, Debug, Hash)]
pub enum BackendRepr {
    Scalar(Primitive),
}

/// The size, alignment and representation of a type.
#[derive(PartialEq, Eq, Structural, Clone, Copy, Debug, Hash)]
pub struct LayoutData {
    pub size: Size,
    pub align: AbiAndPrefAlign,
    pub backend_repr: BackendRepr,
}

/// The size and alignment of pointers in one address space.
#[derive(PartialEq, Eq, Structural, Clone, Copy, Debug, Hash)]
pub struct PointerSpec {
    pub address_space: AddressSpace,
    pub size: Size,
    pub align: AbiAndPrefAlign,
}

/// The target's alignment rules per primitive width class, and its pointer
/// rules: the first entry of `pointer_spaces` for an address space gives its
/// pointers' size and alignment, and `pointer_size` and `pointer_align` apply
/// to the address spaces without an entry.
#[derive(Clone, Debug, PartialEq, Eq, Hash)]
pub struct TargetDataLayout {
    pub int8_align: AbiAndPrefAlign,
    pub int16_align: AbiAndPrefAlign,
    pub int32_align: AbiAndPrefAlign,
    pub int64_align: AbiAndPrefAlign,
    pub int128_align: AbiAndPrefAlign,
    pub float16_align: AbiAndPrefAlign,
    pub float32_align: AbiAndPrefAlign,
    pub float64_align: AbiAndPrefAlign,
    pub float128_align: AbiAndPrefAlign,
    pub pointer_size: Size,
    pub pointer_align: AbiAndPrefAlign,
    pub pointer_spaces: Vec<PointerSpec>,
}

/// The first rule of `rules` for address space `a`, if any.
pub open spec fn rule_for(rules: Seq<PointerSpec>, a: AddressSpace) -> Option<PointerSpec>
    decreases rules.len(),
{
    if rules.len() == 0 {
        None
    } else if rules[0].address_space == a {
        Some(rules[0])
    } else {
        rule_for(rules.drop_first(), a)
    }
}

/// The pointer rule of `dl` for address space `a`.
pub open spec fn pointer_rule(dl: TargetDataLayout, a: AddressSpace) -> PointerSpec {
    match rule_for(dl.pointer_spaces@, a) {
        Some(r) => r,
        None => PointerSpec { address_space: a, size: dl.pointer_size, align: dl.pointer_align },
    }
}

impl TargetDataLayout {
    /// The rule for pointers in `address_space`.
    fn pointer_spec(&self, address_space: AddressSpace) -> (r: PointerSpec)
        ensures
            r.size == pointer_rule(*self, address_space).size,
            r.align == pointer_rule(*self, address_space).align,
    {
        let rules = &self.pointer_spaces;
        proof {
            assert(rules@.subrange(0, rules@.len() as int) =~= rules@);
        }
        let mut k: usize = 0;
        while k < rules.len()
            invariant
                rules == &self.pointer_spaces,
                k <= rules@.len(),
                rule_for(rules@, address_space) == rule_for(rules@.subrange(k as int, rules@.len() as int), address_space),
            decreases rules@.len() - k,
        {
            let ghost rest = rules@.subrange(k as int, rules@.len() as int);
            if rules[k].address_space == address_space {
                return rules[k];
            }
            proof {
                assert(rest.drop_first() =~= rules@.subrange(k + 1, rules@.len() as int));
            }
            k = k + 1;
        }
        proof {
            assert(rules@.subrange(k as int, rules@.len() as int) =~= Seq::<PointerSpec>::empty());
        }
        PointerSpec { address_space, size: self.pointer_size, align: self.pointer_align }
    }

    /// The size of a pointer in `address_space`.
    pub fn pointer_size(&self, address_space: AddressSpace) -> (r: Size)
        ensures
            r == pointer_rule(*self, address_space).size,
    {
        self.pointer_spec(address_space).size
    }

    /// The alignment of a pointer in `address_space`.
    pub fn pointer_align(&self, address_space: AddressSpace) -> (r: AbiAndPrefAlign)
        ensures
            r == pointer_rule(*self, address_space).align,
    {
        self.pointer_spec(address_space).align
    }
}

impl Default for TargetDataLayout {
    /// A 64-bit target whose scalars are aligned to their own size.
    fn default() -> (r: TargetDataLayout)
        ensures
            r.int8_align == (AbiAndPrefAlign { abi: Align { raw: 1 }, pref: Align { raw: 1 } }),
            r.int16_align == (AbiAndPrefAlign { abi: Align { raw: 2 }, pref: Align { raw: 2 } }),
            r.int32_align == (AbiAndPrefAlign { abi: Align { raw: 4 }, pref: Align { raw: 4 } }),
            r.int64_align == (AbiAndPrefAlign { abi: Align { raw: 8 }, pref: Align { raw: 8 } }),
            r.int128_align == (AbiAndPrefAlign { abi: Align { raw: 16 }, pref: Align { raw: 16 } }),
            r.float16_align == (AbiAndPrefAlign { abi: Align { raw: 2 }, pref: Align { raw: 2 } }),
            r.float32_align == (AbiAndPrefAlign { abi: Align { raw: 4 }, pref: Align { raw: 4 } }),
            r.float64_align == (AbiAndPrefAlign { abi: Align { raw: 8 }, pref: Align { raw: 8 } }),
            r.float128_align == (AbiAndPrefAlign { abi: Align { raw: 16 }, pref: Align { raw: 16 } }),
            r.pointer_size == (Size { raw: 8 }),
            r.pointer_align == (AbiAndPrefAlign { abi: Align { raw: 8 }, pref: Align { raw: 8 } }),
            r.pointer_spaces@.len() == 0,
    {
        TargetDataLayout {
            int8_align: AbiAndPrefAlign::new(1),
            int16_align: AbiAndPrefAlign::new(2),
            int32_align: AbiAndPrefAlign::new(4),
            int64_align: AbiAndPrefAlign::new(8),
            int128_align: AbiAndPrefAlign::new(16),
            float16_align: AbiAndPrefAlign::new(2),
            float32_align: AbiAndPrefAlign::new(4),
            float64_align: AbiAndPrefAlign::new(8),
            float128_align: AbiAndPrefAlign::new(16),
            pointer_size: Size { raw: 8 },
            pointer_align: AbiAndPrefAlign::new(8),
            pointer_spaces: Vec::new(),
        }
    }
}

/// Bytes taken by a primitive; pointers take the target's pointer size.
pub open spec fn primitive_size(p: Primitive, dl: TargetDataLayout) -> Size {
    match p {
        Primitive::I8 | Primitive::U8 => Size { raw: 1 },
        Primitive::I16 | Primitive::U16 | Primitive::F16 => Size { raw: 2 },
        Primitive::I32 | Primitive::U32 | Primitive::F32 => Size { raw: 4 },
        Primitive::I64 | Primitive::U64 | Primitive::F64 => Size { raw: 8 },
        Primitive::I128 | Primitive::U128 | Primitive::F128 => Size { raw: 16 },
        Primitive::Pointer(a) => pointer_rule(dl, a).size,
    }
}

/// The target's alignment for a primitive, looked up by its width class.
pub open spec fn primitive_align(p: Primitive, dl: TargetDataLayout) -> AbiAndPrefAlign {
    match p {
        Primitive::I8 | Primitive::U8 => dl.int8_align,
        Primitive::I16 | Primitive::U16 => dl.int16_align,
        Primitive::I32 | Primitive::U32 => dl.int32_align,
        Primitive::I64 | Primitive::U64 => dl.int64_align,
        Primitive::I128 | Primitive::U128 => dl.int128_align,
        Primitive::F16 => dl.float16_align,
        Primitive::F32 => dl.float32_align,
        Primitive::F64 => dl.float64_align,
        Primitive::F128 => dl.float128_align,
        Primitive::Pointer(a) => pointer_rule(dl, a).align,
    }
}

/// The layout of a scalar of primitive kind `p` on a target.
pub open spec fn scalar_layout_of(p: Primitive, dl: TargetDataLayout) -> LayoutData {
    LayoutData {
        size: primitive_size(p, dl),
        align: primitive_align(p, dl),
        backend_repr: BackendRepr::Scalar(p),
    }
}

/// Computes the layout of a scalar of kind `primitive` under `data_layout`.
pub fn scalar_layout(primitive: Primitive, data_layout: &TargetDataLayout) -> (r: LayoutData)
    ensures
        r == scalar_layout_of(primitive, *data_layout),
{
    let (size, align) = match primitive {
        Primitive::I8 => (Size::from_bits(8), data_layout.int8_align),
        Primitive::I16 => (Size::from_bits(16), data_layout.int16_align),
        Primitive::I32 => (Size::from_bits(32), data_layout.int32_align),
        Primitive::I64 => (Size::from_bits(64), data_layout.int64_align),
        Primitive::I128 => (Size::from_bits(128), data_layout.int128_align),
        Primitive::U8 => (Size::from_bits(8), data_layout.int8_align),
        Primitive::U16 => (Size::from_bits(16), data_layout.int16_align),
        Primitive::U32 => (Size::from_bits(32), data_layout.int32_align),
        Primitive::U64 => (Size::from_bits(64), data_layout.int64_align),
        Primitive::U128 => (Size::from_bits(128), data_layout.int128_align),
        Primitive::F16 => (Size::from_bits(16), data_layout.float16_align),
        Primitive::F32 => (Size::from_bits(32), data_layout.float32_align),
        Primitive::F64 => (Size::from_bits(64), data_layout.float64_align),
        Primitive::F128 => (Size::from_bits(128), data_layout.float128_align),
        Primitive::Pointer(address_space) => (
            data_layout.pointer_size(address_space),
            data_layout.pointer_align(address_space),
        ),
    };
    LayoutData { size, align, backend_repr: BackendRepr::Scalar(primitive) }
}

/// The code generator a target is compiled with.
#[derive(PartialEq, Eq, Structural, Clone, Copy, Debug, Hash)]
pub enum BackendKind {
    Llvm,
    Cranelift,
    Gcc,
}

/// A compilation target: its data layout and the backend that emits code for it.
#[derive(Clone, Debug, PartialEq, Eq, Hash)]
pub struct TirTarget {
    pub data_layout: TargetDataLayout,
    pub codegen_backend: BackendKind,
}

impl TirTarget {
    pub fn new(data_layout: TargetDataLayout, codegen_backend: BackendKind) -> (r: TirTarget)
        ensures
            r.data_layout == data_layout,
            r.codegen_backend == codegen_backend,
    {
        TirTarget { data_layout, codegen_backend }
    }
}

/// A type together with its computed layout.
#[derive(PartialEq, Eq, Structural, Clone, Copy, Debug, Hash)]
pub struct TyAndLayout {
    pub ty: TirTy,
    pub layout: LayoutData,
}

/// Why no layout could be given to a type.
#[derive(PartialEq, Eq, Structural, Clone, Copy, Debug, Hash)]
pub enum LayoutError {
    /// The ABI model does not cover this type yet.
    Unsupported(TirTy),
}

/// The primitive that backs a type, or `None` for a type without a layout.
pub open spec fn primitive_of(ty: TirTy) -> Option<Primitive> {
    match ty {
        TirTy::I8 => Some(Primitive::I8),
        TirTy::I16 => Some(Primitive::I16),
        TirTy::I32 => Some(Primitive::I32),
        TirTy::I64 => Some(Primitive::I64),
        TirTy::I128 => Some(Primitive::I128),
        TirTy::U8 => Some(Primitive::U8),
        TirTy::U16 => Some(Primitive::U16),
        TirTy::U32 => Some(Primitive::U32),
        TirTy::U64 => Some(Primitive::U64),
        TirTy::U128 => Some(Primitive::U128),
        TirTy::F16 => Some(Primitive::F16),
        TirTy::F32 => Some(Primitive::F32),
        TirTy::F64 => Some(Primitive::F64),
        TirTy::F128 => Some(Primitive::F128),
        TirTy::Metadata => None,
    }
}

/// The layout of `ty` under `dl`, or the unsupported outcome.
pub open spec fn layout_of_ty(ty: TirTy, dl: TargetDataLayout) -> Result<TyAndLayout, LayoutError> {
    match primitive_of(ty) {
        Some(p) => Ok(TyAndLayout { ty, layout: scalar_layout_of(p, dl) }),
        None => Err(LayoutError::Unsupported(ty)),
    }
}

/// Layout computation is deterministic: two computations of one type against
/// one data layout give identical results, whether a layout or the
/// unsupported outcome.
pub proof fn lemma_layout_deterministic(
    ty: TirTy,
    dl: TargetDataLayout,
    r1: Result<TyAndLayout, LayoutError>,
    r2: Result<TyAndLayout, LayoutError>,
)
    requires
        r1 == layout_of_ty(ty, dl),
        r2 == layout_of_ty(ty, dl),
    ensures
        r1 == r2,
{
}

/// The `Metadata` category never gets a layout: its computation always yields
/// the unsupported outcome, on every target.
pub proof fn lemma_metadata_unsupported(dl: TargetDataLayout)
    ensures
        layout_of_ty(TirTy::Metadata, dl) == Err::<TyAndLayout, LayoutError>(
            LayoutError::Unsupported(TirTy::Metadata),
        ),
{
}

} // verus!
