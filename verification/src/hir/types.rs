//! Types of the high-level IR, bit-packed into one machine word.

use crate::ast;
use vstd::prelude::*;

verus! {

/// A bit-packed 64-bit representation of a type.
///
/// The least significant byte is the **tag**. The rest depends on it.
///
/// ### Everything but references and slices
///
/// | Bits | 63 .. 48 | 47 .. 40 | 39 .. 8 | 7 .. 0 |
/// | :--- | :---: | :---: | :---: | :---: |
/// | **field** | unused | enum representation | index | tag |
///
/// ### References and slices
///
/// | Bits | 63 .. 56 | 55 .. 48 | 47 .. 16 | 15 .. 9 | 8 | 7 .. 0 |
/// | :--- | :---: | :---: | :---: | :---: | :---: | :---: |
/// | **field** | unused | target representation | target index | target tag | mutable | tag |
///
/// [`Type::kind`] unpacks a type into a [`TypeKind`] for matching.
#[derive(Debug, Clone, Copy, PartialEq, Eq, Structural, Hash)]
pub struct Type(u64);

/// A type that is neither a reference nor a slice, packed as in [`Type`].
#[derive(Debug, Clone, Copy, PartialEq, Eq, Structural, Hash)]
pub struct RefTarget(u64);

#[derive(Debug, Clone, Copy, PartialEq, Eq, Structural, Hash)]
pub enum TypeKind {
    Unit,
    I8,
    U8,
    I16,
    U16,
    I32,
    U32,
    I64,
    U64,
    F32,
    F64,
    Bool,
    Uptr,
    Iptr,
    Char,
    Str,
    String,
    Struct(StructId),
    Enum(EnumId),
    SelfType,
    Ref { mutable: bool, to: RefTarget },
    Array(ArrayId),
    Slice { mutable: bool, element: RefTarget },
    /// A generic parameter of the enclosing item, by position
    GenericParam(u8),
    /// An integer type still to be inferred
    Infer(u32),
    /// The type of an expression that never yields a value
    Never,
    /// The type of something already reported as wrong
    Error,
}

#[derive(Debug, Clone, Copy, PartialEq, Eq, Structural, Hash)]
pub enum RefTargetKind {
    Unit,
    I8,
    U8,
    I16,
    U16,
    I32,
    U32,
    I64,
    U64,
    F32,
    F64,
    Bool,
    Uptr,
    Iptr,
    Char,
    Str,
    String,
    Struct(StructId),
    Enum(EnumId),
    SelfType,
    Array(ArrayId),
    GenericParam(u8),
    Infer(u32),
    Never,
    Error,
}

#[derive(Debug, Clone, Copy, PartialEq, Eq, Structural, Hash)]
pub enum EnumRepr {
    I8,
    U8,
    I16,
    U16,
    I32,
    U32,
    I64,
    U64,
    Iptr,
    Uptr,
}

#[derive(Debug, Clone, Copy, PartialEq, Eq, Structural, Hash)]
pub struct StructId(pub u32);

#[derive(Debug, Clone, Copy, PartialEq, Eq, Structural, Hash)]
pub struct EnumId(pub u32, pub EnumRepr);

#[derive(Debug, Clone, Copy, PartialEq, Eq, Structural, Hash)]
pub struct ArrayId(pub u32);
const UNIT: u8 = 0;
const I8: u8 = 1;
const U8: u8 = 2;
const I16: u8 = 3;
const U16: u8 = 4;
const I32: u8 = 5;
const U32: u8 = 6;
const I64: u8 = 7;
const U64: u8 = 8;
const F32: u8 = 9;
const F64: u8 = 10;
const BOOL: u8 = 11;
const UPTR: u8 = 12;
const IPTR: u8 = 13;
const CHAR: u8 = 14;
const STR: u8 = 15;
const STRING: u8 = 16;
const STRUCT: u8 = 17;
const ENUM: u8 = 18;
const SELF_TYPE: u8 = 19;
const REF: u8 = 20;
const ARRAY: u8 = 21;
const SLICE: u8 = 22;
const GENERIC_PARAM: u8 = 23;
const INFER: u8 = 24;
const NEVER: u8 = 25;
const ERROR: u8 = 26;

/// The word with the given tag, index and enum representation.
spec fn word(tag: u8, index: u32, repr: u8) -> u64 {
    (tag as u64) | ((index as u64) << 8) | ((repr as u64) << 40)
}

/// The word of a reference or slice to the type packed as `target`.
spec fn pointer_word(tag: u8, mutable: bool, target: u64) -> u64 {
    (tag as u64) | (if mutable { 0x100u64 } else { 0u64 }) | ((target & 0x7F) << 9) | ((target
        & !0xFFu64) << 8)
}

/// The bits of the target inside the word of a reference or slice.
spec fn pointee_bits(packed: u64) -> u64 {
    ((packed >> 8) & !0xFFu64) | ((packed >> 9) & 0x7F)
}

/// The target's word inside the word of a reference or slice: never one of a reference or slice.
spec fn pointee_word(packed: u64) -> u64 {
    let target = pointee_bits(packed);
    if tag(target) == REF || tag(target) == SLICE {
        word(ERROR, 0, 0)
    } else {
        target
    }
}

spec fn index_of(packed: u64) -> u32 {
    ((packed >> 8) & 0xFFFF_FFFF) as u32
}

spec fn repr_of(packed: u64) -> u8 {
    ((packed >> 40) & 0xFF) as u8
}

proof fn lemma_word(t: u8, index: u32, repr: u8)
    ensures
        tag(word(t, index, repr)) == t,
        index_of(word(t, index, repr)) == index,
        repr_of(word(t, index, repr)) == repr,
        word(t, index, repr) < 0x1_0000_0000_0000,
{
    let w = (t as u64) | ((index as u64) << 8) | ((repr as u64) << 40);
    assert((w & 0xFF) as u8 == t && ((w >> 8) & 0xFFFF_FFFF) as u32 == index && ((w >> 40) & 0xFF)
        as u8 == repr && w < 0x1_0000_0000_0000) by (bit_vector)
        requires
            w == (t as u64) | ((index as u64) << 8) | ((repr as u64) << 40),
    ;
}

proof fn lemma_pointer_word(t: u8, mutable: bool, target: u64)
    requires
        target < 0x1_0000_0000_0000,
        tag(target) < 128,
        tag(target) != REF,
        tag(target) != SLICE,
    ensures
        tag(pointer_word(t, mutable, target)) == t,
        pointee_word(pointer_word(t, mutable, target)) == target,
        (((pointer_word(t, mutable, target) >> 8) & 1) != 0) == mutable,
{
    let m = if mutable { 0x100u64 } else { 0u64 };
    let w = (t as u64) | m | ((target & 0x7F) << 9) | ((target & !0xFFu64) << 8);
    assert((w & 0xFF) as u8 == t && (((w >> 8) & !0xFFu64) | ((w >> 9) & 0x7F)) == target && (((w
        >> 8) & 1) != 0) == (m != 0)) by (bit_vector)
        requires
            w == (t as u64) | m | ((target & 0x7F) << 9) | ((target & !0xFFu64) << 8),
            m == 0x100u64 || m == 0u64,
            target < 0x1_0000_0000_0000,
            ((target & 0xFF) as u8) < 128,
    ;
}

/// Packing a target keeps its tag and what comes with it, whatever else its word holds.
proof fn lemma_pointer_bits(t: u8, mutable: bool, target: u64)
    requires
        tag(target) < 128,
    ensures
        tag(pointee_bits(pointer_word(t, mutable, target))) == tag(target),
        index_of(pointee_bits(pointer_word(t, mutable, target))) == index_of(target),
        repr_of(pointee_bits(pointer_word(t, mutable, target))) == repr_of(target),
{
    let m = if mutable { 0x100u64 } else { 0u64 };
    let w = (t as u64) | m | ((target & 0x7F) << 9) | ((target & !0xFFu64) << 8);
    let r = ((w >> 8) & !0xFFu64) | ((w >> 9) & 0x7F);
    assert((r & 0xFF) as u8 == (target & 0xFF) as u8 && ((r >> 8) & 0xFFFF_FFFF) as u32 == ((target
        >> 8) & 0xFFFF_FFFF) as u32 && ((r >> 40) & 0xFF) as u8 == ((target >> 40) & 0xFF) as u8)
        by (bit_vector)
        requires
            w == (t as u64) | m | ((target & 0x7F) << 9) | ((target & !0xFFu64) << 8),
            r == ((w >> 8) & !0xFFu64) | ((w >> 9) & 0x7F),
            m == 0x100u64 || m == 0u64,
            ((target & 0xFF) as u8) < 128,
    ;
}

proof fn lemma_pointer_tag(t: u8, mutable: bool, target: u64)
    ensures
        tag(pointer_word(t, mutable, target)) == t,
        (((pointer_word(t, mutable, target) >> 8) & 1) != 0) == mutable,
{
    let m = if mutable { 0x100u64 } else { 0u64 };
    let w = (t as u64) | m | ((target & 0x7F) << 9) | ((target & !0xFFu64) << 8);
    assert((w & 0xFF) as u8 == t && (((w >> 8) & 1) != 0) == (m != 0)) by (bit_vector)
        requires
            w == (t as u64) | m | ((target & 0x7F) << 9) | ((target & !0xFFu64) << 8),
            m == 0x100u64 || m == 0u64,
    ;
}

impl EnumRepr {
    /// The integer type a discriminant is stored as.
    #[verifier::allow_in_spec]
    pub fn typ(self) -> Type
        returns
            Type::new(self.type_kind()),
    {
        Type::new(self.type_kind())
    }

    #[verifier::allow_in_spec]
    pub fn type_kind(self) -> TypeKind
        returns
            (match self {
                EnumRepr::I8 => TypeKind::I8,
                EnumRepr::U8 => TypeKind::U8,
                EnumRepr::I16 => TypeKind::I16,
                EnumRepr::U16 => TypeKind::U16,
                EnumRepr::I32 => TypeKind::I32,
                EnumRepr::U32 => TypeKind::U32,
                EnumRepr::I64 => TypeKind::I64,
                EnumRepr::U64 => TypeKind::U64,
                EnumRepr::Iptr => TypeKind::Iptr,
                EnumRepr::Uptr => TypeKind::Uptr,
            }),
    {
        match self {
            EnumRepr::I8 => TypeKind::I8,
            EnumRepr::U8 => TypeKind::U8,
            EnumRepr::I16 => TypeKind::I16,
            EnumRepr::U16 => TypeKind::U16,
            EnumRepr::I32 => TypeKind::I32,
            EnumRepr::U32 => TypeKind::U32,
            EnumRepr::I64 => TypeKind::I64,
            EnumRepr::U64 => TypeKind::U64,
            EnumRepr::Iptr => TypeKind::Iptr,
            EnumRepr::Uptr => TypeKind::Uptr,
        }
    }

    /// The size and alignment of a discriminant.
    #[verifier::allow_in_spec]
    pub fn layout(self) -> (u32, u32)
        returns
            (match self {
                EnumRepr::I8 | EnumRepr::U8 => (1u32, 1u32),
                EnumRepr::I16 | EnumRepr::U16 => (2u32, 2u32),
                EnumRepr::I32 | EnumRepr::U32 => (4u32, 4u32),
                _ => (8u32, 8u32),
            }),
    {
        match self {
            EnumRepr::I8 | EnumRepr::U8 => (1, 1),
            EnumRepr::I16 | EnumRepr::U16 => (2, 2),
            EnumRepr::I32 | EnumRepr::U32 => (4, 4),
            EnumRepr::I64 | EnumRepr::U64 | EnumRepr::Iptr | EnumRepr::Uptr => (8, 8),
        }
    }

    #[verifier::allow_in_spec]
    pub fn to_u8(self) -> u8
        returns
            (match self {
                EnumRepr::I8 => 0u8,
                EnumRepr::U8 => 1u8,
                EnumRepr::I16 => 2u8,
                EnumRepr::U16 => 3u8,
                EnumRepr::I32 => 4u8,
                EnumRepr::U32 => 5u8,
                EnumRepr::I64 => 6u8,
                EnumRepr::U64 => 7u8,
                EnumRepr::Iptr => 8u8,
                EnumRepr::Uptr => 9u8,
            }),
    {
        match self {
            EnumRepr::I8 => 0,
            EnumRepr::U8 => 1,
            EnumRepr::I16 => 2,
            EnumRepr::U16 => 3,
            EnumRepr::I32 => 4,
            EnumRepr::U32 => 5,
            EnumRepr::I64 => 6,
            EnumRepr::U64 => 7,
            EnumRepr::Iptr => 8,
            EnumRepr::Uptr => 9,
        }
    }

    /// The representation with the number `val`; no packed type holds a number above 9.
    #[verifier::allow_in_spec]
    pub fn from_u8(val: u8) -> EnumRepr
        returns
            (match val {
                0 => EnumRepr::I8,
                1 => EnumRepr::U8,
                2 => EnumRepr::I16,
                3 => EnumRepr::U16,
                4 => EnumRepr::I32,
                5 => EnumRepr::U32,
                6 => EnumRepr::I64,
                7 => EnumRepr::U64,
                8 => EnumRepr::Iptr,
                _ => EnumRepr::Uptr,
            }),
    {
        match val {
            0 => EnumRepr::I8,
            1 => EnumRepr::U8,
            2 => EnumRepr::I16,
            3 => EnumRepr::U16,
            4 => EnumRepr::I32,
            5 => EnumRepr::U32,
            6 => EnumRepr::I64,
            7 => EnumRepr::U64,
            8 => EnumRepr::Iptr,
            _ => EnumRepr::Uptr,
        }
    }

    /// Reading back a written representation gives it again.
    pub proof fn lemma_numbering(self)
        ensures
            EnumRepr::from_u8(self.to_u8()) == self,
            self.to_u8() <= 9,
    {
    }
}

impl EnumId {
    #[verifier::allow_in_spec]
    pub fn id(self) -> u32
        returns
            self.0,
    {
        self.0
    }
}

impl TypeKind {
    /// The position among all kinds.
    pub open spec fn position(self) -> u8 {
        match self {
            TypeKind::Unit => 0,
            TypeKind::I8 => 1,
            TypeKind::U8 => 2,
            TypeKind::I16 => 3,
            TypeKind::U16 => 4,
            TypeKind::I32 => 5,
            TypeKind::U32 => 6,
            TypeKind::I64 => 7,
            TypeKind::U64 => 8,
            TypeKind::F32 => 9,
            TypeKind::F64 => 10,
            TypeKind::Bool => 11,
            TypeKind::Uptr => 12,
            TypeKind::Iptr => 13,
            TypeKind::Char => 14,
            TypeKind::Str => 15,
            TypeKind::String => 16,
            TypeKind::Struct(_) => 17,
            TypeKind::Enum(_) => 18,
            TypeKind::SelfType => 19,
            TypeKind::Ref { .. } => 20,
            TypeKind::Array(_) => 21,
            TypeKind::Slice { .. } => 22,
            TypeKind::GenericParam(_) => 23,
            TypeKind::Infer(_) => 24,
            TypeKind::Never => 25,
            TypeKind::Error => 26,
        }
    }
}

impl RefTargetKind {
    /// The kind of the same name and payload.
    pub open spec fn as_type(self) -> TypeKind {
        match self {
            RefTargetKind::Unit => TypeKind::Unit,
            RefTargetKind::I8 => TypeKind::I8,
            RefTargetKind::U8 => TypeKind::U8,
            RefTargetKind::I16 => TypeKind::I16,
            RefTargetKind::U16 => TypeKind::U16,
            RefTargetKind::I32 => TypeKind::I32,
            RefTargetKind::U32 => TypeKind::U32,
            RefTargetKind::I64 => TypeKind::I64,
            RefTargetKind::U64 => TypeKind::U64,
            RefTargetKind::F32 => TypeKind::F32,
            RefTargetKind::F64 => TypeKind::F64,
            RefTargetKind::Bool => TypeKind::Bool,
            RefTargetKind::Uptr => TypeKind::Uptr,
            RefTargetKind::Iptr => TypeKind::Iptr,
            RefTargetKind::Char => TypeKind::Char,
            RefTargetKind::Str => TypeKind::Str,
            RefTargetKind::String => TypeKind::String,
            RefTargetKind::Struct(id) => TypeKind::Struct(id),
            RefTargetKind::Enum(id) => TypeKind::Enum(id),
            RefTargetKind::SelfType => TypeKind::SelfType,
            RefTargetKind::Array(id) => TypeKind::Array(id),
            RefTargetKind::GenericParam(index) => TypeKind::GenericParam(index),
            RefTargetKind::Infer(var) => TypeKind::Infer(var),
            RefTargetKind::Never => TypeKind::Never,
            RefTargetKind::Error => TypeKind::Error,
        }
    }
}

/// The least significant byte of a packed type.
#[verifier::allow_in_spec]
pub fn tag(packed: u64) -> u8
    returns
        (packed & 0xFF) as u8,
{
    #[verifier::truncate]
    ((packed & 0xFF) as u8)
}

fn pack(tag: u8, index: u32, repr: u8) -> (packed: u64)
    ensures
        packed == word(tag, index, repr),
{
    (tag as u64) | ((index as u64) << 8) | ((repr as u64) << 40)
}

fn pack_pointer(tag: u8, mutable: bool, target: RefTarget) -> (packed: u64)
    ensures
        packed == pointer_word(tag, mutable, target.0),
{
    let bit: u64 = if mutable { 0x100 } else { 0 };
    (tag as u64) | bit | ((target.0 & 0x7F) << 9) | ((target.0 & !0xFFu64) << 8)
}

fn packed_index(packed: u64) -> (index: u32)
    ensures
        index == index_of(packed),
{
    #[verifier::truncate]
    (((packed >> 8) & 0xFFFF_FFFF) as u32)
}

fn packed_repr(packed: u64) -> (repr: u8)
    ensures
        repr == repr_of(packed),
{
    #[verifier::truncate]
    (((packed >> 40) & 0xFF) as u8)
}

fn pointee(packed: u64) -> (target: RefTarget)
    ensures
        target.0 == pointee_word(packed),
{
    let target: u64 = ((packed >> 8) & !0xFFu64) | ((packed >> 9) & 0x7F);
    if tag(target) == REF || tag(target) == SLICE {
        return RefTarget(pack(ERROR, 0, 0));
    }
    RefTarget(target)
}

impl RefTarget {
    /// Whether the word is one that [`RefTarget::new`] makes.
    pub closed spec fn wf(self) -> bool {
        self == RefTarget::new(self.kind())
    }

    pub closed spec fn packed(kind: RefTargetKind) -> RefTarget {
        RefTarget(
            match kind {
                RefTargetKind::Unit => word(UNIT, 0, 0),
                RefTargetKind::I8 => word(I8, 0, 0),
                RefTargetKind::U8 => word(U8, 0, 0),
                RefTargetKind::I16 => word(I16, 0, 0),
                RefTargetKind::U16 => word(U16, 0, 0),
                RefTargetKind::I32 => word(I32, 0, 0),
                RefTargetKind::U32 => word(U32, 0, 0),
                RefTargetKind::I64 => word(I64, 0, 0),
                RefTargetKind::U64 => word(U64, 0, 0),
                RefTargetKind::F32 => word(F32, 0, 0),
                RefTargetKind::F64 => word(F64, 0, 0),
                RefTargetKind::Bool => word(BOOL, 0, 0),
                RefTargetKind::Uptr => word(UPTR, 0, 0),
                RefTargetKind::Iptr => word(IPTR, 0, 0),
                RefTargetKind::Char => word(CHAR, 0, 0),
                RefTargetKind::Str => word(STR, 0, 0),
                RefTargetKind::String => word(STRING, 0, 0),
                RefTargetKind::Struct(id) => word(STRUCT, id.0, 0),
                RefTargetKind::Enum(id) => word(ENUM, id.0, id.1.to_u8()),
                RefTargetKind::SelfType => word(SELF_TYPE, 0, 0),
                RefTargetKind::Array(id) => word(ARRAY, id.0, 0),
                RefTargetKind::GenericParam(index) => word(GENERIC_PARAM, index as u32, 0),
                RefTargetKind::Infer(var) => word(INFER, var, 0),
                RefTargetKind::Never => word(NEVER, 0, 0),
                RefTargetKind::Error => word(ERROR, 0, 0),
            },
        )
    }

    pub closed spec fn unpacked(self) -> RefTargetKind {
        let t = tag(self.0);
        if t == UNIT {
            RefTargetKind::Unit
        } else if t == I8 {
            RefTargetKind::I8
        } else if t == U8 {
            RefTargetKind::U8
        } else if t == I16 {
            RefTargetKind::I16
        } else if t == U16 {
            RefTargetKind::U16
        } else if t == I32 {
            RefTargetKind::I32
        } else if t == U32 {
            RefTargetKind::U32
        } else if t == I64 {
            RefTargetKind::I64
        } else if t == U64 {
            RefTargetKind::U64
        } else if t == F32 {
            RefTargetKind::F32
        } else if t == F64 {
            RefTargetKind::F64
        } else if t == BOOL {
            RefTargetKind::Bool
        } else if t == UPTR {
            RefTargetKind::Uptr
        } else if t == IPTR {
            RefTargetKind::Iptr
        } else if t == CHAR {
            RefTargetKind::Char
        } else if t == STR {
            RefTargetKind::Str
        } else if t == STRING {
            RefTargetKind::String
        } else if t == STRUCT {
            RefTargetKind::Struct(StructId(index_of(self.0)))
        } else if t == ENUM {
            RefTargetKind::Enum(EnumId(index_of(self.0), EnumRepr::from_u8(repr_of(self.0))))
        } else if t == SELF_TYPE {
            RefTargetKind::SelfType
        } else if t == ARRAY {
            RefTargetKind::Array(ArrayId(index_of(self.0)))
        } else if t == GENERIC_PARAM {
            RefTargetKind::GenericParam(index_of(self.0) as u8)
        } else if t == INFER {
            RefTargetKind::Infer(index_of(self.0))
        } else if t == NEVER {
            RefTargetKind::Never
        } else {
            RefTargetKind::Error
        }
    }

    #[verifier::when_used_as_spec(packed)]
    pub fn new(kind: RefTargetKind) -> (target: Self)
        ensures
            target == RefTarget::packed(kind),
            target.unpacked() == kind,
    {
        proof {
            RefTarget::lemma_round_trip(kind);
        }
        RefTarget(match kind {
            RefTargetKind::Unit => pack(UNIT, 0, 0),
            RefTargetKind::I8 => pack(I8, 0, 0),
            RefTargetKind::U8 => pack(U8, 0, 0),
            RefTargetKind::I16 => pack(I16, 0, 0),
            RefTargetKind::U16 => pack(U16, 0, 0),
            RefTargetKind::I32 => pack(I32, 0, 0),
            RefTargetKind::U32 => pack(U32, 0, 0),
            RefTargetKind::I64 => pack(I64, 0, 0),
            RefTargetKind::U64 => pack(U64, 0, 0),
            RefTargetKind::F32 => pack(F32, 0, 0),
            RefTargetKind::F64 => pack(F64, 0, 0),
            RefTargetKind::Bool => pack(BOOL, 0, 0),
            RefTargetKind::Uptr => pack(UPTR, 0, 0),
            RefTargetKind::Iptr => pack(IPTR, 0, 0),
            RefTargetKind::Char => pack(CHAR, 0, 0),
            RefTargetKind::Str => pack(STR, 0, 0),
            RefTargetKind::String => pack(STRING, 0, 0),
            RefTargetKind::Struct(id) => pack(STRUCT, id.0, 0),
            RefTargetKind::Enum(id) => pack(ENUM, id.0, id.1.to_u8()),
            RefTargetKind::SelfType => pack(SELF_TYPE, 0, 0),
            RefTargetKind::Array(id) => pack(ARRAY, id.0, 0),
            RefTargetKind::GenericParam(index) => pack(GENERIC_PARAM, index as u32, 0),
            RefTargetKind::Infer(var) => pack(INFER, var, 0),
            RefTargetKind::Never => pack(NEVER, 0, 0),
            RefTargetKind::Error => pack(ERROR, 0, 0),
        })
    }

    #[verifier::when_used_as_spec(unpacked)]
    pub fn kind(self) -> (kind: RefTargetKind)
        ensures
            kind == self.unpacked(),
    {
        let packed: u64 = self.0;
        match tag(packed) {
            UNIT => RefTargetKind::Unit,
            I8 => RefTargetKind::I8,
            U8 => RefTargetKind::U8,
            I16 => RefTargetKind::I16,
            U16 => RefTargetKind::U16,
            I32 => RefTargetKind::I32,
            U32 => RefTargetKind::U32,
            I64 => RefTargetKind::I64,
            U64 => RefTargetKind::U64,
            F32 => RefTargetKind::F32,
            F64 => RefTargetKind::F64,
            BOOL => RefTargetKind::Bool,
            UPTR => RefTargetKind::Uptr,
            IPTR => RefTargetKind::Iptr,
            CHAR => RefTargetKind::Char,
            STR => RefTargetKind::Str,
            STRING => RefTargetKind::String,
            STRUCT => RefTargetKind::Struct(StructId(packed_index(packed))),
            ENUM => RefTargetKind::Enum(EnumId(packed_index(packed), EnumRepr::from_u8(packed_repr(packed)))),
            SELF_TYPE => RefTargetKind::SelfType,
            ARRAY => RefTargetKind::Array(ArrayId(packed_index(packed))),
            GENERIC_PARAM => RefTargetKind::GenericParam(#[verifier::truncate] (packed_index(packed) as u8)),
            INFER => RefTargetKind::Infer(packed_index(packed)),
            NEVER => RefTargetKind::Never,
            _ => RefTargetKind::Error,
        }
    }

    /// Unpacking a packed target gives the kind it was packed from.
    pub proof fn lemma_round_trip(kind: RefTargetKind)
        ensures
            RefTarget::new(kind).kind() == kind,
            RefTarget::new(kind).wf(),
    {
        RefTarget::lemma_packed_bounds(kind);
    }

    proof fn lemma_packed_bounds(kind: RefTargetKind)
        ensures
            RefTarget::packed(kind).unpacked() == kind,
            RefTarget::packed(kind).0 < 0x1_0000_0000_0000,
            tag(RefTarget::packed(kind).0) < 128,
            tag(RefTarget::packed(kind).0) != REF,
            tag(RefTarget::packed(kind).0) != SLICE,
    {
        let parts: (u8, u32, u8) = match kind {
            RefTargetKind::Unit => (UNIT, 0, 0),
            RefTargetKind::I8 => (I8, 0, 0),
            RefTargetKind::U8 => (U8, 0, 0),
            RefTargetKind::I16 => (I16, 0, 0),
            RefTargetKind::U16 => (U16, 0, 0),
            RefTargetKind::I32 => (I32, 0, 0),
            RefTargetKind::U32 => (U32, 0, 0),
            RefTargetKind::I64 => (I64, 0, 0),
            RefTargetKind::U64 => (U64, 0, 0),
            RefTargetKind::F32 => (F32, 0, 0),
            RefTargetKind::F64 => (F64, 0, 0),
            RefTargetKind::Bool => (BOOL, 0, 0),
            RefTargetKind::Uptr => (UPTR, 0, 0),
            RefTargetKind::Iptr => (IPTR, 0, 0),
            RefTargetKind::Char => (CHAR, 0, 0),
            RefTargetKind::Str => (STR, 0, 0),
            RefTargetKind::String => (STRING, 0, 0),
            RefTargetKind::Struct(id) => (STRUCT, id.0, 0),
            RefTargetKind::Enum(id) => (ENUM, id.0, id.1.to_u8()),
            RefTargetKind::SelfType => (SELF_TYPE, 0, 0),
            RefTargetKind::Array(id) => (ARRAY, id.0, 0),
            RefTargetKind::GenericParam(index) => (GENERIC_PARAM, index as u32, 0),
            RefTargetKind::Infer(var) => (INFER, var, 0),
            RefTargetKind::Never => (NEVER, 0, 0),
            RefTargetKind::Error => (ERROR, 0, 0),
        };
        lemma_word(parts.0, parts.1, parts.2);
        assert(RefTarget::packed(kind).0 == word(parts.0, parts.1, parts.2));
    }

    /// The target `typ` as a reference or slice target, unless it is a reference or slice itself.
    pub closed spec fn from_type_spec(typ: Type) -> Option<RefTarget> {
        if tag(typ.0) == REF || tag(typ.0) == SLICE {
            None
        } else {
            Some(RefTarget(typ.0))
        }
    }

    #[verifier::when_used_as_spec(from_type_spec)]
    pub fn from_type(typ: Type) -> (target: Option<RefTarget>)
        ensures
            target == RefTarget::from_type_spec(typ),
            target is None <==> (typ.kind() is Ref || typ.kind() is Slice),
            target matches Some(to) ==> Type::from_target(to) == typ,
    {
        let t: u8 = tag(typ.0);
        if t == REF || t == SLICE {
            None
        } else {
            Some(RefTarget(typ.0))
        }
    }
}

impl Type {
    /// Whether the word is one that [`Type::new`] makes of well-formed parts.
    pub closed spec fn wf(self) -> bool {
        &&& self == Type::new(self.kind())
        &&& (self.kind() matches TypeKind::Ref { mutable, to } ==> to.wf())
        &&& (self.kind() matches TypeKind::Slice { mutable, element } ==> element.wf())
    }

    pub closed spec fn packed(kind: TypeKind) -> Type {
        Type(
            match kind {
                TypeKind::Unit => word(UNIT, 0, 0),
                TypeKind::I8 => word(I8, 0, 0),
                TypeKind::U8 => word(U8, 0, 0),
                TypeKind::I16 => word(I16, 0, 0),
                TypeKind::U16 => word(U16, 0, 0),
                TypeKind::I32 => word(I32, 0, 0),
                TypeKind::U32 => word(U32, 0, 0),
                TypeKind::I64 => word(I64, 0, 0),
                TypeKind::U64 => word(U64, 0, 0),
                TypeKind::F32 => word(F32, 0, 0),
                TypeKind::F64 => word(F64, 0, 0),
                TypeKind::Bool => word(BOOL, 0, 0),
                TypeKind::Uptr => word(UPTR, 0, 0),
                TypeKind::Iptr => word(IPTR, 0, 0),
                TypeKind::Char => word(CHAR, 0, 0),
                TypeKind::Str => word(STR, 0, 0),
                TypeKind::String => word(STRING, 0, 0),
                TypeKind::Struct(id) => word(STRUCT, id.0, 0),
                TypeKind::Enum(id) => word(ENUM, id.0, id.1.to_u8()),
                TypeKind::SelfType => word(SELF_TYPE, 0, 0),
                TypeKind::Array(id) => word(ARRAY, id.0, 0),
                TypeKind::GenericParam(index) => word(GENERIC_PARAM, index as u32, 0),
                TypeKind::Infer(var) => word(INFER, var, 0),
                TypeKind::Never => word(NEVER, 0, 0),
                TypeKind::Error => word(ERROR, 0, 0),
                TypeKind::Ref { mutable, to } => pointer_word(REF, mutable, to.0),
                TypeKind::Slice { mutable, element } => pointer_word(SLICE, mutable, element.0),
            },
        )
    }

    pub closed spec fn unpacked(self) -> TypeKind {
        let t = tag(self.0);
        if t == UNIT {
            TypeKind::Unit
        } else if t == I8 {
            TypeKind::I8
        } else if t == U8 {
            TypeKind::U8
        } else if t == I16 {
            TypeKind::I16
        } else if t == U16 {
            TypeKind::U16
        } else if t == I32 {
            TypeKind::I32
        } else if t == U32 {
            TypeKind::U32
        } else if t == I64 {
            TypeKind::I64
        } else if t == U64 {
            TypeKind::U64
        } else if t == F32 {
            TypeKind::F32
        } else if t == F64 {
            TypeKind::F64
        } else if t == BOOL {
            TypeKind::Bool
        } else if t == UPTR {
            TypeKind::Uptr
        } else if t == IPTR {
            TypeKind::Iptr
        } else if t == CHAR {
            TypeKind::Char
        } else if t == STR {
            TypeKind::Str
        } else if t == STRING {
            TypeKind::String
        } else if t == STRUCT {
            TypeKind::Struct(StructId(index_of(self.0)))
        } else if t == ENUM {
            TypeKind::Enum(EnumId(index_of(self.0), EnumRepr::from_u8(repr_of(self.0))))
        } else if t == SELF_TYPE {
            TypeKind::SelfType
        } else if t == ARRAY {
            TypeKind::Array(ArrayId(index_of(self.0)))
        } else if t == GENERIC_PARAM {
            TypeKind::GenericParam(index_of(self.0) as u8)
        } else if t == INFER {
            TypeKind::Infer(index_of(self.0))
        } else if t == NEVER {
            TypeKind::Never
        } else if t == REF {
            TypeKind::Ref { mutable: ((self.0 >> 8) & 1) != 0, to: RefTarget(pointee_word(self.0)) }
        } else if t == SLICE {
            TypeKind::Slice { mutable: ((self.0 >> 8) & 1) != 0, element: RefTarget(pointee_word(self.0)) }
        } else {
            TypeKind::Error
        }
    }

    #[verifier::when_used_as_spec(packed)]
    pub fn new(kind: TypeKind) -> (typ: Self)
        ensures
            typ == Type::packed(kind),
    {
        Type(match kind {
            TypeKind::Unit => pack(UNIT, 0, 0),
            TypeKind::I8 => pack(I8, 0, 0),
            TypeKind::U8 => pack(U8, 0, 0),
            TypeKind::I16 => pack(I16, 0, 0),
            TypeKind::U16 => pack(U16, 0, 0),
            TypeKind::I32 => pack(I32, 0, 0),
            TypeKind::U32 => pack(U32, 0, 0),
            TypeKind::I64 => pack(I64, 0, 0),
            TypeKind::U64 => pack(U64, 0, 0),
            TypeKind::F32 => pack(F32, 0, 0),
            TypeKind::F64 => pack(F64, 0, 0),
            TypeKind::Bool => pack(BOOL, 0, 0),
            TypeKind::Uptr => pack(UPTR, 0, 0),
            TypeKind::Iptr => pack(IPTR, 0, 0),
            TypeKind::Char => pack(CHAR, 0, 0),
            TypeKind::Str => pack(STR, 0, 0),
            TypeKind::String => pack(STRING, 0, 0),
            TypeKind::Struct(id) => pack(STRUCT, id.0, 0),
            TypeKind::Enum(id) => pack(ENUM, id.0, id.1.to_u8()),
            TypeKind::SelfType => pack(SELF_TYPE, 0, 0),
            TypeKind::Array(id) => pack(ARRAY, id.0, 0),
            TypeKind::GenericParam(index) => pack(GENERIC_PARAM, index as u32, 0),
            TypeKind::Infer(var) => pack(INFER, var, 0),
            TypeKind::Never => pack(NEVER, 0, 0),
            TypeKind::Error => pack(ERROR, 0, 0),
            TypeKind::Ref { mutable, to } => pack_pointer(REF, mutable, to),
            TypeKind::Slice { mutable, element } => pack_pointer(SLICE, mutable, element),
        })
    }

    #[verifier::when_used_as_spec(unpacked)]
    pub fn kind(self) -> (kind: TypeKind)
        ensures
            kind == self.unpacked(),
    {
        let packed: u64 = self.0;
        match tag(packed) {
            UNIT => TypeKind::Unit,
            I8 => TypeKind::I8,
            U8 => TypeKind::U8,
            I16 => TypeKind::I16,
            U16 => TypeKind::U16,
            I32 => TypeKind::I32,
            U32 => TypeKind::U32,
            I64 => TypeKind::I64,
            U64 => TypeKind::U64,
            F32 => TypeKind::F32,
            F64 => TypeKind::F64,
            BOOL => TypeKind::Bool,
            UPTR => TypeKind::Uptr,
            IPTR => TypeKind::Iptr,
            CHAR => TypeKind::Char,
            STR => TypeKind::Str,
            STRING => TypeKind::String,
            STRUCT => TypeKind::Struct(StructId(packed_index(packed))),
            ENUM => TypeKind::Enum(EnumId(packed_index(packed), EnumRepr::from_u8(packed_repr(packed)))),
            SELF_TYPE => TypeKind::SelfType,
            ARRAY => TypeKind::Array(ArrayId(packed_index(packed))),
            GENERIC_PARAM => TypeKind::GenericParam(#[verifier::truncate] (packed_index(packed) as u8)),
            INFER => TypeKind::Infer(packed_index(packed)),
            NEVER => TypeKind::Never,
            REF => TypeKind::Ref { mutable: ((packed >> 8) & 1) != 0, to: pointee(packed) },
            SLICE => TypeKind::Slice { mutable: ((packed >> 8) & 1) != 0, element: pointee(packed) },
            _ => TypeKind::Error,
        }
    }

    /// Whether a kind only mentions well-formed targets.
    pub open spec fn kind_wf(kind: TypeKind) -> bool {
        match kind {
            TypeKind::Ref { mutable, to } => to.wf(),
            TypeKind::Slice { mutable, element } => element.wf(),
            _ => true,
        }
    }

    /// Unpacking a packed type gives the kind it was packed from.
    pub proof fn lemma_round_trip(kind: TypeKind)
        requires
            Type::kind_wf(kind),
        ensures
            Type::new(kind).kind() == kind,
            Type::new(kind).wf(),
    {
        let parts: (u8, u32, u8) = match kind {
            TypeKind::Unit => (UNIT, 0, 0),
            TypeKind::I8 => (I8, 0, 0),
            TypeKind::U8 => (U8, 0, 0),
            TypeKind::I16 => (I16, 0, 0),
            TypeKind::U16 => (U16, 0, 0),
            TypeKind::I32 => (I32, 0, 0),
            TypeKind::U32 => (U32, 0, 0),
            TypeKind::I64 => (I64, 0, 0),
            TypeKind::U64 => (U64, 0, 0),
            TypeKind::F32 => (F32, 0, 0),
            TypeKind::F64 => (F64, 0, 0),
            TypeKind::Bool => (BOOL, 0, 0),
            TypeKind::Uptr => (UPTR, 0, 0),
            TypeKind::Iptr => (IPTR, 0, 0),
            TypeKind::Char => (CHAR, 0, 0),
            TypeKind::Str => (STR, 0, 0),
            TypeKind::String => (STRING, 0, 0),
            TypeKind::Struct(id) => (STRUCT, id.0, 0),
            TypeKind::Enum(id) => (ENUM, id.0, id.1.to_u8()),
            TypeKind::SelfType => (SELF_TYPE, 0, 0),
            TypeKind::Array(id) => (ARRAY, id.0, 0),
            TypeKind::GenericParam(index) => (GENERIC_PARAM, index as u32, 0),
            TypeKind::Infer(var) => (INFER, var, 0),
            TypeKind::Never => (NEVER, 0, 0),
            TypeKind::Error => (ERROR, 0, 0),
            TypeKind::Ref { mutable, to } => {
                RefTarget::lemma_packed_bounds(to.kind());
                lemma_pointer_word(REF, mutable, to.0);
                (0, 0, 0)
            },
            TypeKind::Slice { mutable, element } => {
                RefTarget::lemma_packed_bounds(element.kind());
                lemma_pointer_word(SLICE, mutable, element.0);
                (0, 0, 0)
            },
        };
        lemma_word(parts.0, parts.1, parts.2);
    }

    /// Types are equal exactly when their kinds are.
    pub proof fn lemma_kind_injective(self, other: Type)
        requires
            self.wf(),
            other.wf(),
        ensures
            self == other <==> self.kind() == other.kind(),
    {
    }

    /// Different kinds pack to different types.
    pub proof fn lemma_new_injective(left: TypeKind, right: TypeKind)
        requires
            Type::kind_wf(left),
            Type::kind_wf(right),
        ensures
            Type::new(left) == Type::new(right) <==> left == right,
    {
        Type::lemma_round_trip(left);
        Type::lemma_round_trip(right);
    }

    pub closed spec fn from_target_spec(target: RefTarget) -> Type {
        Type(target.0)
    }

    /// The target itself as a type.
    #[verifier::when_used_as_spec(from_target_spec)]
    pub fn from_target(target: RefTarget) -> (typ: Type)
        ensures
            typ == Type::from_target_spec(target),
    {
        Type(target.0)
    }

    /// A target survives the way through a type, and has the same kind there: never that of a
    /// reference or slice.
    pub proof fn lemma_from_target(target: RefTarget)
        requires
            target.wf(),
        ensures
            RefTarget::from_type(Type::from_target(target)) == Some(target),
            Type::from_target(target).wf(),
            Type::from_target(target).kind() == target.kind().as_type(),
            !(Type::from_target(target).kind() is Ref),
            !(Type::from_target(target).kind() is Slice),
    {
        RefTarget::lemma_packed_bounds(target.kind());
        let kind = Type::from_target(target).kind();
        assert(Type::new(kind) == Type::from_target(target));
    }

    /// A type that is neither a reference nor a slice survives the way through a target.
    pub proof fn lemma_to_target(self)
        requires
            self.wf(),
        ensures
            match RefTarget::from_type(self) {
                Some(target) => target.wf() && Type::from_target(target) == self,
                None => self.kind() is Ref || self.kind() is Slice,
            },
    {
        if RefTarget::from_type(self) is Some {
            let target = RefTarget(self.0);
            Type::lemma_round_trip(self.kind());
            assert(RefTarget::packed(target.unpacked()).0 == Type::packed(self.unpacked()).0);
        }
    }

    /// Whether the word of a type fits where a target's does.
    pub closed spec fn fits_target(self) -> bool {
        tag(self.0) < 128
    }

    /// What a reference or slice is of is itself neither, and a type of any kind but that of
    /// errors fits where a target's does.
    pub proof fn lemma_targets(self)
        ensures
            self.kind() matches TypeKind::Ref { mutable, to } ==> {
                let typ = Type::from_target(to);
                !(typ.kind() is Ref) && !(typ.kind() is Slice) && typ.fits_target()
            },
            self.kind() matches TypeKind::Slice { mutable, element } ==> {
                let typ = Type::from_target(element);
                !(typ.kind() is Ref) && !(typ.kind() is Slice) && typ.fits_target()
            },
            !(self.kind() is Error) ==> self.fits_target(),
            Type::new(TypeKind::Error).fits_target(),
            Type::new(TypeKind::Error).kind() is Error,
    {
        let w = self.0;
        let r = ((w >> 8) & !0xFFu64) | ((w >> 9) & 0x7F);
        assert(((r & 0xFF) as u8) < 128) by (bit_vector)
            requires
                r == ((w >> 8) & !0xFFu64) | ((w >> 9) & 0x7F),
        ;
        lemma_word(ERROR, 0, 0);
    }

    /// A reference or slice of a type is of that kind of type.
    pub proof fn lemma_pointed(self, mutable: bool)
        requires
            self.fits_target(),
            !(self.kind() is Ref),
            !(self.kind() is Slice),
        ensures
            RefTarget::from_type(self) matches Some(target) && {
                &&& Type::refer(target, mutable).kind() matches TypeKind::Ref { mutable: flag, to }
                    && flag == mutable && Type::from_target(to).kind() == self.kind()
                &&& Type::slice(target, mutable).kind() matches TypeKind::Slice {
                    mutable: flag,
                    element,
                } && flag == mutable && Type::from_target(element).kind() == self.kind()
            },
    {
        lemma_pointer_tag(REF, mutable, self.0);
        lemma_pointer_tag(SLICE, mutable, self.0);
        lemma_pointer_bits(REF, mutable, self.0);
        lemma_pointer_bits(SLICE, mutable, self.0);
    }

    /// The tag of a packed type is the position of its kind, whatever the kind carries.
    pub proof fn lemma_tag(kind: TypeKind)
        ensures
            tag(Type::new(kind).bits()) == kind.position(),
            Type::new(kind).kind().position() == kind.position(),
    {
        match kind {
            TypeKind::Ref { mutable, to } => {
                lemma_pointer_tag(REF, mutable, to.0);
            },
            TypeKind::Slice { mutable, element } => {
                lemma_pointer_tag(SLICE, mutable, element.0);
            },
            TypeKind::Struct(id) => {
                lemma_word(STRUCT, id.0, 0);
            },
            TypeKind::Enum(id) => {
                lemma_word(ENUM, id.0, id.1.to_u8());
            },
            TypeKind::Array(id) => {
                lemma_word(ARRAY, id.0, 0);
            },
            TypeKind::GenericParam(index) => {
                lemma_word(GENERIC_PARAM, index as u32, 0);
            },
            TypeKind::Infer(var) => {
                lemma_word(INFER, var, 0);
            },
            _ => {
                lemma_word(kind.position(), 0, 0);
            },
        }
    }

    /// What a well-formed type refers to is well-formed.
    pub proof fn lemma_parts_wf(self)
        requires
            self.wf(),
        ensures
            Type::kind_wf(self.kind()),
    {
    }

    pub closed spec fn bits_spec(self) -> u64 {
        self.0
    }

    /// The packed word.
    #[verifier::when_used_as_spec(bits_spec)]
    pub fn bits(self) -> (bits: u64)
        ensures
            bits == self.bits_spec(),
    {
        self.0
    }

    /// A type is determined by its word.
    pub proof fn lemma_bits_injective(self, other: Type)
        ensures
            self.bits() == other.bits() <==> self == other,
    {
    }

    pub open spec fn is_integer_kind(kind: TypeKind) -> bool {
        match kind {
            TypeKind::I8 | TypeKind::U8 | TypeKind::I16 | TypeKind::U16 | TypeKind::I32
            | TypeKind::U32 | TypeKind::I64 | TypeKind::U64 | TypeKind::Uptr
            | TypeKind::Iptr => true,
            _ => false,
        }
    }

    #[verifier::allow_in_spec]
    pub fn is_integer(self) -> bool
        returns
            Type::is_integer_kind(self.kind()),
    {
        let t: u8 = tag(self.0);
        (t >= I8 && t <= U64) || t == UPTR || t == IPTR
    }

    #[verifier::allow_in_spec]
    pub fn is_float(self) -> bool
        returns
            self.kind() is F32 || self.kind() is F64,
    {
        let t: u8 = tag(self.0);
        t == F32 || t == F64
    }

    #[verifier::allow_in_spec]
    pub fn is_number(self) -> bool
        returns
            self.is_integer() || self.is_float(),
    {
        self.is_integer() || self.is_float()
    }

    #[verifier::allow_in_spec]
    pub fn is_32_bit(self) -> bool
        returns
            self.kind() is F32 || self.kind() is I32 || self.kind() is U32,
    {
        let t: u8 = tag(self.0);
        t == F32 || t == I32 || t == U32
    }

    /// Whether a value of this type can be cast to another primitive.
    #[verifier::allow_in_spec]
    pub fn is_primitive_castable(self) -> bool
        returns
            self.is_integer() || self.kind() is Bool || self.kind() is Char,
    {
        let t: u8 = tag(self.0);
        (t >= I8 && t <= U64) || t == UPTR || t == IPTR || t == BOOL || t == CHAR
    }

    /// The type behind a reference, or the type itself.
    #[verifier::allow_in_spec]
    pub fn strip_reference(self) -> Type
        returns
            (match self.kind() {
                TypeKind::Ref { mutable, to } => Type::from_target(to),
                _ => self,
            }),
    {
        match self.kind() {
            TypeKind::Ref { to, .. } => Type::from_target(to),
            _ => self,
        }
    }

    #[verifier::allow_in_spec]
    pub fn is_infer(self) -> bool
        returns
            self.kind() is Infer,
    {
        tag(self.0) == INFER
    }

    /// The inference variable this type stands for, if any.
    #[verifier::allow_in_spec]
    pub fn infer_var(self) -> Option<u32>
        returns
            (match self.kind() {
                TypeKind::Infer(var) => Some(var),
                _ => None,
            }),
    {
        match self.kind() {
            TypeKind::Infer(var) => Some(var),
            _ => None,
        }
    }

    #[verifier::allow_in_spec]
    pub fn is_error(self) -> bool
        returns
            self.kind() is Error,
    {
        match self.kind() {
            TypeKind::Error => true,
            _ => false,
        }
    }

    /// Whether an expression of this type never yields a value to its context.
    #[verifier::allow_in_spec]
    pub fn diverges(self) -> bool
        returns
            self.kind() is Never,
    {
        match self.kind() {
            TypeKind::Never => true,
            _ => false,
        }
    }

    #[verifier::allow_in_spec]
    pub fn structure(id: StructId) -> Type
        returns
            Type::new(TypeKind::Struct(id)),
    {
        Type::new(TypeKind::Struct(id))
    }

    #[verifier::allow_in_spec]
    pub fn enumerable(id: EnumId) -> Type
        returns
            Type::new(TypeKind::Enum(id)),
    {
        Type::new(TypeKind::Enum(id))
    }

    #[verifier::allow_in_spec]
    pub fn array(id: ArrayId) -> Type
        returns
            Type::new(TypeKind::Array(id)),
    {
        Type::new(TypeKind::Array(id))
    }

    #[verifier::allow_in_spec]
    pub fn slice(element: RefTarget, mutable: bool) -> Type
        returns
            Type::new(TypeKind::Slice { mutable, element }),
    {
        Type::new(TypeKind::Slice { mutable, element })
    }

    #[verifier::allow_in_spec]
    pub fn refer(to: RefTarget, mutable: bool) -> Type
        returns
            Type::new(TypeKind::Ref { mutable, to }),
    {
        Type::new(TypeKind::Ref { mutable, to })
    }

    #[verifier::allow_in_spec]
    pub fn generic_param(index: u8) -> Type
        returns
            Type::new(TypeKind::GenericParam(index)),
    {
        Type::new(TypeKind::GenericParam(index))
    }

    /// The type of a `&self` or `&mut self` receiver.
    #[verifier::allow_in_spec]
    pub fn receiver_ref(receiver: Type, mutable: bool) -> Type
        returns
            (match RefTarget::from_type(receiver) {
                Some(to) => Type::refer(to, mutable),
                None => receiver,
            }),
    {
        match RefTarget::from_type(receiver) {
            Some(to) => Type::refer(to, mutable),
            None => receiver,
        }
    }

    /// The type with its generic parameter replaced, where `args` has one.
    pub open spec fn subst_param(self, args: Seq<Type>) -> Type {
        match self.kind() {
            TypeKind::GenericParam(index) => if index < args.len() {
                args[index as int]
            } else {
                self
            },
            _ => self,
        }
    }

    /// The type with every generic parameter replaced.
    pub open spec fn subst_spec(self, args: Seq<Type>) -> Type {
        match self.kind() {
            TypeKind::Ref { mutable, to } => match RefTarget::from_type(
                Type::from_target(to).subst_param(args),
            ) {
                Some(to) => Type::refer(to, mutable),
                None => self,
            },
            TypeKind::Slice { mutable, element } => match RefTarget::from_type(
                Type::from_target(element).subst_param(args),
            ) {
                Some(element) => Type::slice(element, mutable),
                None => self,
            },
            _ => self.subst_param(args),
        }
    }

    fn substitute_param(self, args: &[Type]) -> (typ: Type)
        ensures
            typ == self.subst_param(args@),
    {
        match self.kind() {
            TypeKind::GenericParam(index) => {
                let at: usize = index as usize;
                if at < args.len() {
                    args[at]
                } else {
                    self
                }
            },
            _ => self,
        }
    }

    pub fn subst(self, args: &[Type]) -> (typ: Type)
        ensures
            typ == self.subst_spec(args@),
    {
        match self.kind() {
            TypeKind::Ref { mutable, to } => match RefTarget::from_type(
                Type::from_target(to).substitute_param(args),
            ) {
                Some(to) => Type::refer(to, mutable),
                None => self,
            },
            TypeKind::Slice { mutable, element } => match RefTarget::from_type(
                Type::from_target(element).substitute_param(args),
            ) {
                Some(element) => Type::slice(element, mutable),
                None => self,
            },
            _ => self.substitute_param(args),
        }
    }

    /// A type without generic parameters at its top is left alone.
    pub proof fn lemma_subst_closed(self, args: Seq<Type>)
        requires
            !(self.kind() is GenericParam),
            !(self.kind() is Ref),
            !(self.kind() is Slice),
        ensures
            self.subst_spec(args) == self,
    {
    }

    /// The primitive type an annotation names.
    pub open spec fn from_primitive_ast_spec(annotation: ast::Type) -> Option<Type> {
        match annotation {
            ast::Type::I8 => Some(Type::new(TypeKind::I8)),
            ast::Type::U8 => Some(Type::new(TypeKind::U8)),
            ast::Type::I16 => Some(Type::new(TypeKind::I16)),
            ast::Type::U16 => Some(Type::new(TypeKind::U16)),
            ast::Type::I32 => Some(Type::new(TypeKind::I32)),
            ast::Type::U32 => Some(Type::new(TypeKind::U32)),
            ast::Type::I64 => Some(Type::new(TypeKind::I64)),
            ast::Type::U64 => Some(Type::new(TypeKind::U64)),
            ast::Type::F32 => Some(Type::new(TypeKind::F32)),
            ast::Type::F64 => Some(Type::new(TypeKind::F64)),
            ast::Type::Bool => Some(Type::new(TypeKind::Bool)),
            ast::Type::Uptr => Some(Type::new(TypeKind::Uptr)),
            ast::Type::Iptr => Some(Type::new(TypeKind::Iptr)),
            ast::Type::Char => Some(Type::new(TypeKind::Char)),
            ast::Type::Str => Some(Type::new(TypeKind::Str)),
            ast::Type::String => Some(Type::new(TypeKind::String)),
            ast::Type::Unit => Some(Type::new(TypeKind::Unit)),
            ast::Type::Never => Some(Type::new(TypeKind::Never)),
            _ => None,
        }
    }

    pub fn from_primitive_ast(annotation: &ast::Type) -> (typ: Option<Type>)
        ensures
            typ == Type::from_primitive_ast_spec(*annotation),
    {
        let kind = match *annotation {
            ast::Type::I8 => TypeKind::I8,
            ast::Type::U8 => TypeKind::U8,
            ast::Type::I16 => TypeKind::I16,
            ast::Type::U16 => TypeKind::U16,
            ast::Type::I32 => TypeKind::I32,
            ast::Type::U32 => TypeKind::U32,
            ast::Type::I64 => TypeKind::I64,
            ast::Type::U64 => TypeKind::U64,
            ast::Type::F32 => TypeKind::F32,
            ast::Type::F64 => TypeKind::F64,
            ast::Type::Bool => TypeKind::Bool,
            ast::Type::Uptr => TypeKind::Uptr,
            ast::Type::Iptr => TypeKind::Iptr,
            ast::Type::Char => TypeKind::Char,
            ast::Type::Str => TypeKind::Str,
            ast::Type::String => TypeKind::String,
            ast::Type::Unit => TypeKind::Unit,
            ast::Type::Never => TypeKind::Never,
            _ => return None,
        };
        Some(Type::new(kind))
    }
}

impl From<TypeKind> for Type {
    fn from(kind: TypeKind) -> (typ: Type) {
        Type::new(kind)
    }
}

impl vstd::std_specs::convert::FromSpecImpl<TypeKind> for Type {
    open spec fn obeys_from_spec() -> bool {
        true
    }

    open spec fn from_spec(kind: TypeKind) -> Type {
        Type::new(kind)
    }
}

impl From<RefTarget> for Type {
    fn from(target: RefTarget) -> (typ: Type) {
        Type::from_target(target)
    }
}

impl vstd::std_specs::convert::FromSpecImpl<RefTarget> for Type {
    open spec fn obeys_from_spec() -> bool {
        true
    }

    open spec fn from_spec(target: RefTarget) -> Type {
        Type::from_target(target)
    }
}

impl Default for Type {
    fn default() -> (typ: Type)
        ensures
            typ == Type::new(TypeKind::Unit),
    {
        Type::new(TypeKind::Unit)
    }
}

/// The discriminant of the variant at `index`: the one written, or one more than the one before.
pub open spec fn discriminant(variants: Seq<ast::EnumVariant>, index: int) -> i64
    decreases index,
{
    match variants[index].value {
        Some(value) => value,
        None => if index <= 0 {
            0
        } else {
            discriminant(variants, index - 1).wrapping_add(1)
        },
    }
}

pub open spec fn discriminants_within(variants: Seq<ast::EnumVariant>, low: int, high: int) -> bool {
    forall|i: int| 0 <= i < variants.len() ==> low <= #[trigger] discriminant(variants, i) <= high
}

impl EnumRepr {
    /// The representation an annotation names.
    pub open spec fn from_ast_spec(annotation: ast::Type) -> Option<EnumRepr> {
        match annotation {
            ast::Type::I8 => Some(EnumRepr::I8),
            ast::Type::U8 => Some(EnumRepr::U8),
            ast::Type::I16 => Some(EnumRepr::I16),
            ast::Type::U16 => Some(EnumRepr::U16),
            ast::Type::I32 => Some(EnumRepr::I32),
            ast::Type::U32 => Some(EnumRepr::U32),
            ast::Type::I64 => Some(EnumRepr::I64),
            ast::Type::U64 => Some(EnumRepr::U64),
            ast::Type::Iptr => Some(EnumRepr::Iptr),
            ast::Type::Uptr => Some(EnumRepr::Uptr),
            _ => None,
        }
    }

    pub fn from_ast(annotation: &ast::Type) -> (repr: Option<EnumRepr>)
        ensures
            repr == EnumRepr::from_ast_spec(*annotation),
    {
        match *annotation {
            ast::Type::I8 => Some(EnumRepr::I8),
            ast::Type::U8 => Some(EnumRepr::U8),
            ast::Type::I16 => Some(EnumRepr::I16),
            ast::Type::U16 => Some(EnumRepr::U16),
            ast::Type::I32 => Some(EnumRepr::I32),
            ast::Type::U32 => Some(EnumRepr::U32),
            ast::Type::I64 => Some(EnumRepr::I64),
            ast::Type::U64 => Some(EnumRepr::U64),
            ast::Type::Iptr => Some(EnumRepr::Iptr),
            ast::Type::Uptr => Some(EnumRepr::Uptr),
            _ => None,
        }
    }

    /// The representation of an enum that names none: `i32` if a variant has a payload, else
    /// the smallest that holds every discriminant.
    pub open spec fn minimal_for_spec(variants: Seq<ast::EnumVariant>) -> EnumRepr {
        if exists|i: int| 0 <= i < variants.len() && (#[trigger] variants[i]).payload is Some {
            EnumRepr::I32
        } else if discriminants_within(variants, 0, 0xFF) {
            EnumRepr::U8
        } else if discriminants_within(variants, -0x80, 0x7F) {
            EnumRepr::I8
        } else if discriminants_within(variants, 0, 0xFFFF) {
            EnumRepr::U16
        } else if discriminants_within(variants, -0x8000, 0x7FFF) {
            EnumRepr::I16
        } else if discriminants_within(variants, 0, 0xFFFF_FFFF) {
            EnumRepr::U32
        } else if discriminants_within(variants, -0x8000_0000, 0x7FFF_FFFF) {
            EnumRepr::I32
        } else {
            EnumRepr::I64
        }
    }

    pub fn minimal_for(variants: &Vec<ast::EnumVariant>) -> (repr: EnumRepr)
        ensures
            repr == EnumRepr::minimal_for_spec(variants@),
    {
        let mut low: i64 = 0;
        let mut high: i64 = 0;
        let mut next: i64 = 0;
        let mut i: usize = 0;
        let ghost mut lowest: int = -1;
        let ghost mut highest: int = -1;
        while i < variants.len()
            invariant
                i <= variants@.len(),
                forall|j: int| 0 <= j < i ==> (#[trigger] variants@[j]).payload is None,
                i > 0 ==> next == discriminant(variants@, i - 1).wrapping_add(1),
                i == 0 ==> next == 0,
                forall|j: int| 0 <= j < i ==> low <= #[trigger] discriminant(variants@, j) <= high,
                low <= 0 <= high,
                low != 0 ==> 0 <= lowest < i && discriminant(variants@, lowest) == low,
                high != 0 ==> 0 <= highest < i && discriminant(variants@, highest) == high,
            decreases variants@.len() - i,
        {
            let variant = variants[i];
            if variant.payload.is_some() {
                return EnumRepr::I32;
            }
            let value: i64 = match variant.value {
                Some(value) => value,
                None => next,
            };
            assert(value == discriminant(variants@, i as int));
            if value < low {
                low = value;
                proof {
                    lowest = i as int;
                }
            }
            if value > high {
                high = value;
                proof {
                    highest = i as int;
                }
            }
            next = value.wrapping_add(1);
            i += 1;
        }
        if low >= 0 && high <= 0xFF {
            EnumRepr::U8
        } else if low >= -0x80 && high <= 0x7F {
            EnumRepr::I8
        } else if low >= 0 && high <= 0xFFFF {
            EnumRepr::U16
        } else if low >= -0x8000 && high <= 0x7FFF {
            EnumRepr::I16
        } else if low >= 0 && high <= 0xFFFF_FFFF {
            EnumRepr::U32
        } else if low >= -0x8000_0000 && high <= 0x7FFF_FFFF {
            EnumRepr::I32
        } else {
            EnumRepr::I64
        }
    }
}

} // verus!
