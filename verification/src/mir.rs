//! The mid-level IR: functions as blocks of three-address instructions.

use crate::hir::tree::FunctionId;
use vstd::prelude::*;

verus! {

/// The type of a value that lives in a register or a stack slot.
#[derive(Debug, Clone, Copy, PartialEq, Eq, Structural)]
pub enum ValueType {
    I8,
    U8,
    I16,
    U16,
    I32,
    U32,
    I64,
    U64,
    F32,
    F64,
    Bool,
    Uptr,
    Iptr,
    Char,
    Str,
    String,
    Unit,
}

impl ValueType {
    #[verifier::allow_in_spec]
    pub fn is_float(self) -> bool
        returns
            self == ValueType::F32 || self == ValueType::F64,
    {
        self == ValueType::F32 || self == ValueType::F64
    }
}

#[derive(Debug, Clone, Copy, PartialEq, Eq, Structural, Hash)]
pub struct ValueId(pub u32);

#[derive(Debug, Clone, Copy, PartialEq, Eq, Structural, Hash)]
pub struct BlockId(pub u32);

/// A value and its type.
#[derive(Debug, Clone, Copy, PartialEq, Eq, Structural)]
pub struct Place {
    pub id: ValueId,
    pub typ: ValueType,
}

/// A floating-point number, by its bits in either precision.
#[derive(Debug, Clone, Copy, PartialEq, Eq, Structural)]
pub struct FloatBits {
    pub single: u32,
    pub double: u64,
}

#[derive(Debug, Clone, Copy, PartialEq, Eq, Structural)]
pub enum Const {
    Int(i64, ValueType),
    Bool(bool),
    Char(char),
    Float(FloatBits, ValueType),
}

#[derive(Debug, Clone, Copy, PartialEq, Eq, Structural)]
pub enum Operand {
    Place(Place),
    Const(Const),
}

impl Operand {
    #[verifier::allow_in_spec]
    pub fn typ(self) -> ValueType
        returns
            (match self {
                Operand::Place(place) => place.typ,
                Operand::Const(Const::Int(_, typ)) => typ,
                Operand::Const(Const::Bool(_)) => ValueType::Bool,
                Operand::Const(Const::Char(_)) => ValueType::Char,
                Operand::Const(Const::Float(_, typ)) => typ,
            }),
    {
        match self {
            Operand::Place(place) => place.typ,
            Operand::Const(Const::Int(_, typ)) => typ,
            Operand::Const(Const::Bool(_)) => ValueType::Bool,
            Operand::Const(Const::Char(_)) => ValueType::Char,
            Operand::Const(Const::Float(_, typ)) => typ,
        }
    }
}

#[derive(Debug, Clone, Copy, PartialEq, Eq, Structural)]
pub enum UnaryOperation {
    Neg,
    Not,
}

#[derive(Debug, Clone, Copy, PartialEq, Eq, Structural)]
pub enum BinaryOperation {
    Add,
    Sub,
    Mul,
    Div,
    Eq,
    Ne,
    Lt,
    LtEq,
    Gt,
    GtEq,
    And,
    Or,
}

#[derive(Debug)]
pub enum InstructionKind {
    Assign(Operand),
    Unary { operation: UnaryOperation, rhs: Operand },
    Binary { operation: BinaryOperation, lhs: Operand, rhs: Operand },
    Call { callee: FunctionId, args: Vec<Operand> },
}

/// `dest = kind`
#[derive(Debug)]
pub struct Instruction {
    pub dest: Place,
    pub kind: InstructionKind,
}

#[derive(Debug, Clone, Copy)]
pub enum Terminator {
    Return(Option<Operand>),
    Jump(BlockId),
    Branch { condition: Operand, then_block: BlockId, else_block: BlockId },
    Unreachable,
}

#[derive(Debug)]
pub struct Block {
    pub instructions: Vec<Instruction>,
    pub terminator: Terminator,
}

#[derive(Debug)]
pub struct Function {
    /// Index of the name in the program's symbols
    pub name_symbol: usize,
    pub params: Vec<(ValueId, ValueType)>,
    pub blocks: Vec<Block>,
}

#[derive(Debug)]
pub struct Mir {
    pub functions: Vec<Function>,
    pub symbols: Vec<String>,
}

} // verus!
