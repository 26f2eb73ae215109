//! What the emitted instructions do: a machine that runs them, and why they compute what the
//! operations mean.

use crate::codegen::x86_64::{
    arg_reg, block_label, each, find_float, float_bits, function_code, function_label,
    functions_code, is_rax, lemma_saved_restored, program_code, reg_name, return_reg, set_name,
    start_code, update_form, Emission, FloatEntry,
};
use crate::mir::{
    BinaryOperation, Block, Const, FloatBits, Function, Instruction, InstructionKind, Operand,
    Terminator, UnaryOperation, ValueId, ValueType,
};
use crate::regalloc::{Allocation, Location, Reg};
use crate::text::{
    decimal, lemma_decimal_digits, lemma_decimal_injective, signed_decimal,
};
use crate::value_laws::{divides_to, magnitude};
use vstd::prelude::*;

verus! {

/// What an instruction reads or writes: a register, a value in the frame, a number, or the top of
/// the stack.
pub ghost enum Cell {
    Reg(Reg),
    Slot(int),
    Number(int),
    Top,
}

/// The instructions that values are computed with.
pub ghost enum Name {
    Mov,
    Add,
    Sub,
    Imul,
    And,
    Or,
    Xor,
    Neg,
    Push,
    Pop,
    Cltd,
    Cqto,
    Idiv,
    Cmp,
    Sete,
    Setne,
    Setl,
    Setle,
    Setg,
    Setge,
    Movzbl,
    /// `sub $8, %rsp`
    Reserve,
    /// `add $8, %rsp`
    Release,
}

/// An instruction: its name, the type whose size it works on, where that is part of the name, the
/// blanks before its operands, and these, each with the type it is written at.
pub ghost struct Line {
    pub name: Name,
    pub size: Option<ValueType>,
    pub blanks: nat,
    pub source: Option<(Cell, ValueType)>,
    pub dest: Option<(Cell, ValueType)>,
}

pub ghost struct Machine {
    pub regs: Map<Reg, int>,
    pub slots: Map<int, int>,
    /// What was pushed and not popped
    pub stack: Seq<int>,
    /// What was compared last: left and right
    pub flags: (int, int),
    /// Whether an instruction had no meaning
    pub stuck: bool,
}

/// How many values a type's size can tell apart.
pub open spec fn modulus(typ: ValueType) -> int {
    match typ {
        ValueType::I8 | ValueType::U8 => 0x100,
        ValueType::I16 | ValueType::U16 => 0x1_0000,
        ValueType::I32 | ValueType::U32 | ValueType::Bool | ValueType::Char => 0x1_0000_0000,
        _ => 0x1_0000_0000_0000_0000,
    }
}

/// A value as a number of the type's size.
pub open spec fn sized(value: int, typ: ValueType) -> int {
    value % modulus(typ)
}

/// A value as a number of the type's size with a sign.
pub open spec fn signed(value: int, typ: ValueType) -> int {
    if 2 * sized(value, typ) < modulus(typ) {
        sized(value, typ)
    } else {
        sized(value, typ) - modulus(typ)
    }
}

/// The quotient without its fraction.
pub open spec fn whole_quotient(a: int, b: int) -> int {
    if (a < 0) == (b < 0) {
        magnitude(a) / magnitude(b)
    } else {
        -(magnitude(a) / magnitude(b))
    }
}

impl Machine {
    pub open spec fn read(self, cell: Cell) -> int {
        match cell {
            Cell::Reg(reg) => self.regs[reg],
            Cell::Slot(offset) => self.slots[offset],
            Cell::Number(n) => n,
            Cell::Top => self.stack.last(),
        }
    }

    pub open spec fn write(self, cell: Cell, value: int) -> Machine {
        match cell {
            Cell::Reg(reg) => Machine { regs: self.regs.insert(reg, value), ..self },
            Cell::Slot(offset) => Machine { slots: self.slots.insert(offset, value), ..self },
            Cell::Number(_) => Machine { stuck: true, ..self },
            Cell::Top => if self.stack.len() > 0 {
                Machine { stack: self.stack.drop_last().push(value), ..self }
            } else {
                Machine { stuck: true, ..self }
            },
        }
    }

    pub open spec fn set(self, holds: bool) -> Machine {
        self.write(Cell::Reg(Reg::Rax), truth(holds))
    }

    /// The machine after an instruction.
    pub open spec fn step(self, line: Line) -> Machine {
        let typ = match line.size {
            Some(typ) => typ,
            None => ValueType::I64,
        };
        let left = self.flags.0;
        let right = self.flags.1;
        match (line.name, line.source, line.dest) {
            (Name::Mov, Some((from, _)), Some((to, _))) => self.write(
                to,
                sized(self.read(from), typ),
            ),
            (Name::Add, Some((from, _)), Some((to, _))) => self.write(
                to,
                sized(self.read(to) + self.read(from), typ),
            ),
            (Name::Sub, Some((from, _)), Some((to, _))) => self.write(
                to,
                sized(self.read(to) - self.read(from), typ),
            ),
            (Name::Imul, Some((from, _)), Some((to, _))) => self.write(
                to,
                sized(self.read(to) * self.read(from), typ),
            ),
            (Name::And, Some((from, _)), Some((to, _))) => self.write(
                to,
                bits_and(self.read(to), self.read(from), typ),
            ),
            (Name::Or, Some((from, _)), Some((to, _))) => self.write(
                to,
                bits_or(self.read(to), self.read(from), typ),
            ),
            (Name::Xor, Some((from, _)), Some((to, _))) => self.write(
                to,
                bits_xor(self.read(to), self.read(from), typ),
            ),
            (Name::Neg, None, Some((to, _))) => self.write(to, sized(-self.read(to), typ)),
            (Name::Push, None, Some((from, _))) => Machine {
                stack: self.stack.push(self.read(from)),
                ..self
            },
            (Name::Pop, None, Some((to, _))) => if self.stack.len() > 0 {
                Machine { stack: self.stack.drop_last(), ..self }.write(to, self.stack.last())
            } else {
                Machine { stuck: true, ..self }
            },
            (Name::Cltd, None, None) => self.extend(ValueType::I32),
            (Name::Cqto, None, None) => self.extend(ValueType::I64),
            (Name::Idiv, None, Some((by, _))) => self.divide(self.read(by), typ),
            (Name::Cmp, Some((right, _)), Some((left, _))) => Machine {
                flags: (signed(self.read(left), typ), signed(self.read(right), typ)),
                ..self
            },
            (Name::Sete, None, Some(_)) => self.set(left == right),
            (Name::Setne, None, Some(_)) => self.set(left != right),
            (Name::Setl, None, Some(_)) => self.set(left < right),
            (Name::Setle, None, Some(_)) => self.set(left <= right),
            (Name::Setg, None, Some(_)) => self.set(left > right),
            (Name::Setge, None, Some(_)) => self.set(left >= right),
            (Name::Movzbl, Some((from, _)), Some((to, _))) => self.write(
                to,
                sized(self.read(from), ValueType::U8),
            ),
            (Name::Reserve, None, None) => Machine { stack: self.stack.push(0), ..self },
            (Name::Release, None, None) => if self.stack.len() > 0 {
                Machine { stack: self.stack.drop_last(), ..self }
            } else {
                Machine { stuck: true, ..self }
            },
            _ => Machine { stuck: true, ..self },
        }
    }

    /// `%rdx` filled with the sign of `%rax`.
    pub open spec fn extend(self, typ: ValueType) -> Machine {
        self.write(
            Cell::Reg(Reg::Rdx),
            if signed(self.regs[Reg::Rax], typ) < 0 {
                modulus(typ) - 1
            } else {
                0
            },
        )
    }

    /// The number in `%rax`, extended into `%rdx`, divided: the quotient is in `%rax` and the rest
    /// in `%rdx`.
    pub open spec fn divide(self, by: int, typ: ValueType) -> Machine {
        let n = signed(self.regs[Reg::Rax], typ);
        let d = signed(by, typ);
        let extended = self.regs[Reg::Rdx] == (if n < 0 {
            modulus(typ) - 1
        } else {
            0
        });
        let q = whole_quotient(n, d);
        if !extended || d == 0 || !(-modulus(typ) <= 2 * q < modulus(typ)) {
            Machine { stuck: true, ..self }
        } else {
            self.write(Cell::Reg(Reg::Rax), sized(q, typ)).write(
                Cell::Reg(Reg::Rdx),
                sized(n - q * d, typ),
            )
        }
    }

    /// The machine after the instructions from `at` on.
    pub open spec fn run(self, lines: Seq<Line>, at: nat) -> Machine
        decreases lines.len() - at,
    {
        if at >= lines.len() {
            self
        } else {
            self.step(lines[at as int]).run(lines, at + 1)
        }
    }
}

pub open spec fn bits_and(a: int, b: int, typ: ValueType) -> int {
    ((sized(a, typ) as u64) & (sized(b, typ) as u64)) as int
}

pub open spec fn bits_or(a: int, b: int, typ: ValueType) -> int {
    ((sized(a, typ) as u64) | (sized(b, typ) as u64)) as int
}

pub open spec fn bits_xor(a: int, b: int, typ: ValueType) -> int {
    ((sized(a, typ) as u64) ^ (sized(b, typ) as u64)) as int
}

impl Name {
    /// The name as written.
    pub open spec fn text(self) -> Seq<char> {
        match self {
            Name::Mov => "mov"@,
            Name::Add => "add"@,
            Name::Sub => "sub"@,
            Name::Imul => "imul"@,
            Name::And => "and"@,
            Name::Or => "or"@,
            Name::Xor => "xor"@,
            Name::Neg => "neg"@,
            Name::Push => "push"@,
            Name::Pop => "pop"@,
            Name::Cltd => "cltd"@,
            Name::Cqto => "cqto"@,
            Name::Idiv => "idiv"@,
            Name::Cmp => "cmp"@,
            Name::Sete => "sete"@,
            Name::Setne => "setne"@,
            Name::Setl => "setl"@,
            Name::Setle => "setle"@,
            Name::Setg => "setg"@,
            Name::Setge => "setge"@,
            Name::Movzbl => "movzbl"@,
            Name::Reserve => "sub     $8, %rsp"@,
            Name::Release => "add     $8, %rsp"@,
        }
    }
}

/// The letter for the size of a type.
pub open spec fn size_letter(typ: ValueType) -> Seq<char> {
    match typ {
        ValueType::I8 | ValueType::U8 => "b"@,
        ValueType::I16 | ValueType::U16 => "w"@,
        ValueType::I32 | ValueType::U32 | ValueType::Bool | ValueType::Char => "l"@,
        _ => "q"@,
    }
}

/// What is written for a cell that holds a value of the type.
pub open spec fn cell_text(cell: Cell, typ: ValueType) -> Seq<char> {
    match cell {
        Cell::Reg(reg) => "%"@ + match typ {
            ValueType::I8 | ValueType::U8 => reg.name_8()@,
            ValueType::I16 | ValueType::U16 => reg.name_16()@,
            ValueType::I32 | ValueType::U32 | ValueType::Bool
            | ValueType::Char => reg.name_32()@,
            _ => reg.name_64()@,
        },
        Cell::Slot(offset) => signed_decimal(offset) + "(%rbp)"@,
        Cell::Number(n) => "$"@ + signed_decimal(n),
        Cell::Top => "(%rsp)"@,
    }
}

pub open spec fn blanks(n: nat) -> Seq<char> {
    Seq::new(n, |i: int| ' ')
}

impl Line {
    /// The instruction as a line of assembly.
    pub open spec fn text(self) -> Seq<char> {
        let suffix = match self.size {
            Some(typ) => size_letter(typ),
            None => Seq::empty(),
        };
        let name = "    "@ + self.name.text() + suffix + blanks(self.blanks);
        match (self.source, self.dest) {
            (Some((from, a)), Some((to, b))) => name + cell_text(from, a) + ", "@ + cell_text(to, b)
                + "\n"@,
            (None, Some((to, b))) => name + cell_text(to, b) + "\n"@,
            _ => name + "\n"@,
        }
    }
}

/// The lines of assembly from `at` on.
pub open spec fn code(lines: Seq<Line>, at: nat) -> Seq<char>
    decreases lines.len() - at,
{
    if at >= lines.len() {
        Seq::empty()
    } else {
        lines[at as int].text() + code(lines, at + 1)
    }
}

/// Whether values of the type are numbers in general registers.
pub open spec fn is_word(typ: ValueType) -> bool {
    !(typ is F32) && !(typ is F64) && !(typ is Unit)
}

/// Where a value lives, in a function that saves some registers.
pub open spec fn home(emission: Emission, id: ValueId) -> Cell {
    match emission.allocation.locations@[id.0 as int] {
        Location::Register(reg) => Cell::Reg(reg),
        Location::Stack(offset) => Cell::Slot(offset - emission.saved.len() * 8),
    }
}

/// Where an operand is found.
pub open spec fn operand_cell(emission: Emission, operand: Operand) -> Cell {
    match operand {
        Operand::Place(place) => home(emission, place.id),
        Operand::Const(Const::Int(value, _)) => Cell::Number(value as int),
        Operand::Const(Const::Bool(value)) => Cell::Number(
            if value {
                1
            } else {
                0
            },
        ),
        Operand::Const(Const::Char(value)) => Cell::Number(value as int),
        Operand::Const(Const::Float(..)) => Cell::Number(0),
    }
}

/// A truth value as a number.
pub open spec fn truth(holds: bool) -> int {
    if holds {
        1
    } else {
        0
    }
}

/// Whether `v` is what an operation gives for `l` and `r`, as numbers of the type's size.
pub open spec fn is_result(
    operation: BinaryOperation,
    typ: ValueType,
    l: int,
    r: int,
    v: int,
) -> bool {
    let a = signed(l, typ);
    let b = signed(r, typ);
    match operation {
        BinaryOperation::Add => v == sized(l + r, typ),
        BinaryOperation::Sub => v == sized(l - r, typ),
        BinaryOperation::Mul => v == sized(l * r, typ),
        BinaryOperation::And => v == bits_and(l, r, typ),
        BinaryOperation::Or => v == bits_or(l, r, typ),
        BinaryOperation::Div => divides_to(a, b, signed(v, typ)),
        BinaryOperation::Eq => v == truth(a == b),
        BinaryOperation::Ne => v == truth(a != b),
        BinaryOperation::Lt => v == truth(a < b),
        BinaryOperation::LtEq => v == truth(a <= b),
        BinaryOperation::Gt => v == truth(a > b),
        BinaryOperation::GtEq => v == truth(a >= b),
    }
}

/// Whether a run of code stored `value` in `dest` and left all else as it was.
pub open spec fn stores(before: Machine, after: Machine, dest: Cell) -> bool {
    &&& !after.stuck
    &&& after.stack == before.stack
    &&& forall|reg: Reg| Cell::Reg(reg) != dest ==> #[trigger] after.regs[reg] == before.regs[reg]
    &&& forall|offset: int|
        Cell::Slot(offset) != dest ==> #[trigger] after.slots[offset] == before.slots[offset]
}

/// A number made of the first characters of a short text.
spec fn short_key(text: Seq<char>) -> int {
    at_key(text, 0) + 0x100 * at_key(text, 1) + 0x1_0000 * at_key(text, 2) + 0x100_0000 * at_key(text, 3)
}

spec fn at_key(text: Seq<char>, i: int) -> int {
    if i < text.len() {
        text[i] as int
    } else {
        0
    }
}

spec fn key_8(reg: Reg) -> int {
    match reg {
        Reg::Rax => 27745,
        Reg::Rcx => 27747,
        Reg::Rdx => 27748,
        Reg::Rbx => 27746,
        Reg::Rsi => 7104883,
        Reg::Rdi => 7104868,
        Reg::R8 => 6436978,
        Reg::R9 => 6437234,
        Reg::R10 => 1647325554,
        Reg::R11 => 1647391090,
        Reg::R12 => 1647456626,
        Reg::R13 => 1647522162,
        Reg::R14 => 1647587698,
        Reg::R15 => 1647653234,
    }
}

proof fn lemma_key_8(reg: Reg)
    ensures
        short_key(reg.name_8()@) == key_8(reg),
{
    match reg {
        Reg::Rax => reveal_strlit("al"),
        Reg::Rcx => reveal_strlit("cl"),
        Reg::Rdx => reveal_strlit("dl"),
        Reg::Rbx => reveal_strlit("bl"),
        Reg::Rsi => reveal_strlit("sil"),
        Reg::Rdi => reveal_strlit("dil"),
        Reg::R8 => reveal_strlit("r8b"),
        Reg::R9 => reveal_strlit("r9b"),
        Reg::R10 => reveal_strlit("r10b"),
        Reg::R11 => reveal_strlit("r11b"),
        Reg::R12 => reveal_strlit("r12b"),
        Reg::R13 => reveal_strlit("r13b"),
        Reg::R14 => reveal_strlit("r14b"),
        Reg::R15 => reveal_strlit("r15b"),
    }
}

spec fn key_16(reg: Reg) -> int {
    match reg {
        Reg::Rax => 30817,
        Reg::Rcx => 30819,
        Reg::Rdx => 30820,
        Reg::Rbx => 30818,
        Reg::Rsi => 26995,
        Reg::Rdi => 26980,
        Reg::R8 => 7813234,
        Reg::R9 => 7813490,
        Reg::R10 => 1999647090,
        Reg::R11 => 1999712626,
        Reg::R12 => 1999778162,
        Reg::R13 => 1999843698,
        Reg::R14 => 1999909234,
        Reg::R15 => 1999974770,
    }
}

proof fn lemma_key_16(reg: Reg)
    ensures
        short_key(reg.name_16()@) == key_16(reg),
{
    match reg {
        Reg::Rax => reveal_strlit("ax"),
        Reg::Rcx => reveal_strlit("cx"),
        Reg::Rdx => reveal_strlit("dx"),
        Reg::Rbx => reveal_strlit("bx"),
        Reg::Rsi => reveal_strlit("si"),
        Reg::Rdi => reveal_strlit("di"),
        Reg::R8 => reveal_strlit("r8w"),
        Reg::R9 => reveal_strlit("r9w"),
        Reg::R10 => reveal_strlit("r10w"),
        Reg::R11 => reveal_strlit("r11w"),
        Reg::R12 => reveal_strlit("r12w"),
        Reg::R13 => reveal_strlit("r13w"),
        Reg::R14 => reveal_strlit("r14w"),
        Reg::R15 => reveal_strlit("r15w"),
    }
}

spec fn key_32(reg: Reg) -> int {
    match reg {
        Reg::Rax => 7889253,
        Reg::Rcx => 7889765,
        Reg::Rdx => 7890021,
        Reg::Rbx => 7889509,
        Reg::Rsi => 6910821,
        Reg::Rdi => 6906981,
        Reg::R8 => 6568050,
        Reg::R9 => 6568306,
        Reg::R10 => 1680879986,
        Reg::R11 => 1680945522,
        Reg::R12 => 1681011058,
        Reg::R13 => 1681076594,
        Reg::R14 => 1681142130,
        Reg::R15 => 1681207666,
    }
}

proof fn lemma_key_32(reg: Reg)
    ensures
        short_key(reg.name_32()@) == key_32(reg),
{
    match reg {
        Reg::Rax => reveal_strlit("eax"),
        Reg::Rcx => reveal_strlit("ecx"),
        Reg::Rdx => reveal_strlit("edx"),
        Reg::Rbx => reveal_strlit("ebx"),
        Reg::Rsi => reveal_strlit("esi"),
        Reg::Rdi => reveal_strlit("edi"),
        Reg::R8 => reveal_strlit("r8d"),
        Reg::R9 => reveal_strlit("r9d"),
        Reg::R10 => reveal_strlit("r10d"),
        Reg::R11 => reveal_strlit("r11d"),
        Reg::R12 => reveal_strlit("r12d"),
        Reg::R13 => reveal_strlit("r13d"),
        Reg::R14 => reveal_strlit("r14d"),
        Reg::R15 => reveal_strlit("r15d"),
    }
}

spec fn key_64(reg: Reg) -> int {
    match reg {
        Reg::Rax => 7889266,
        Reg::Rcx => 7889778,
        Reg::Rdx => 7890034,
        Reg::Rbx => 7889522,
        Reg::Rsi => 6910834,
        Reg::Rdi => 6906994,
        Reg::R8 => 14450,
        Reg::R9 => 14706,
        Reg::R10 => 3158386,
        Reg::R11 => 3223922,
        Reg::R12 => 3289458,
        Reg::R13 => 3354994,
        Reg::R14 => 3420530,
        Reg::R15 => 3486066,
    }
}

proof fn lemma_key_64(reg: Reg)
    ensures
        short_key(reg.name_64()@) == key_64(reg),
{
    match reg {
        Reg::Rax => reveal_strlit("rax"),
        Reg::Rcx => reveal_strlit("rcx"),
        Reg::Rdx => reveal_strlit("rdx"),
        Reg::Rbx => reveal_strlit("rbx"),
        Reg::Rsi => reveal_strlit("rsi"),
        Reg::Rdi => reveal_strlit("rdi"),
        Reg::R8 => reveal_strlit("r8"),
        Reg::R9 => reveal_strlit("r9"),
        Reg::R10 => reveal_strlit("r10"),
        Reg::R11 => reveal_strlit("r11"),
        Reg::R12 => reveal_strlit("r12"),
        Reg::R13 => reveal_strlit("r13"),
        Reg::R14 => reveal_strlit("r14"),
        Reg::R15 => reveal_strlit("r15"),
    }
}

proof fn lemma_reg_texts(a: Reg, b: Reg, typ: ValueType)
    requires
        is_word(typ),
        cell_text(Cell::Reg(a), typ) == cell_text(Cell::Reg(b), typ),
    ensures
        a == b,
{
    let x = cell_text(Cell::Reg(a), typ);
    let y = cell_text(Cell::Reg(b), typ);
    reveal_strlit("%");
    lemma_key_8(a);
    lemma_key_8(b);
    lemma_key_16(a);
    lemma_key_16(b);
    lemma_key_32(a);
    lemma_key_32(b);
    lemma_key_64(a);
    lemma_key_64(b);
    assert(x.skip(1) =~= reg_name(a, typ)@);
    assert(y.skip(1) =~= reg_name(b, typ)@);
}

proof fn lemma_signed_texts(a: int, b: int)
    requires
        signed_decimal(a) == signed_decimal(b),
    ensures
        a == b,
{
    let x = magnitude(a) as nat;
    let y = magnitude(b) as nat;
    lemma_decimal_digits(x);
    lemma_decimal_digits(y);
    lemma_decimal_length(x);
    lemma_decimal_length(y);
    if a < 0 {
        assert(signed_decimal(a)[0] == '-');
        assert(signed_decimal(a).skip(1) =~= decimal(x));
    } else {
        assert(signed_decimal(a)[0] == decimal(x)[0]);
    }
    if b < 0 {
        assert(signed_decimal(b)[0] == '-');
        assert(signed_decimal(b).skip(1) =~= decimal(y));
    } else {
        assert(signed_decimal(b)[0] == decimal(y)[0]);
    }
    lemma_decimal_injective(x, y);
}

proof fn lemma_decimal_length(n: nat)
    ensures
        decimal(n).len() > 0,
{
}

/// What a text starts with tells registers, values in the frame and numbers apart.
proof fn lemma_first(cell: Cell, typ: ValueType)
    requires
        !(cell is Top),
    ensures
        cell_text(cell, typ).len() > 0,
        cell is Reg <==> cell_text(cell, typ)[0] == '%',
        cell is Number <==> cell_text(cell, typ)[0] == '$',
{
    reveal_strlit("%");
    reveal_strlit("$");
    if let Cell::Slot(offset) = cell {
        let n = magnitude(offset) as nat;
        lemma_decimal_digits(n);
        lemma_decimal_length(n);
        assert(cell_text(cell, typ)[0] == signed_decimal(offset)[0]);
    }
}

/// Cells with one text are one cell.
proof fn lemma_cell_texts(a: Cell, b: Cell, typ: ValueType)
    requires
        is_word(typ),
        !(a is Top),
        !(b is Top),
        cell_text(a, typ) == cell_text(b, typ),
    ensures
        a == b,
{
    lemma_first(a, typ);
    lemma_first(b, typ);
    match (a, b) {
        (Cell::Reg(x), Cell::Reg(y)) => {
            lemma_reg_texts(x, y, typ);
        },
        (Cell::Slot(x), Cell::Slot(y)) => {
            let p = signed_decimal(x) + "(%rbp)"@;
            let q = signed_decimal(y) + "(%rbp)"@;
            reveal_strlit("(%rbp)");
            assert(p.take(p.len() - 6) =~= signed_decimal(x));
            assert(q.take(q.len() - 6) =~= signed_decimal(y));
            lemma_signed_texts(x, y);
        },
        (Cell::Number(x), Cell::Number(y)) => {
            reveal_strlit("$");
            assert(cell_text(a, typ).skip(1) =~= signed_decimal(x));
            assert(cell_text(b, typ).skip(1) =~= signed_decimal(y));
            lemma_signed_texts(x, y);
        },
        _ => {},
    }
}

/// The text of a value's home.
proof fn lemma_home(emission: Emission, id: ValueId, typ: ValueType)
    requires
        is_word(typ),
    ensures
        emission.location(id, typ) == cell_text(home(emission, id), typ),
{
}

/// Whether an operand is a number in a general register, in the frame or in the code.
pub open spec fn is_plain(operand: Operand) -> bool {
    is_word(operand.typ()) && match operand {
        Operand::Const(Const::Float(..)) => false,
        _ => true,
    }
}

proof fn lemma_operand(emission: Emission, operand: Operand, function: Seq<char>)
    requires
        is_plain(operand),
    ensures
        emission.operand(operand, function) == (
            emission,
            cell_text(operand_cell(emission, operand), operand.typ()),
        ),
{
    match operand {
        Operand::Const(Const::Bool(value)) => {
            reveal_strlit("$");
            reveal_strlit("$0");
            reveal_strlit("$1");
            if value {
                assert("$1"@ =~= "$"@ + signed_decimal(1));
            } else {
                assert("$0"@ =~= "$"@ + signed_decimal(0));
            }
        },
        _ => {},
    }
}

/// Types of one size are written alike.
proof fn lemma_same_size(cell: Cell, a: ValueType, b: ValueType)
    requires
        is_word(a),
        is_word(b),
        modulus(a) == modulus(b),
    ensures
        cell_text(cell, a) == cell_text(cell, b),
        size_letter(a) == size_letter(b),
        a.size_suffix()@ == size_letter(a),
{
}

/// Whether `lines` were written between two states of the output.
pub open spec fn wrote(before: Emission, after: Emission, lines: Seq<Line>) -> bool {
    after.out == before.out + code(lines, 0)
}

proof fn lemma_code_push(lines: Seq<Line>, line: Line, at: nat)
    requires
        at <= lines.len(),
    ensures
        code(lines.push(line), at) == code(lines, at) + line.text(),
    decreases lines.len() - at,
{
    let all = lines.push(line);
    if at < lines.len() {
        lemma_code_push(lines, line, at + 1);
        assert(all[at as int] == lines[at as int]);
        assert(code(all, at) =~= code(lines, at) + line.text());
    } else {
        assert(code(all, at + 1) =~= Seq::empty());
        assert(code(all, at) =~= code(lines, at) + line.text());
    }
}

proof fn lemma_run_push(machine: Machine, lines: Seq<Line>, line: Line, at: nat)
    requires
        at <= lines.len(),
    ensures
        machine.run(lines.push(line), at) == machine.run(lines, at).step(line),
    decreases lines.len() - at,
{
    let all = lines.push(line);
    if at < lines.len() {
        assert(all[at as int] == lines[at as int]);
        lemma_run_push(machine.step(lines[at as int]), lines, line, at + 1);
    } else {
        assert(machine.step(line).run(all, at + 1) == machine.step(line));
    }
}

/// A line more.
proof fn lemma_wrote(start: Emission, before: Emission, after: Emission, lines: Seq<Line>, line: Line)
    requires
        wrote(start, before, lines),
        after.out == before.out + line.text(),
    ensures
        wrote(start, after, lines.push(line)),
        forall|machine: Machine| #[trigger]
            machine.run(lines.push(line), 0) == machine.run(lines, 0).step(line),
{
    lemma_code_push(lines, line, 0);
    assert(after.out =~= start.out + code(lines.push(line), 0));
    assert forall|machine: Machine| #[trigger]
        machine.run(lines.push(line), 0) == machine.run(lines, 0).step(line) by {
        lemma_run_push(machine, lines, line, 0);
    }
}

pub open spec fn two_line(
    name: Name,
    size: Option<ValueType>,
    gap: nat,
    from: (Cell, ValueType),
    to: (Cell, ValueType),
) -> Line {
    Line { name, size, blanks: gap, source: Some(from), dest: Some(to) }
}

pub open spec fn one_line(
    name: Name,
    size: Option<ValueType>,
    gap: nat,
    to: (Cell, ValueType),
) -> Line {
    Line { name, size, blanks: gap, source: None, dest: Some(to) }
}

spec fn suffix_of(size: Option<ValueType>) -> Seq<char> {
    match size {
        Some(typ) => size_letter(typ),
        None => Seq::empty(),
    }
}

proof fn lemma_two(
    emission: Emission,
    line: Line,
    name: Seq<char>,
    suffix: Seq<char>,
    gap: Seq<char>,
)
    requires
        line.source is Some,
        line.dest is Some,
        name == line.name.text(),
        suffix == suffix_of(line.size),
        gap == blanks(line.blanks),
    ensures
        ({
            let (from, a) = line.source->0;
            let (to, b) = line.dest->0;
            emission.two(name, suffix, gap, cell_text(from, a), cell_text(to, b)).out
                == emission.out + line.text()
        }),
{
    let (from, a) = line.source->0;
    let (to, b) = line.dest->0;
    assert(emission.two(name, suffix, gap, cell_text(from, a), cell_text(to, b)).out
        =~= emission.out + line.text());
}

proof fn lemma_one(
    emission: Emission,
    line: Line,
    name: Seq<char>,
    suffix: Seq<char>,
    gap: Seq<char>,
)
    requires
        line.source is None,
        line.dest is Some,
        name == line.name.text(),
        suffix == suffix_of(line.size),
        gap == blanks(line.blanks),
    ensures
        ({
            let (to, b) = line.dest->0;
            emission.one(name, suffix, gap, cell_text(to, b)).out == emission.out + line.text()
        }),
{
    let (to, b) = line.dest->0;
    assert(emission.one(name, suffix, gap, cell_text(to, b)).out =~= emission.out + line.text());
}

proof fn lemma_line(emission: Emission, line: Line, text: Seq<char>)
    requires
        line.text() == "    "@ + text + "\n"@,
    ensures
        emission.line(text).out == emission.out + line.text(),
{
    assert(emission.line(text).out =~= emission.out + line.text());
}

proof fn lemma_blanks()
    ensures
        "     "@ == blanks(5),
        "    "@ == blanks(4),
        "   "@ == blanks(3),
        ""@ == Seq::<char>::empty(),
{
    reveal_strlit("     ");
    reveal_strlit("    ");
    reveal_strlit("   ");
    reveal_strlit("");
    assert("     "@ =~= blanks(5));
    assert("    "@ =~= blanks(4));
    assert("   "@ =~= blanks(3));
    assert(""@ =~= Seq::<char>::empty());
}

/// The lines after a move, which is left out where the value is there already.
pub open spec fn with_move(lines: Seq<Line>, typ: ValueType, from: Cell, to: Cell) -> Seq<Line> {
    if from == to {
        lines
    } else {
        lines.push(two_line(Name::Mov, Some(typ), 4, (from, typ), (to, typ)))
    }
}

/// The machine after such a move.
pub open spec fn moved(machine: Machine, typ: ValueType, from: Cell, to: Cell) -> Machine {
    if from == to {
        machine
    } else {
        machine.write(to, sized(machine.read(from), typ))
    }
}

proof fn lemma_mov(start: Emission, before: Emission, lines: Seq<Line>, typ: ValueType, from: Cell, to: Cell)
    requires
        is_word(typ),
        !(from is Top),
        !(to is Top),
        wrote(start, before, lines),
    ensures
        ({
            let after = before.mov(size_letter(typ), cell_text(from, typ), cell_text(to, typ));
            wrote(start, after, with_move(lines, typ, from, to))
        }),
        forall|machine: Machine| #[trigger]
            machine.run(with_move(lines, typ, from, to), 0) == moved(
                machine.run(lines, 0),
                typ,
                from,
                to,
            ),
{
    if cell_text(from, typ) == cell_text(to, typ) {
        lemma_cell_texts(from, to, typ);
    } else {
        let line = two_line(Name::Mov, Some(typ), 4, (from, typ), (to, typ));
        lemma_blanks();
        lemma_two(before, line, "mov"@, size_letter(typ), "    "@);
        let after = before.two("mov"@, size_letter(typ), "    "@, cell_text(from, typ), cell_text(to, typ));
        lemma_wrote(start, before, after, lines, line);
    }
}

proof fn lemma_no_lines(emission: Emission)
    ensures
        wrote(emission, emission, Seq::empty()),
        forall|machine: Machine| #[trigger] machine.run(Seq::empty(), 0) == machine,
{
    assert(code(Seq::empty(), 0) =~= Seq::empty());
    assert(emission.out =~= emission.out + code(Seq::empty(), 0));
}

/// The instruction for an operation on its destination.
pub open spec fn update_name(operation: BinaryOperation) -> Option<Name> {
    match operation {
        BinaryOperation::Add => Some(Name::Add),
        BinaryOperation::Sub => Some(Name::Sub),
        BinaryOperation::Mul => Some(Name::Imul),
        BinaryOperation::And => Some(Name::And),
        BinaryOperation::Or => Some(Name::Or),
        _ => None,
    }
}

/// The lines for such an operation.
spec fn update_lines(name: Name, typ: ValueType, gap: nat, l: Cell, r: Cell, dest: Cell) -> Seq<Line> {
    with_move(Seq::empty(), typ, l, dest).push(two_line(name, Some(typ), gap, (r, typ), (dest, typ)))
}

proof fn lemma_update_text(
    emission: Emission,
    name: Name,
    typ: ValueType,
    gap: nat,
    gap_text: Seq<char>,
    l: Cell,
    r: Cell,
    dest: Cell,
)
    requires
        is_word(typ),
        !(l is Top),
        !(r is Top),
        !(dest is Top),
        gap_text == blanks(gap),
    ensures
        ({
            let after = emission.update(
                name.text(),
                size_letter(typ),
                gap_text,
                cell_text(l, typ),
                cell_text(r, typ),
                cell_text(dest, typ),
            );
            wrote(emission, after, update_lines(name, typ, gap, l, r, dest))
        }),
        forall|machine: Machine| #[trigger]
            machine.run(update_lines(name, typ, gap, l, r, dest), 0) == moved(
                machine,
                typ,
                l,
                dest,
            ).step(two_line(name, Some(typ), gap, (r, typ), (dest, typ))),
{
    lemma_no_lines(emission);
    lemma_mov(emission, emission, Seq::empty(), typ, l, dest);
    let line = two_line(name, Some(typ), gap, (r, typ), (dest, typ));
    let before = emission.mov(size_letter(typ), cell_text(l, typ), cell_text(dest, typ));
    let after = before.two(name.text(), size_letter(typ), gap_text, cell_text(r, typ), cell_text(dest, typ));
    lemma_two(before, line, name.text(), size_letter(typ), gap_text);
    lemma_wrote(emission, before, after, with_move(Seq::empty(), typ, l, dest), line);
    assert forall|machine: Machine| #[trigger]
        machine.run(update_lines(name, typ, gap, l, r, dest), 0) == moved(
            machine,
            typ,
            l,
            dest,
        ).step(line) by {
        let lines = with_move(Seq::empty(), typ, l, dest);
        assert(machine.run(lines, 0) == moved(machine.run(Seq::empty(), 0), typ, l, dest));
        assert(machine.run(lines.push(line), 0) == machine.run(lines, 0).step(line));
    }
}

/// Reducing an operand to the size leaves sums, differences and products of that size.
proof fn lemma_sized(l: int, r: int, typ: ValueType)
    ensures
        sized(sized(l, typ) + r, typ) == sized(l + r, typ),
        sized(sized(l, typ) - r, typ) == sized(l - r, typ),
        sized(sized(l, typ) * r, typ) == sized(l * r, typ),
        sized(sized(l, typ), typ) == sized(l, typ),
        signed(sized(l, typ), typ) == signed(l, typ),
        0 <= sized(l, typ) < modulus(typ),
{
    let m = modulus(typ);
    vstd::arithmetic::div_mod::lemma_mod_bound(l, m);
    vstd::arithmetic::div_mod::lemma_mod_twice(l, m);
    vstd::arithmetic::div_mod::lemma_add_mod_noop(l, r, m);
    vstd::arithmetic::div_mod::lemma_add_mod_noop(l % m, r, m);
    vstd::arithmetic::div_mod::lemma_sub_mod_noop(l, r, m);
    vstd::arithmetic::div_mod::lemma_sub_mod_noop(l % m, r, m);
    vstd::arithmetic::div_mod::lemma_mul_mod_noop(l, r, m);
    vstd::arithmetic::div_mod::lemma_mul_mod_noop(l % m, r, m);
}

proof fn lemma_bits_sized(a: int, b: int, typ: ValueType)
    ensures
        sized(bits_and(a, b, typ), typ) == bits_and(a, b, typ),
        sized(bits_or(a, b, typ), typ) == bits_or(a, b, typ),
        sized(bits_xor(a, b, typ), typ) == bits_xor(a, b, typ),
        0 <= bits_xor(a, b, typ) < modulus(typ),
{
    lemma_sized(a, b, typ);
    lemma_sized(b, a, typ);
    let x = sized(a, typ) as u64;
    let y = sized(b, typ) as u64;
    assert(x & y <= x) by (bit_vector);
    assert(x < 0x100 && y < 0x100 ==> x | y < 0x100 && x ^ y < 0x100) by (bit_vector);
    assert(x < 0x1_0000 && y < 0x1_0000 ==> x | y < 0x1_0000 && x ^ y < 0x1_0000) by (bit_vector);
    assert(x < 0x1_0000_0000 && y < 0x1_0000_0000 ==> x | y < 0x1_0000_0000 && x ^ y
        < 0x1_0000_0000) by (bit_vector);
    vstd::arithmetic::div_mod::lemma_small_mod(bits_and(a, b, typ) as nat, modulus(typ) as nat);
    vstd::arithmetic::div_mod::lemma_small_mod(bits_or(a, b, typ) as nat, modulus(typ) as nat);
    vstd::arithmetic::div_mod::lemma_small_mod(bits_xor(a, b, typ) as nat, modulus(typ) as nat);
}

proof fn lemma_update_effect(
    operation: BinaryOperation,
    name: Name,
    typ: ValueType,
    gap: nat,
    l: Cell,
    r: Cell,
    dest: Cell,
    machine: Machine,
)
    requires
        update_name(operation) == Some(name),
        is_word(typ),
        dest is Reg || dest is Slot,
        !(l is Top),
        !(r is Top),
        r != dest || l == dest,
        !machine.stuck,
    ensures
        ({
            let after = moved(machine, typ, l, dest).step(
                two_line(name, Some(typ), gap, (r, typ), (dest, typ)),
            );
            &&& stores(machine, after, dest)
            &&& is_result(operation, typ, machine.read(l), machine.read(r), sized(after.read(dest), typ))
        }),
{
    let x = machine.read(l);
    let y = machine.read(r);
    let between = moved(machine, typ, l, dest);
    assert(between.read(r) == y);
    assert(between.read(dest) == x || between.read(dest) == sized(x, typ));
    lemma_sized(x, y, typ);
    lemma_bits_sized(x, y, typ);
    lemma_sized(x + y, 0, typ);
    lemma_sized(x - y, 0, typ);
    lemma_sized(x * y, 0, typ);
}

/// Whether some lines were written that, on every machine with what they need, store a result in
/// `dest` and leave all else as it was.
pub open spec fn computes(
    before: Emission,
    after: Emission,
    dest: Cell,
    typ: ValueType,
    needs: spec_fn(Machine) -> bool,
    result: spec_fn(Machine, int) -> bool,
) -> bool {
    exists|lines: Seq<Line>| #[trigger]
        wrote(before, after, lines) && forall|machine: Machine|
            !machine.stuck && needs(machine) ==> {
                let end = #[trigger] machine.run(lines, 0);
                stores(machine, end, dest) && result(machine, sized(end.read(dest), typ))
            }
}

proof fn lemma_rax_texts()
    ensures
        "%al"@ == cell_text(Cell::Reg(Reg::Rax), ValueType::U8),
        "%ax"@ == cell_text(Cell::Reg(Reg::Rax), ValueType::U16),
        "%eax"@ == cell_text(Cell::Reg(Reg::Rax), ValueType::I32),
        "%rax"@ == cell_text(Cell::Reg(Reg::Rax), ValueType::I64),
        "%edx"@ == cell_text(Cell::Reg(Reg::Rdx), ValueType::I32),
        "%rdx"@ == cell_text(Cell::Reg(Reg::Rdx), ValueType::I64),
{
    reveal_strlit("%");
    reveal_strlit("al");
    reveal_strlit("ax");
    reveal_strlit("eax");
    reveal_strlit("rax");
    reveal_strlit("edx");
    reveal_strlit("rdx");
    reveal_strlit("%al");
    reveal_strlit("%ax");
    reveal_strlit("%eax");
    reveal_strlit("%rax");
    reveal_strlit("%edx");
    reveal_strlit("%rdx");
    assert("%al"@ =~= "%"@ + "al"@);
    assert("%ax"@ =~= "%"@ + "ax"@);
    assert("%eax"@ =~= "%"@ + "eax"@);
    assert("%rax"@ =~= "%"@ + "rax"@);
    assert("%edx"@ =~= "%"@ + "edx"@);
    assert("%rdx"@ =~= "%"@ + "rdx"@);
}

/// A register's text is one of `%rax` only if it is that register.
proof fn lemma_is_rax(cell: Cell, typ: ValueType)
    requires
        is_word(typ),
        cell is Reg || cell is Slot,
    ensures
        is_rax(cell_text(cell, typ)) == (cell == Cell::Reg(Reg::Rax)),
{
    lemma_rax_texts();
    lemma_first(cell, typ);
    lemma_first(Cell::Reg(Reg::Rax), ValueType::U8);
    lemma_first(Cell::Reg(Reg::Rax), ValueType::U16);
    lemma_first(Cell::Reg(Reg::Rax), ValueType::I32);
    lemma_first(Cell::Reg(Reg::Rax), ValueType::I64);
    if let Cell::Reg(reg) = cell {
        reveal_strlit("%");
        lemma_key_8(reg);
        lemma_key_16(reg);
        lemma_key_32(reg);
        lemma_key_64(reg);
        lemma_key_8(Reg::Rax);
        lemma_key_16(Reg::Rax);
        lemma_key_32(Reg::Rax);
        lemma_key_64(Reg::Rax);
        let text = cell_text(cell, typ);
        assert(text.skip(1) =~= reg_name(reg, typ)@);
        assert("%al"@.skip(1) =~= Reg::Rax.name_8()@);
        assert("%ax"@.skip(1) =~= Reg::Rax.name_16()@);
        assert("%eax"@.skip(1) =~= Reg::Rax.name_32()@);
        assert("%rax"@.skip(1) =~= Reg::Rax.name_64()@);
    }
}

/// The instruction that tells whether a comparison holds.
pub open spec fn test_name(operation: BinaryOperation) -> Option<Name> {
    match operation {
        BinaryOperation::Eq => Some(Name::Sete),
        BinaryOperation::Ne => Some(Name::Setne),
        BinaryOperation::Lt => Some(Name::Setl),
        BinaryOperation::LtEq => Some(Name::Setle),
        BinaryOperation::Gt => Some(Name::Setg),
        BinaryOperation::GtEq => Some(Name::Setge),
        _ => None,
    }
}

spec fn rax_cell() -> (Cell, ValueType) {
    (Cell::Reg(Reg::Rax), ValueType::I64)
}

spec fn rdx_cell() -> (Cell, ValueType) {
    (Cell::Reg(Reg::Rdx), ValueType::I64)
}

proof fn lemma_fixed_lines()
    ensures
        one_line(Name::Push, None, 3, rax_cell()).text() == "    "@ + "push   %rax"@ + "\n"@,
        one_line(Name::Push, None, 3, rdx_cell()).text() == "    "@ + "push   %rdx"@ + "\n"@,
        one_line(Name::Push, None, 4, rax_cell()).text() == "    "@ + "push    %rax"@ + "\n"@,
        one_line(Name::Pop, None, 5, rax_cell()).text() == "    "@ + "pop     %rax"@ + "\n"@,
        one_line(Name::Pop, None, 5, rdx_cell()).text() == "    "@ + "pop     %rdx"@ + "\n"@,
{
    reveal_strlit("%");
    reveal_strlit("rax");
    reveal_strlit("rdx");
    reveal_strlit("push");
    reveal_strlit("pop");
    reveal_strlit("push   %rax");
    reveal_strlit("push   %rdx");
    reveal_strlit("push    %rax");
    reveal_strlit("pop     %rax");
    reveal_strlit("pop     %rdx");
    assert("push   %rax"@ =~= "push"@ + blanks(3) + "%"@ + "rax"@);
    assert("push   %rdx"@ =~= "push"@ + blanks(3) + "%"@ + "rdx"@);
    assert("push    %rax"@ =~= "push"@ + blanks(4) + "%"@ + "rax"@);
    assert("pop     %rax"@ =~= "pop"@ + blanks(5) + "%"@ + "rax"@);
    assert("pop     %rdx"@ =~= "pop"@ + blanks(5) + "%"@ + "rdx"@);
    assert(one_line(Name::Push, None, 3, rax_cell()).text() =~= "    "@ + "push   %rax"@ + "\n"@);
    assert(one_line(Name::Push, None, 3, rdx_cell()).text() =~= "    "@ + "push   %rdx"@ + "\n"@);
    assert(one_line(Name::Push, None, 4, rax_cell()).text() =~= "    "@ + "push    %rax"@ + "\n"@);
    assert(one_line(Name::Pop, None, 5, rax_cell()).text() =~= "    "@ + "pop     %rax"@ + "\n"@);
    assert(one_line(Name::Pop, None, 5, rdx_cell()).text() =~= "    "@ + "pop     %rdx"@ + "\n"@);
}

proof fn lemma_word_line(line: Line)
    requires
        line.size is None,
        line.blanks == 0,
        line.source is None,
        line.dest is None,
    ensures
        line.text() == "    "@ + line.name.text() + "\n"@,
{
    assert(line.text() =~= "    "@ + line.name.text() + "\n"@);
}

spec fn bare_line(name: Name) -> Line {
    Line { name, size: None, blanks: 0, source: None, dest: None }
}

spec fn compared_machine(operation: BinaryOperation, typ: ValueType, l: Cell, r: Cell, dest: Cell, machine: Machine) -> Machine {
    let keeps = dest != Cell::Reg(Reg::Rax);
    let byte = (Cell::Reg(Reg::Rax), ValueType::U8);
    let push = one_line(Name::Push, None, 4, rax_cell());
    let pop = one_line(Name::Pop, None, 5, rax_cell());
    let cmp = two_line(Name::Cmp, Some(typ), 4, (r, typ), (l, typ));
    let set = one_line(test_name(operation)->0, None, 5, byte);
    let extend = two_line(Name::Movzbl, None, 3, byte, (dest, typ));
    let first = if keeps {
        machine.step(push)
    } else {
        machine
    };
    let last = first.step(cmp).step(set).step(extend);
    if keeps {
        last.step(pop)
    } else {
        last
    }
}

proof fn lemma_compare_effect(
    operation: BinaryOperation,
    typ: ValueType,
    l: Cell,
    r: Cell,
    dest: Cell,
    machine: Machine,
)
    requires
        test_name(operation) is Some,
        modulus(typ) == 0x1_0000_0000,
        !(l is Top),
        !(r is Top),
        dest is Reg || dest is Slot,
        !machine.stuck,
    ensures
        ({
            let after = compared_machine(operation, typ, l, r, dest, machine);
            &&& stores(machine, after, dest)
            &&& is_result(operation, typ, machine.read(l), machine.read(r), sized(after.read(dest), typ))
        }),
{
    let keeps = dest != Cell::Reg(Reg::Rax);
    let byte = (Cell::Reg(Reg::Rax), ValueType::U8);
    let push = one_line(Name::Push, None, 4, rax_cell());
    let pop = one_line(Name::Pop, None, 5, rax_cell());
    let cmp = two_line(Name::Cmp, Some(typ), 4, (r, typ), (l, typ));
    let set = one_line(test_name(operation)->0, None, 5, byte);
    let extend = two_line(Name::Movzbl, None, 3, byte, (dest, typ));
    let m1 = if keeps {
        machine.step(push)
    } else {
        machine
    };
    let m2 = m1.step(cmp);
    let m3 = m2.step(set);
    let m4 = m3.step(extend);
    let x = machine.read(l);
    let y = machine.read(r);
    assert(m1.read(l) == x);
    assert(m1.read(r) == y);
    assert(m2.flags == (signed(x, typ), signed(y, typ)));
    let v = m3.regs[Reg::Rax];
    assert(is_result(operation, typ, x, y, v));
    assert(v == 0 || v == 1);
    assert(m4.read(dest) == v);
    assert(sized(v, typ) == v);
    if keeps {
        let m5 = m4.step(pop);
        assert(m4.stack == machine.stack.push(machine.regs[Reg::Rax]));
        assert(m5.stack =~= machine.stack);
        assert(m5.read(dest) == v);
        assert(stores(machine, m5, dest));
    } else {
        assert(stores(machine, m4, dest));
    }
}

#[verifier::spinoff_prover]
proof fn lemma_compare(
    emission: Emission,
    operation: BinaryOperation,
    typ: ValueType,
    compared: ValueType,
    l: Cell,
    r: Cell,
    dest: Cell,
)
    requires
        test_name(operation) is Some,
        is_word(typ),
        modulus(typ) == 0x1_0000_0000,
        !compared.is_float(),
        !(l is Top),
        !(r is Top),
        dest is Reg || dest is Slot,
    ensures
        ({
            let after = emission.compare(
                set_name(operation)@,
                cell_text(l, typ),
                cell_text(r, typ),
                cell_text(dest, typ),
                size_letter(typ),
                compared,
            );
            computes(
                emission,
                after,
                dest,
                typ,
                |machine: Machine| true,
                |machine: Machine, v: int|
                    is_result(operation, typ, machine.read(l), machine.read(r), v),
            )
        }),
{
    lemma_blanks();
    lemma_fixed_lines();
    lemma_rax_texts();
    lemma_is_rax(dest, typ);
    lemma_no_lines(emission);
    let name = test_name(operation)->0;
    let lt = cell_text(l, typ);
    let rt = cell_text(r, typ);
    let dt = cell_text(dest, typ);
    let byte = (Cell::Reg(Reg::Rax), ValueType::U8);
    let keeps = dest != Cell::Reg(Reg::Rax);
    let push = one_line(Name::Push, None, 4, rax_cell());
    let pop = one_line(Name::Pop, None, 5, rax_cell());
    let cmp = two_line(Name::Cmp, Some(typ), 4, (r, typ), (l, typ));
    let set = one_line(name, None, 5, byte);
    let extend = two_line(Name::Movzbl, None, 3, byte, (dest, typ));
    let e1 = if keeps {
        emission.line("push    %rax"@)
    } else {
        emission
    };
    let l1 = if keeps {
        Seq::empty().push(push)
    } else {
        Seq::empty()
    };
    if keeps {
        lemma_line(emission, push, "push    %rax"@);
        lemma_wrote(emission, emission, e1, Seq::empty(), push);
    }
    let e2 = e1.two("cmp"@, size_letter(typ), "    "@, rt, lt);
    lemma_two(e1, cmp, "cmp"@, size_letter(typ), "    "@);
    lemma_wrote(emission, e1, e2, l1, cmp);
    let l2 = l1.push(cmp);
    let e3 = e2.one(set_name(operation)@, ""@, "     "@, "%al"@);
    lemma_one(e2, set, set_name(operation)@, ""@, "     "@);
    lemma_wrote(emission, e2, e3, l2, set);
    let l3 = l2.push(set);
    let e4 = e3.two("movzbl"@, ""@, "   "@, "%al"@, dt);
    lemma_two(e3, extend, "movzbl"@, ""@, "   "@);
    lemma_wrote(emission, e3, e4, l3, extend);
    let l4 = l3.push(extend);
    let e5 = if keeps {
        e4.line("pop     %rax"@)
    } else {
        e4
    };
    let l5 = if keeps {
        l4.push(pop)
    } else {
        l4
    };
    if keeps {
        lemma_line(e4, pop, "pop     %rax"@);
        lemma_wrote(emission, e4, e5, l4, pop);
    }
    let needs = |machine: Machine| true;
    let result = |machine: Machine, v: int|
        is_result(operation, typ, machine.read(l), machine.read(r), v);
    assert forall|machine: Machine| !machine.stuck && needs(machine) implies {
        let end = #[trigger] machine.run(l5, 0);
        stores(machine, end, dest) && result(machine, sized(end.read(dest), typ))
    } by {
        assert(machine.run(Seq::empty(), 0) == machine);
        let m1 = machine.run(l1, 0);
        assert(m1 == if keeps {
            machine.step(push)
        } else {
            machine
        });
        assert(machine.run(l2, 0) == m1.step(cmp));
        assert(machine.run(l3, 0) == m1.step(cmp).step(set));
        assert(machine.run(l4, 0) == m1.step(cmp).step(set).step(extend));
        if keeps {
            assert(machine.run(l5, 0) == m1.step(cmp).step(set).step(extend).step(pop));
        }
        lemma_compare_effect(operation, typ, l, r, dest, machine);
    }
    assert(wrote(emission, e5, l5));
}

/// The value of a unary operation, as a number of the type's size: for `!`, of a truth value.
pub open spec fn is_unary_result(operation: UnaryOperation, typ: ValueType, x: int, v: int) -> bool {
    match operation {
        UnaryOperation::Neg => v == sized(-x, typ),
        UnaryOperation::Not => (sized(x, typ) == 0 ==> v == 1) && (sized(x, typ) == 1 ==> v == 0),
    }
}

#[verifier::spinoff_prover]
proof fn lemma_neg(emission: Emission, typ: ValueType, from: Cell, dest: Cell, function: Seq<char>)
    requires
        is_word(typ),
        !(from is Top),
        dest is Reg || dest is Slot,
    ensures
        computes(
            emission,
            emission.unary(UnaryOperation::Neg, typ, cell_text(from, typ), cell_text(dest, typ), function),
            dest,
            typ,
            |machine: Machine| true,
            |machine: Machine, v: int| is_unary_result(UnaryOperation::Neg, typ, machine.read(from), v),
        ),
{
    let operation = UnaryOperation::Neg;
    lemma_blanks();
    lemma_same_size(dest, typ, typ);
    lemma_no_lines(emission);
    let needs = |machine: Machine| true;
    let result = |machine: Machine, v: int| is_unary_result(UnaryOperation::Neg, typ, machine.read(from), v);
    let ft = cell_text(from, typ);
    let dt = cell_text(dest, typ);
    let l1 = with_move(Seq::empty(), typ, from, dest);
    let e1 = emission.mov(size_letter(typ), ft, dt);
    lemma_mov(emission, emission, Seq::empty(), typ, from, dest);
    let neg = one_line(Name::Neg, Some(typ), 4, (dest, typ));
    let e2 = e1.one("neg"@, size_letter(typ), "    "@, dt);
    lemma_one(e1, neg, "neg"@, size_letter(typ), "    "@);
    lemma_wrote(emission, e1, e2, l1, neg);
    let l2 = l1.push(neg);
    assert forall|machine: Machine| !machine.stuck && needs(machine) implies {
        let end = #[trigger] machine.run(l2, 0);
        stores(machine, end, dest) && result(machine, sized(end.read(dest), typ))
    } by {
        assert(machine.run(Seq::empty(), 0) == machine);
        let m1 = machine.run(l1, 0);
        assert(m1 == moved(machine, typ, from, dest));
        assert(machine.run(l2, 0) == m1.step(neg));
        let x = machine.read(from);
        lemma_sized(x, 0, typ);
        lemma_sized(-x, 0, typ);
        vstd::arithmetic::div_mod::lemma_sub_mod_noop(0, x, modulus(typ));
        vstd::arithmetic::div_mod::lemma_sub_mod_noop(0, sized(x, typ), modulus(typ));
    }
    assert(wrote(emission, e2, l2));
}

#[verifier::spinoff_prover]
proof fn lemma_not(emission: Emission, typ: ValueType, from: Cell, dest: Cell, function: Seq<char>)
    requires
        is_word(typ),
        !(from is Top),
        dest is Reg || dest is Slot,
    ensures
        computes(
            emission,
            emission.unary(UnaryOperation::Not, typ, cell_text(from, typ), cell_text(dest, typ), function),
            dest,
            typ,
            |machine: Machine| true,
            |machine: Machine, v: int| is_unary_result(UnaryOperation::Not, typ, machine.read(from), v),
        ),
{
    let operation = UnaryOperation::Not;
    lemma_blanks();
    lemma_same_size(dest, typ, typ);
    lemma_no_lines(emission);
    let needs = |machine: Machine| true;
    let result = |machine: Machine, v: int| is_unary_result(UnaryOperation::Not, typ, machine.read(from), v);
    let ft = cell_text(from, typ);
    let dt = cell_text(dest, typ);
    let one = Cell::Number(1);
    reveal_strlit("$");
    reveal_strlit("$1");
    assert("$1"@ =~= "$"@ + signed_decimal(1));
    lemma_update_text(emission, Name::Xor, typ, 4, "    "@, from, one, dest);
    let lines = update_lines(Name::Xor, typ, 4, from, one, dest);
    let line = two_line(Name::Xor, Some(typ), 4, (one, typ), (dest, typ));
    assert forall|machine: Machine| !machine.stuck && needs(machine) implies {
        let end = #[trigger] machine.run(lines, 0);
        stores(machine, end, dest) && result(machine, sized(end.read(dest), typ))
    } by {
        let m1 = moved(machine, typ, from, dest);
        assert(machine.run(lines, 0) == m1.step(line));
        let x = machine.read(from);
        let y = m1.read(dest);
        lemma_sized(x, 0, typ);
        lemma_bits_sized(y, 1, typ);
        assert(0u64 ^ 1u64 == 1u64) by (bit_vector);
        assert(1u64 ^ 1u64 == 0u64) by (bit_vector);
    }
    assert(wrote(
        emission,
        emission.unary(operation, typ, ft, dt, function),
        lines,
    ));
}

proof fn lemma_whole_quotient(a: int, b: int)
    requires
        b != 0,
    ensures
        divides_to(a, b, whole_quotient(a, b)),
{
    let x = magnitude(a);
    let y = magnitude(b);
    let q = x / y;
    vstd::arithmetic::div_mod::lemma_fundamental_div_mod(x, y);
    vstd::arithmetic::div_mod::lemma_mod_bound(x, y);
    assert(y * q == q * y) by (nonlinear_arith);
    assert((-q) * (-y) == q * y) by (nonlinear_arith);
    assert((-q) * y == -(q * y)) by (nonlinear_arith);
    assert(q * (-y) == -(q * y)) by (nonlinear_arith);
}

/// Whether there is a quotient of the type's size.
pub open spec fn can_divide(typ: ValueType, l: int, r: int) -> bool {
    signed(r, typ) != 0 && !(2 * signed(l, typ) == -modulus(typ) && signed(r, typ) == -1)
}

proof fn lemma_quotient_fits(typ: ValueType, l: int, r: int)
    requires
        can_divide(typ, l, r),
    ensures
        ({
            let q = whole_quotient(signed(l, typ), signed(r, typ));
            &&& -modulus(typ) <= 2 * q < modulus(typ)
            &&& signed(sized(q, typ), typ) == q
        }),
{
    let a = signed(l, typ);
    let b = signed(r, typ);
    let x = magnitude(a);
    let y = magnitude(b);
    let q = x / y;
    lemma_sized(l, 0, typ);
    lemma_sized(r, 0, typ);
    vstd::arithmetic::div_mod::lemma_div_is_ordered_by_denominator(x, 1, y);
    vstd::arithmetic::div_mod::lemma_div_pos_is_pos(x, y);
    assert(0 <= q <= x);
    if 2 * x == modulus(typ) && a < 0 && b < 0 && y > 1 {
        vstd::arithmetic::div_mod::lemma_div_is_ordered_by_denominator(x, 2, y);
    }
    let whole = whole_quotient(a, b);
    if whole >= 0 {
        vstd::arithmetic::div_mod::lemma_small_mod(whole as nat, modulus(typ) as nat);
    } else {
        vstd::arithmetic::div_mod::lemma_mod_add_multiples_vanish(whole, modulus(typ));
        vstd::arithmetic::div_mod::lemma_small_mod((whole + modulus(typ)) as nat, modulus(typ) as nat);
    }
}

spec fn rax() -> Cell {
    Cell::Reg(Reg::Rax)
}

spec fn rdx() -> Cell {
    Cell::Reg(Reg::Rdx)
}

spec fn pushed(machine: Machine, skip: bool, from: (Cell, ValueType)) -> Machine {
    if skip {
        machine
    } else {
        machine.step(one_line(Name::Push, None, 3, from))
    }
}

spec fn popped(machine: Machine, skip: bool, to: (Cell, ValueType)) -> Machine {
    if skip {
        machine
    } else {
        machine.step(one_line(Name::Pop, None, 5, to))
    }
}

spec fn pushed_lines(lines: Seq<Line>, skip: bool, from: (Cell, ValueType)) -> Seq<Line> {
    if skip {
        lines
    } else {
        lines.push(one_line(Name::Push, None, 3, from))
    }
}

spec fn popped_lines(lines: Seq<Line>, skip: bool, to: (Cell, ValueType)) -> Seq<Line> {
    if skip {
        lines
    } else {
        lines.push(one_line(Name::Pop, None, 5, to))
    }
}

spec fn extend_name(typ: ValueType) -> Name {
    if typ is I32 {
        Name::Cltd
    } else {
        Name::Cqto
    }
}

spec fn divided(machine: Machine, typ: ValueType, r: Cell) -> Machine {
    if r is Number {
        machine.step(bare_line(Name::Reserve)).step(
            two_line(Name::Mov, Some(typ), 4, (r, typ), (Cell::Top, typ)),
        ).step(one_line(Name::Idiv, Some(typ), 3, (Cell::Top, typ))).step(bare_line(Name::Release))
    } else {
        machine.step(one_line(Name::Idiv, Some(typ), 4, (r, typ)))
    }
}

spec fn divided_machine(machine: Machine, typ: ValueType, l: Cell, r: Cell, dest: Cell) -> Machine {
    let saved = pushed(pushed(machine, dest == rdx(), rdx_cell()), dest == rax(), rax_cell());
    let done = divided(moved(saved, typ, l, rax()).step(bare_line(extend_name(typ))), typ, r);
    let stored = moved(done, typ, rax(), dest);
    popped(popped(stored, dest == rax(), rax_cell()), dest == rdx(), rdx_cell())
}

proof fn lemma_divided(machine: Machine, typ: ValueType, r: Cell)
    requires
        typ is I32 || typ is I64,
        !machine.stuck,
        !(r is Top),
        r != rax(),
        r != rdx(),
        can_divide(typ, machine.regs[Reg::Rax], machine.read(r)),
    ensures
        ({
            let after = divided(machine.step(bare_line(extend_name(typ))), typ, r);
            let l = machine.regs[Reg::Rax];
            &&& !after.stuck
            &&& after.stack == machine.stack
            &&& after.slots == machine.slots
            &&& forall|reg: Reg|
                reg != Reg::Rax && reg != Reg::Rdx ==> #[trigger] after.regs[reg]
                    == machine.regs[reg]
            &&& is_result(BinaryOperation::Div, typ, l, machine.read(r), after.regs[Reg::Rax])
            &&& sized(after.regs[Reg::Rax], typ) == after.regs[Reg::Rax]
        }),
{
    let l = machine.regs[Reg::Rax];
    let y = machine.read(r);
    lemma_sized(l, 0, typ);
    lemma_sized(y, 0, typ);
    lemma_quotient_fits(typ, l, y);
    lemma_whole_quotient(signed(l, typ), signed(y, typ));
    let q = whole_quotient(signed(l, typ), signed(y, typ));
    lemma_sized(q, 0, typ);
    let m1 = machine.step(bare_line(extend_name(typ)));
    assert(m1.regs[Reg::Rax] == l);
    assert(m1.read(r) == y);
    if r is Number {
        let m2 = m1.step(bare_line(Name::Reserve));
        let m3 = m2.step(two_line(Name::Mov, Some(typ), 4, (r, typ), (Cell::Top, typ)));
        assert(m3.stack.last() == sized(y, typ));
        let m4 = m3.step(one_line(Name::Idiv, Some(typ), 3, (Cell::Top, typ)));
        assert(!m4.stuck);
        let m5 = m4.step(bare_line(Name::Release));
        assert(m5.stack =~= machine.stack);
    }
}

proof fn lemma_divide_effect(machine: Machine, typ: ValueType, l: Cell, r: Cell, dest: Cell)
    requires
        typ is I32 || typ is I64,
        !machine.stuck,
        !(l is Top),
        !(r is Top),
        r != rax(),
        r != rdx(),
        dest is Reg || dest is Slot,
        can_divide(typ, machine.read(l), machine.read(r)),
    ensures
        ({
            let after = divided_machine(machine, typ, l, r, dest);
            &&& stores(machine, after, dest)
            &&& is_result(
                BinaryOperation::Div,
                typ,
                machine.read(l),
                machine.read(r),
                sized(after.read(dest), typ),
            )
        }),
{
    let x = machine.read(l);
    let y = machine.read(r);
    lemma_sized(x, 0, typ);
    let m1 = pushed(machine, dest == rdx(), rdx_cell());
    let m2 = pushed(m1, dest == rax(), rax_cell());
    assert(m2.read(l) == x && m2.read(r) == y);
    let m3 = moved(m2, typ, l, rax());
    assert(m3.read(r) == y);
    assert(signed(m3.regs[Reg::Rax], typ) == signed(x, typ));
    lemma_divided(m3, typ, r);
    let m4 = divided(m3.step(bare_line(extend_name(typ))), typ, r);
    let v = m4.regs[Reg::Rax];
    let m5 = moved(m4, typ, rax(), dest);
    assert(m5.read(dest) == v);
    assert(m5.stack == m2.stack);
    let m6 = popped(m5, dest == rax(), rax_cell());
    assert(m6.stack =~= m1.stack);
    assert(m6.read(dest) == v);
    let m7 = popped(m6, dest == rdx(), rdx_cell());
    assert(m7.stack =~= machine.stack);
    assert(m7.read(dest) == v);
    assert(stores(machine, m7, dest));
}

/// What a line for an operation without an operand says.
proof fn lemma_bare(emission: Emission, name: Name)
    ensures
        emission.line(name.text()).out == emission.out + bare_line(name).text(),
{
    lemma_word_line(bare_line(name));
    lemma_line(emission, bare_line(name), name.text());
}

proof fn lemma_push(start: Emission, before: Emission, lines: Seq<Line>, skip: bool, from: (Cell, ValueType), text: Seq<char>)
    requires
        wrote(start, before, lines),
        one_line(Name::Push, None, 3, from).text() == "    "@ + text + "\n"@,
    ensures
        ({
            let after = if skip {
                before
            } else {
                before.line(text)
            };
            let more = pushed_lines(lines, skip, from);
            &&& wrote(start, after, more)
            &&& forall|machine: Machine| #[trigger]
                machine.run(more, 0) == pushed(machine.run(lines, 0), skip, from)
        }),
{
    if !skip {
        let line = one_line(Name::Push, None, 3, from);
        lemma_line(before, line, text);
        lemma_wrote(start, before, before.line(text), lines, line);
    }
}

proof fn lemma_pop(start: Emission, before: Emission, lines: Seq<Line>, skip: bool, to: (Cell, ValueType), text: Seq<char>)
    requires
        wrote(start, before, lines),
        one_line(Name::Pop, None, 5, to).text() == "    "@ + text + "\n"@,
    ensures
        ({
            let after = if skip {
                before
            } else {
                before.line(text)
            };
            let more = popped_lines(lines, skip, to);
            &&& wrote(start, after, more)
            &&& forall|machine: Machine| #[trigger]
                machine.run(more, 0) == popped(machine.run(lines, 0), skip, to)
        }),
{
    if !skip {
        let line = one_line(Name::Pop, None, 5, to);
        lemma_line(before, line, text);
        lemma_wrote(start, before, before.line(text), lines, line);
    }
}

spec fn divide_lines(lines: Seq<Line>, typ: ValueType, r: Cell) -> Seq<Line> {
    if r is Number {
        lines.push(bare_line(Name::Reserve)).push(
            two_line(Name::Mov, Some(typ), 4, (r, typ), (Cell::Top, typ)),
        ).push(one_line(Name::Idiv, Some(typ), 3, (Cell::Top, typ))).push(bare_line(Name::Release))
    } else {
        lines.push(one_line(Name::Idiv, Some(typ), 4, (r, typ)))
    }
}

proof fn lemma_divide_text(start: Emission, before: Emission, lines: Seq<Line>, typ: ValueType, r: Cell)
    requires
        wrote(start, before, lines),
    ensures
        wrote(
            start,
            before.divide(size_letter(typ), cell_text(r, typ), r is Number),
            divide_lines(lines, typ, r),
        ),
        forall|machine: Machine| #[trigger]
            machine.run(divide_lines(lines, typ, r), 0) == divided(machine.run(lines, 0), typ, r),
{
    lemma_blanks();
    let rt = cell_text(r, typ);
    let suffix = size_letter(typ);
    if r is Number {
        let reserve = bare_line(Name::Reserve);
        let mov = two_line(Name::Mov, Some(typ), 4, (r, typ), (Cell::Top, typ));
        let idiv = one_line(Name::Idiv, Some(typ), 3, (Cell::Top, typ));
        let release = bare_line(Name::Release);
        let e1 = before.line("sub     $8, %rsp"@);
        lemma_bare(before, Name::Reserve);
        lemma_wrote(start, before, e1, lines, reserve);
        let l1 = lines.push(reserve);
        let e2 = e1.two("mov"@, suffix, "    "@, rt, "(%rsp)"@);
        lemma_two(e1, mov, "mov"@, suffix, "    "@);
        lemma_wrote(start, e1, e2, l1, mov);
        let l2 = l1.push(mov);
        let e3 = e2.one("idiv"@, suffix, "   "@, "(%rsp)"@);
        lemma_one(e2, idiv, "idiv"@, suffix, "   "@);
        lemma_wrote(start, e2, e3, l2, idiv);
        let l3 = l2.push(idiv);
        let e4 = e3.line("add     $8, %rsp"@);
        lemma_bare(e3, Name::Release);
        lemma_wrote(start, e3, e4, l3, release);
        let l4 = l3.push(release);
        assert forall|machine: Machine| #[trigger] machine.run(l4, 0) == divided(
            machine.run(lines, 0),
            typ,
            r,
        ) by {
            assert(machine.run(l1, 0) == machine.run(lines, 0).step(reserve));
            assert(machine.run(l2, 0) == machine.run(l1, 0).step(mov));
            assert(machine.run(l3, 0) == machine.run(l2, 0).step(idiv));
        }
    } else {
        let idiv = one_line(Name::Idiv, Some(typ), 4, (r, typ));
        lemma_one(before, idiv, "idiv"@, suffix, "    "@);
        lemma_wrote(start, before, before.one("idiv"@, suffix, "    "@, rt), lines, idiv);
    }
}

#[verifier::spinoff_prover]
#[verifier::rlimit(60)]
proof fn lemma_div(emission: Emission, typ: ValueType, l: Cell, r: Cell, dest: Cell)
    requires
        typ is I32 || typ is I64,
        !(l is Top),
        !(r is Top),
        r != rax(),
        r != rdx(),
        dest is Reg || dest is Slot,
    ensures
        computes(
            emission,
            emission.div(typ, cell_text(l, typ), cell_text(r, typ), r is Number, cell_text(dest, typ)),
            dest,
            typ,
            |machine: Machine| can_divide(typ, machine.read(l), machine.read(r)),
            |machine: Machine, v: int|
                is_result(BinaryOperation::Div, typ, machine.read(l), machine.read(r), v),
        ),
{
    lemma_blanks();
    lemma_fixed_lines();
    lemma_rax_texts();
    lemma_no_lines(emission);
    let lt = cell_text(l, typ);
    let rt = cell_text(r, typ);
    let dt = cell_text(dest, typ);
    let suffix = size_letter(typ);
    let at = cell_text(rax(), typ);
    if dt == at {
        lemma_cell_texts(dest, rax(), typ);
    }
    if dt == cell_text(rdx(), typ) {
        lemma_cell_texts(dest, rdx(), typ);
    }
    let no_rdx = dest == rdx();
    let no_rax = dest == rax();
    let empty = Seq::<Line>::empty();
    lemma_push(emission, emission, empty, no_rdx, rdx_cell(), "push   %rdx"@);
    let e1 = if no_rdx {
        emission
    } else {
        emission.line("push   %rdx"@)
    };
    let l1 = pushed_lines(empty, no_rdx, rdx_cell());
    lemma_push(emission, e1, l1, no_rax, rax_cell(), "push   %rax"@);
    let e2 = if no_rax {
        e1
    } else {
        e1.line("push   %rax"@)
    };
    let l2 = pushed_lines(l1, no_rax, rax_cell());
    lemma_mov(emission, e2, l2, typ, l, rax());
    let e3 = e2.mov(suffix, lt, at);
    let l3 = with_move(l2, typ, l, rax());
    let extend = bare_line(extend_name(typ));
    let e4 = e3.line(extend_name(typ).text());
    lemma_bare(e3, extend_name(typ));
    lemma_wrote(emission, e3, e4, l3, extend);
    let l4 = l3.push(extend);
    lemma_divide_text(emission, e4, l4, typ, r);
    let e5 = e4.divide(suffix, rt, r is Number);
    let l5 = divide_lines(l4, typ, r);
    lemma_mov(emission, e5, l5, typ, rax(), dest);
    let e6 = e5.mov(suffix, at, dt);
    let l6 = with_move(l5, typ, rax(), dest);
    lemma_pop(emission, e6, l6, no_rax, rax_cell(), "pop     %rax"@);
    let e7 = if no_rax {
        e6
    } else {
        e6.line("pop     %rax"@)
    };
    let l7 = popped_lines(l6, no_rax, rax_cell());
    lemma_pop(emission, e7, l7, no_rdx, rdx_cell(), "pop     %rdx"@);
    let e8 = if no_rdx {
        e7
    } else {
        e7.line("pop     %rdx"@)
    };
    let l8 = popped_lines(l7, no_rdx, rdx_cell());
    let needs = |machine: Machine| can_divide(typ, machine.read(l), machine.read(r));
    let result = |machine: Machine, v: int|
        is_result(BinaryOperation::Div, typ, machine.read(l), machine.read(r), v);
    assert forall|machine: Machine| !machine.stuck && needs(machine) implies {
        let end = #[trigger] machine.run(l8, 0);
        stores(machine, end, dest) && result(machine, sized(end.read(dest), typ))
    } by {
        assert(machine.run(empty, 0) == machine);
        assert(machine.run(l1, 0) == pushed(machine, no_rdx, rdx_cell()));
        assert(machine.run(l2, 0) == pushed(machine.run(l1, 0), no_rax, rax_cell()));
        assert(machine.run(l3, 0) == moved(machine.run(l2, 0), typ, l, rax()));
        assert(machine.run(l4, 0) == machine.run(l3, 0).step(extend));
        assert(machine.run(l5, 0) == divided(machine.run(l4, 0), typ, r));
        assert(machine.run(l6, 0) == moved(machine.run(l5, 0), typ, rax(), dest));
        assert(machine.run(l7, 0) == popped(machine.run(l6, 0), no_rax, rax_cell()));
        assert(machine.run(l8, 0) == divided_machine(machine, typ, l, r, dest));
        lemma_divide_effect(machine, typ, l, r, dest);
    }
    assert(wrote(emission, e8, l8));
    assert(e8 == emission.div(typ, lt, rt, r is Number, dt));
}

/// Whether the code of a binary instruction does not read what it has overwritten: the right
/// operand does not live where the result goes, unless the left one does, and a divisor does not
/// live in the registers of the division.
pub open spec fn is_steady(operation: BinaryOperation, l: Cell, r: Cell, dest: Cell) -> bool {
    if operation == BinaryOperation::Div {
        r != Cell::Reg(Reg::Rax) && r != Cell::Reg(Reg::Rdx)
    } else if update_name(operation) is Some {
        r != dest || l == dest
    } else {
        true
    }
}

/// The code of a binary instruction computes the operation on its left and right operand, in that
/// order, stores the result in the home of the destination and leaves every other register and
/// value, and the stack, as it was. A difference is left minus right, a quotient is left by right,
/// and a comparison is 1 where left stands in that relation to right and 0 where it does not.
#[verifier::spinoff_prover]
pub proof fn lemma_binary_code(
    emission: Emission,
    instruction: Instruction,
    operation: BinaryOperation,
    lhs: Operand,
    rhs: Operand,
    function: Seq<char>,
)
    requires
        instruction.kind == (InstructionKind::Binary { operation, lhs, rhs }),
        is_word(instruction.dest.typ),
        is_plain(lhs),
        is_plain(rhs),
        modulus(lhs.typ()) == modulus(instruction.dest.typ),
        modulus(rhs.typ()) == modulus(instruction.dest.typ),
        operation == BinaryOperation::Div ==> instruction.dest.typ is I32 || instruction.dest.typ
            is I64,
        test_name(operation) is Some ==> modulus(instruction.dest.typ) == 0x1_0000_0000,
        is_steady(
            operation,
            operand_cell(emission, lhs),
            operand_cell(emission, rhs),
            home(emission, instruction.dest.id),
        ),
    ensures
        ({
            let l = operand_cell(emission, lhs);
            let r = operand_cell(emission, rhs);
            let typ = instruction.dest.typ;
            computes(
                emission,
                emission.instruction(instruction, function),
                home(emission, instruction.dest.id),
                typ,
                |machine: Machine|
                    operation == BinaryOperation::Div ==> can_divide(
                        typ,
                        machine.read(l),
                        machine.read(r),
                    ),
                |machine: Machine, v: int|
                    is_result(operation, typ, machine.read(l), machine.read(r), v),
            )
        }),
{
    let typ = instruction.dest.typ;
    let dest = home(emission, instruction.dest.id);
    let l = operand_cell(emission, lhs);
    let r = operand_cell(emission, rhs);
    lemma_home(emission, instruction.dest.id, typ);
    lemma_operand(emission, lhs, function);
    lemma_operand(emission, rhs, function);
    lemma_same_size(l, lhs.typ(), typ);
    lemma_same_size(r, rhs.typ(), typ);
    lemma_same_size(dest, typ, typ);
    lemma_blanks();
    let after = emission.instruction(instruction, function);
    let needs = |machine: Machine|
        operation == BinaryOperation::Div ==> can_divide(typ, machine.read(l), machine.read(r));
    let result = |machine: Machine, v: int|
        is_result(operation, typ, machine.read(l), machine.read(r), v);
    if let Some(name) = update_name(operation) {
        let (text, gap_text) = update_form(operation)->0;
        let gap = if operation == BinaryOperation::Mul {
            3nat
        } else if operation == BinaryOperation::Or {
            5nat
        } else {
            4nat
        };
        lemma_update_text(emission, name, typ, gap, gap_text@, l, r, dest);
        let lines = update_lines(name, typ, gap, l, r, dest);
        assert(wrote(emission, after, lines));
        assert forall|machine: Machine| !machine.stuck && needs(machine) implies {
            let end = #[trigger] machine.run(lines, 0);
            stores(machine, end, dest) && result(machine, sized(end.read(dest), typ))
        } by {
            lemma_update_effect(operation, name, typ, gap, l, r, dest, machine);
        }
    } else if operation == BinaryOperation::Div {
        lemma_div(emission, typ, l, r, dest);
        let a = |machine: Machine| can_divide(typ, machine.read(l), machine.read(r));
        let b = |machine: Machine, v: int|
            is_result(BinaryOperation::Div, typ, machine.read(l), machine.read(r), v);
        assert(rhs is Const == r is Number);
        lemma_same_computation(emission, after, dest, typ, a, b, needs, result);
    } else {
        lemma_compare(emission, operation, typ, lhs.typ(), l, r, dest);
        let a = |machine: Machine| true;
        lemma_same_computation(emission, after, dest, typ, a, result, needs, result);
    }
}

proof fn lemma_same_computation(
    before: Emission,
    after: Emission,
    dest: Cell,
    typ: ValueType,
    needs: spec_fn(Machine) -> bool,
    result: spec_fn(Machine, int) -> bool,
    more_needs: spec_fn(Machine) -> bool,
    same_result: spec_fn(Machine, int) -> bool,
)
    requires
        computes(before, after, dest, typ, needs, result),
        forall|machine: Machine| #[trigger] more_needs(machine) ==> needs(machine),
        forall|machine: Machine, v: int| #[trigger]
            result(machine, v) ==> same_result(machine, v),
    ensures
        computes(before, after, dest, typ, more_needs, same_result),
{
    let lines = choose|lines: Seq<Line>| #[trigger]
        wrote(before, after, lines) && forall|machine: Machine|
            !machine.stuck && needs(machine) ==> {
                let end = #[trigger] machine.run(lines, 0);
                stores(machine, end, dest) && result(machine, sized(end.read(dest), typ))
            };
    assert forall|machine: Machine| !machine.stuck && more_needs(machine) implies {
        let end = #[trigger] machine.run(lines, 0);
        stores(machine, end, dest) && same_result(machine, sized(end.read(dest), typ))
    } by {
        assert(needs(machine));
        let end = machine.run(lines, 0);
        assert(result(machine, sized(end.read(dest), typ)));
    }
    assert(wrote(before, after, lines));
}

/// The code of a unary instruction negates its operand, the code of an assignment copies it; either
/// leaves all else as it was.
#[verifier::spinoff_prover]
pub proof fn lemma_unary_code(emission: Emission, instruction: Instruction, operand: Operand, function: Seq<char>)
    requires
        match instruction.kind {
            InstructionKind::Assign(source) => source == operand,
            InstructionKind::Unary { rhs, .. } => rhs == operand,
            _ => false,
        },
        is_word(instruction.dest.typ),
        is_plain(operand),
        modulus(operand.typ()) == modulus(instruction.dest.typ),
    ensures
        ({
            let from = operand_cell(emission, operand);
            let typ = instruction.dest.typ;
            computes(
                emission,
                emission.instruction(instruction, function),
                home(emission, instruction.dest.id),
                typ,
                |machine: Machine| true,
                |machine: Machine, v: int|
                    match instruction.kind {
                        InstructionKind::Unary { operation, .. } => is_unary_result(
                            operation,
                            typ,
                            machine.read(from),
                            v,
                        ),
                        _ => v == sized(machine.read(from), typ),
                    },
            )
        }),
{
    let typ = instruction.dest.typ;
    let dest = home(emission, instruction.dest.id);
    let from = operand_cell(emission, operand);
    lemma_home(emission, instruction.dest.id, typ);
    lemma_operand(emission, operand, function);
    lemma_same_size(from, operand.typ(), typ);
    lemma_same_size(dest, typ, typ);
    let after = emission.instruction(instruction, function);
    let needs = |machine: Machine| true;
    let result = |machine: Machine, v: int|
        match instruction.kind {
            InstructionKind::Unary { operation, .. } => is_unary_result(
                operation,
                typ,
                machine.read(from),
                v,
            ),
            _ => v == sized(machine.read(from), typ),
        };
    match instruction.kind {
        InstructionKind::Unary { operation, rhs } => {
            if operation == UnaryOperation::Neg {
                lemma_neg(emission, typ, from, dest, function);
                let b = |machine: Machine, v: int|
                    is_unary_result(UnaryOperation::Neg, typ, machine.read(from), v);
                lemma_same_computation(emission, after, dest, typ, needs, b, needs, result);
            } else {
                lemma_not(emission, typ, from, dest, function);
                let b = |machine: Machine, v: int|
                    is_unary_result(UnaryOperation::Not, typ, machine.read(from), v);
                lemma_same_computation(emission, after, dest, typ, needs, b, needs, result);
            }
        },
        _ => {
            lemma_no_lines(emission);
            lemma_mov(emission, emission, Seq::empty(), typ, from, dest);
            let lines = with_move(Seq::empty(), typ, from, dest);
            assert(wrote(emission, after, lines));
            assert forall|machine: Machine| !machine.stuck && needs(machine) implies {
                let end = #[trigger] machine.run(lines, 0);
                stores(machine, end, dest) && result(machine, sized(end.read(dest), typ))
            } by {
                assert(machine.run(Seq::empty(), 0) == machine);
                assert(machine.run(lines, 0) == moved(machine, typ, from, dest));
                lemma_sized(machine.read(from), 0, typ);
            }
        },
    }
}

/// The instructions that decide where to go on.
pub ghost enum Jump {
    /// `test` of a value with itself
    Test(Cell, ValueType),
    /// To a label unless the value was zero
    Unless(Seq<char>),
    /// To a label in any case
    Always(Seq<char>),
}

impl Jump {
    pub open spec fn text(self) -> Seq<char> {
        match self {
            Jump::Test(cell, typ) => "    "@ + "testl"@ + blanks(4) + cell_text(cell, typ) + ", "@
                + cell_text(cell, typ) + "\n"@,
            Jump::Unless(label) => "    "@ + "jne"@ + blanks(6) + label + "\n"@,
            Jump::Always(label) => "    "@ + "jmp"@ + blanks(6) + label + "\n"@,
        }
    }
}

/// Where control goes from the jumps from `at` on, after a value was tested.
pub open spec fn goes(machine: Machine, jumps: Seq<Jump>, at: nat, tested: Option<int>) -> Option<
    Seq<char>,
>
    decreases jumps.len() - at,
{
    if at >= jumps.len() {
        None
    } else {
        match jumps[at as int] {
            Jump::Test(cell, typ) => goes(
                machine,
                jumps,
                at + 1,
                Some(sized(machine.read(cell), ValueType::I32)),
            ),
            Jump::Unless(label) => if tested is Some && tested != Some(0int) {
                Some(label)
            } else {
                goes(machine, jumps, at + 1, tested)
            },
            Jump::Always(label) => Some(label),
        }
    }
}

/// The code of a branch goes to the first block where the condition is not zero and to the second
/// where it is. The code of a jump goes to its block.
pub proof fn lemma_branch_code(
    emission: Emission,
    terminator: Terminator,
    function: Seq<char>,
    epilogue: Seq<char>,
    is_last: bool,
)
    requires
        match terminator {
            Terminator::Branch { condition, .. } => is_plain(condition),
            Terminator::Jump(_) => true,
            _ => false,
        },
    ensures
        exists|jumps: Seq<Jump>| {
            &&& emission.terminator(terminator, function, epilogue, is_last).out == emission.out
                + #[trigger] jumps_text(jumps, 0)
            &&& forall|machine: Machine|
                match terminator {
                    Terminator::Branch { condition, then_block, else_block } => {
                        let holds = sized(
                            machine.read(operand_cell(emission, condition)),
                            ValueType::I32,
                        ) != 0;
                        #[trigger] goes(machine, jumps, 0, None) == Some(
                            block_label(
                                function,
                                if holds {
                                    then_block.0 as nat
                                } else {
                                    else_block.0 as nat
                                },
                            ),
                        )
                    },
                    Terminator::Jump(target) => goes(machine, jumps, 0, None) == Some(
                        block_label(function, target.0 as nat),
                    ),
                    _ => true,
                }
        },
{
    let after = emission.terminator(terminator, function, epilogue, is_last);
    reveal_strlit("      ");
    reveal_strlit("    ");
    reveal_strlit("");
    assert("      "@ =~= blanks(6));
    assert("    "@ =~= blanks(4));
    assert(""@ =~= Seq::<char>::empty());
    reveal_with_fuel(jumps_text, 5);
    reveal_with_fuel(goes, 5);
    match terminator {
        Terminator::Branch { condition, then_block, else_block } => {
            lemma_operand(emission, condition, function);
            let cell = operand_cell(emission, condition);
            let typ = condition.typ();
            let first = block_label(function, then_block.0 as nat);
            let second = block_label(function, else_block.0 as nat);
            let jumps = seq![Jump::Test(cell, typ), Jump::Unless(first), Jump::Always(second)];
            let flag = cell_text(cell, typ);
            let e1 = emission.two("testl"@, ""@, "    "@, flag, flag);
            let e2 = e1.one("jne"@, ""@, "      "@, first);
            let e3 = e2.one("jmp"@, ""@, "      "@, second);
            assert(e1.out =~= emission.out + jumps[0].text());
            assert(e2.out =~= e1.out + jumps[1].text());
            assert(e3.out =~= e2.out + jumps[2].text());
            assert(jumps_text(jumps, 0) =~= jumps[0].text() + jumps[1].text() + jumps[2].text());
            assert(after.out =~= emission.out + jumps_text(jumps, 0));
        },
        Terminator::Jump(target) => {
            let label = block_label(function, target.0 as nat);
            let jumps = seq![Jump::Always(label)];
            assert(jumps_text(jumps, 0) =~= jumps[0].text());
            assert(after.out =~= emission.out + jumps_text(jumps, 0));
        },
        _ => {},
    }
}

pub open spec fn jumps_text(jumps: Seq<Jump>, at: nat) -> Seq<char>
    decreases jumps.len() - at,
{
    if at >= jumps.len() {
        Seq::empty()
    } else {
        jumps[at as int].text() + jumps_text(jumps, at + 1)
    }
}

/// The register for the argument at a position, by the calling convention.
pub open spec fn argument(i: int) -> Reg {
    if i == 0 {
        Reg::Rdi
    } else if i == 1 {
        Reg::Rsi
    } else if i == 2 {
        Reg::Rdx
    } else if i == 3 {
        Reg::Rcx
    } else if i == 4 {
        Reg::R8
    } else {
        Reg::R9
    }
}

/// Arguments and results are where the calling convention puts them, at whatever size.
pub proof fn lemma_convention(typ: ValueType, i: usize)
    requires
        typ.passes(),
        i < 6,
    ensures
        arg_reg(typ, i) matches Some(text) && text@ == cell_text(Cell::Reg(argument(i as int)), typ),
        return_reg(typ) matches Some(text) && text@ == cell_text(Cell::Reg(Reg::Rax), typ),
{
    lemma_rax_texts();
    reveal_strlit("%");
    reveal_strlit("%edi");
    reveal_strlit("%esi");
    reveal_strlit("%edx");
    reveal_strlit("%ecx");
    reveal_strlit("%r8d");
    reveal_strlit("%r9d");
    reveal_strlit("%rdi");
    reveal_strlit("%rsi");
    reveal_strlit("%rdx");
    reveal_strlit("%rcx");
    reveal_strlit("%r8");
    reveal_strlit("%r9");
    reveal_strlit("edi");
    reveal_strlit("esi");
    reveal_strlit("edx");
    reveal_strlit("ecx");
    reveal_strlit("r8d");
    reveal_strlit("r9d");
    reveal_strlit("rdi");
    reveal_strlit("rsi");
    reveal_strlit("rdx");
    reveal_strlit("rcx");
    reveal_strlit("r8");
    reveal_strlit("r9");
    assert("%edi"@ =~= "%"@ + "edi"@);
    assert("%esi"@ =~= "%"@ + "esi"@);
    assert("%edx"@ =~= "%"@ + "edx"@);
    assert("%ecx"@ =~= "%"@ + "ecx"@);
    assert("%r8d"@ =~= "%"@ + "r8d"@);
    assert("%r9d"@ =~= "%"@ + "r9d"@);
    assert("%rdi"@ =~= "%"@ + "rdi"@);
    assert("%rsi"@ =~= "%"@ + "rsi"@);
    assert("%rdx"@ =~= "%"@ + "rdx"@);
    assert("%rcx"@ =~= "%"@ + "rcx"@);
    assert("%r8"@ =~= "%"@ + "r8"@);
    assert("%r9"@ =~= "%"@ + "r9"@);
}

/// The result of a function is in `%rax` when it returns.
pub proof fn lemma_return_code(
    emission: Emission,
    operand: Operand,
    function: Seq<char>,
    epilogue: Seq<char>,
)
    requires
        is_plain(operand),
        operand.typ().passes(),
    ensures
        ({
            let returned = Terminator::Return(Some(operand));
            let last = emission.terminator(returned, function, epilogue, true);
            let typ = operand.typ();
            let from = operand_cell(emission, operand);
            &&& computes(
                emission,
                last,
                Cell::Reg(Reg::Rax),
                typ,
                |machine: Machine| true,
                |machine: Machine, v: int| v == sized(machine.read(from), typ),
            )
            &&& emission.terminator(returned, function, epilogue, false).out == last.out
                + Jump::Always(epilogue).text()
        }),
{
    let typ = operand.typ();
    let from = operand_cell(emission, operand);
    let dest = Cell::Reg(Reg::Rax);
    let returned = Terminator::Return(Some(operand));
    let last = emission.terminator(returned, function, epilogue, true);
    lemma_operand(emission, operand, function);
    lemma_convention(typ, 0);
    lemma_same_size(dest, typ, typ);
    lemma_no_lines(emission);
    lemma_mov(emission, emission, Seq::empty(), typ, from, dest);
    let lines = with_move(Seq::empty(), typ, from, dest);
    assert(wrote(emission, last, lines));
    let needs = |machine: Machine| true;
    let result = |machine: Machine, v: int| v == sized(machine.read(from), typ);
    assert forall|machine: Machine| !machine.stuck && needs(machine) implies {
        let end = #[trigger] machine.run(lines, 0);
        stores(machine, end, dest) && result(machine, sized(end.read(dest), typ))
    } by {
        assert(machine.run(Seq::empty(), 0) == machine);
        assert(machine.run(lines, 0) == moved(machine, typ, from, dest));
        lemma_sized(machine.read(from), 0, typ);
    }
    reveal_strlit("      ");
    reveal_strlit("");
    assert("      "@ =~= blanks(6));
    assert(""@ =~= Seq::<char>::empty());
    let other = emission.terminator(returned, function, epilogue, false);
    assert(other.out =~= last.out + Jump::Always(epilogue).text());
}

/// Whether the arguments of a call can be moved one by one: none lives in the register of one before
/// it.
pub open spec fn are_free(emission: Emission, args: Seq<Operand>) -> bool {
    forall|i: int, j: int|
        0 <= j < i < args.len() && i < 6 ==> #[trigger] operand_cell(emission, args[i])
            != Cell::Reg(#[trigger] argument(j))
}

spec fn argument_moves(emission: Emission, lines: Seq<Line>, args: Seq<Operand>, at: nat) -> Seq<Line>
    decreases 6 - at,
{
    if at >= 6 || at >= args.len() {
        lines
    } else {
        let typ = args[at as int].typ();
        argument_moves(
            emission,
            with_move(
                lines,
                typ,
                operand_cell(emission, args[at as int]),
                Cell::Reg(argument(at as int)),
            ),
            args,
            at + 1,
        )
    }
}

proof fn lemma_argument_lines(
    start: Emission,
    before: Emission,
    lines: Seq<Line>,
    args: Seq<Operand>,
    at: nat,
    function: Seq<char>,
)
    requires
        forall|i: int| 0 <= i < args.len() ==> is_plain(#[trigger] args[i]) && args[i].typ().passes(),
        wrote(start, before, lines),
        before.allocation == start.allocation,
        before.saved == start.saved,
    ensures
        wrote(
            start,
            before.move_args(args, at, function),
            argument_moves(start, lines, args, at),
        ),
    decreases 6 - at,
{
    if at < 6 && at < args.len() {
        let arg = args[at as int];
        let typ = arg.typ();
        lemma_operand(before, arg, function);
        lemma_convention(typ, at as usize);
        let from = operand_cell(start, arg);
        let to = Cell::Reg(argument(at as int));
        assert(operand_cell(before, arg) == from);
        lemma_same_size(to, typ, typ);
        lemma_mov(start, before, lines, typ, from, to);
        let next = before.mov(size_letter(typ), cell_text(from, typ), cell_text(to, typ));
        lemma_argument_lines(start, next, with_move(lines, typ, from, to), args, at + 1, function);
    }
}

proof fn lemma_argument_values(
    emission: Emission,
    machine: Machine,
    lines: Seq<Line>,
    args: Seq<Operand>,
    at: nat,
    k: int,
)
    requires
        forall|i: int| 0 <= i < args.len() ==> is_plain(#[trigger] args[i]) && args[i].typ().passes(),
        are_free(emission, args),
        !machine.run(lines, 0).stuck,
        0 <= k < args.len(),
        k < 6,
        k < at ==> sized(machine.run(lines, 0).regs[argument(k)], args[k].typ()) == sized(
            machine.read(operand_cell(emission, args[k])),
            args[k].typ(),
        ),
        at <= k ==> machine.run(lines, 0).read(operand_cell(emission, args[k])) == machine.read(
            operand_cell(emission, args[k]),
        ),
    ensures
        ({
            let after = machine.run(argument_moves(emission, lines, args, at), 0);
            &&& !after.stuck
            &&& sized(after.regs[argument(k)], args[k].typ()) == sized(
                machine.read(operand_cell(emission, args[k])),
                args[k].typ(),
            )
        }),
    decreases 6 - at,
{
    if at < 6 && at < args.len() {
        let typ = args[at as int].typ();
        let from = operand_cell(emission, args[at as int]);
        let to = Cell::Reg(argument(at as int));
        let next = with_move(lines, typ, from, to);
        let now = machine.run(lines, 0);
        if from != to {
            lemma_run_push(machine, lines, two_line(Name::Mov, Some(typ), 4, (from, typ), (to, typ)), 0);
        }
        assert(machine.run(next, 0) == moved(now, typ, from, to));
        lemma_sized(now.read(from), 0, typ);
        if at < k {
            assert(operand_cell(emission, args[k]) != Cell::Reg(argument(at as int)));
        }
        lemma_argument_values(emission, machine, next, args, at + 1, k);
    }
}

/// The arguments of a call are in the registers of the calling convention, each in that of its
/// position, when the function is called.
pub proof fn lemma_arguments_code(emission: Emission, args: Seq<Operand>, function: Seq<char>)
    requires
        forall|i: int| 0 <= i < args.len() ==> is_plain(#[trigger] args[i]) && args[i].typ().passes(),
        are_free(emission, args),
    ensures
        exists|lines: Seq<Line>| #[trigger]
            wrote(emission, emission.move_args(args, 0, function), lines) && forall|
                machine: Machine,
                k: int,
            |
                !machine.stuck && 0 <= k < args.len() && k < 6 ==> {
                    let after = #[trigger] machine.run(lines, 0);
                    let typ = (#[trigger] args[k]).typ();
                    !after.stuck && sized(after.regs[argument(k)], typ) == sized(
                        machine.read(operand_cell(emission, args[k])),
                        typ,
                    )
                },
{
    lemma_no_lines(emission);
    lemma_argument_lines(emission, emission, Seq::empty(), args, 0, function);
    let lines = argument_moves(emission, Seq::empty(), args, 0);
    assert forall|machine: Machine, k: int|
        !machine.stuck && 0 <= k < args.len() && k < 6 implies {
        let after = #[trigger] machine.run(lines, 0);
        let typ = (#[trigger] args[k]).typ();
        !after.stuck && sized(after.regs[argument(k)], typ) == sized(
            machine.read(operand_cell(emission, args[k])),
            typ,
        )
    } by {
        assert(machine.run(Seq::empty(), 0) == machine);
        lemma_argument_values(emission, machine, Seq::empty(), args, 0, k);
    }
    assert(wrote(emission, emission.move_args(args, 0, function), lines));
}

/// A call names the function that is called, between placing the arguments and fetching the result
/// from `%rax`.
pub proof fn lemma_call_code(
    emission: Emission,
    callee: nat,
    args: Seq<Operand>,
    typ: ValueType,
    dest: ValueId,
    function: Seq<char>,
)
    requires
        typ.passes(),
        args.len() <= 6,
    ensures
        ({
            let placed = emission.move_args(args, 0, function);
            let called = Emission {
                out: placed.out + "    "@ + "call"@ + blanks(5) + function_label(
                    placed.functions[callee as int].name_symbol,
                    placed.symbols,
                ) + "\n"@,
                ..placed
            };
            emission.call(callee, args, typ, emission.location(dest, typ), function) == called.mov(
                size_letter(typ),
                cell_text(Cell::Reg(Reg::Rax), typ),
                cell_text(home(emission, dest), typ),
            )
        }),
{
    lemma_convention(typ, 0);
    lemma_home(emission, dest, typ);
    lemma_same_size(Cell::Reg(Reg::Rax), typ, typ);
    lemma_blanks();
    assert(emission.push_args(args, args.len(), function) == emission);
    let placed = emission.move_args(args, 0, function);
    let label = function_label(placed.functions[callee as int].name_symbol, placed.symbols);
    let called = placed.one("call"@, ""@, "     "@, label);
    assert(called.out =~= placed.out + "    "@ + "call"@ + blanks(5) + label + "\n"@);
}

/// Whether parameters can be moved home one by one: none lives in the register of a later one, nor
/// where another lives.
pub open spec fn have_homes(emission: Emission, params: Seq<(ValueId, ValueType)>) -> bool {
    &&& forall|i: int, j: int|
        0 <= i < j < params.len() && j < 6 ==> home(emission, (#[trigger] params[i]).0) != Cell::Reg(
            #[trigger] argument(j),
        )
    &&& forall|i: int, j: int|
        0 <= i < j < params.len() && j < 6 ==> home(emission, (#[trigger] params[i]).0) != home(
            emission,
            (#[trigger] params[j]).0,
        )
}

spec fn param_moves(
    emission: Emission,
    lines: Seq<Line>,
    params: Seq<(ValueId, ValueType)>,
    at: nat,
) -> Seq<Line>
    decreases 6 - at,
{
    if at >= 6 || at >= params.len() {
        lines
    } else {
        let (id, typ) = params[at as int];
        param_moves(
            emission,
            with_move(lines, typ, Cell::Reg(argument(at as int)), home(emission, id)),
            params,
            at + 1,
        )
    }
}

proof fn lemma_param_lines(
    start: Emission,
    before: Emission,
    lines: Seq<Line>,
    params: Seq<(ValueId, ValueType)>,
    at: nat,
)
    requires
        forall|i: int| 0 <= i < params.len() ==> (#[trigger] params[i]).1.passes(),
        wrote(start, before, lines),
        before.allocation == start.allocation,
        before.saved == start.saved,
    ensures
        wrote(start, before.params(params, at), param_moves(start, lines, params, at)),
    decreases 6 - at,
{
    if at < 6 && at < params.len() {
        let (id, typ) = params[at as int];
        lemma_convention(typ, at as usize);
        let from = Cell::Reg(argument(at as int));
        let to = home(start, id);
        lemma_home(before, id, typ);
        assert(home(before, id) == to);
        lemma_same_size(to, typ, typ);
        lemma_mov(start, before, lines, typ, from, to);
        let next = before.mov(size_letter(typ), cell_text(from, typ), cell_text(to, typ));
        lemma_param_lines(start, next, with_move(lines, typ, from, to), params, at + 1);
    }
}

proof fn lemma_param_values(
    emission: Emission,
    machine: Machine,
    lines: Seq<Line>,
    params: Seq<(ValueId, ValueType)>,
    at: nat,
    k: int,
)
    requires
        forall|i: int| 0 <= i < params.len() ==> (#[trigger] params[i]).1.passes(),
        have_homes(emission, params),
        !machine.run(lines, 0).stuck,
        0 <= k < params.len(),
        k < 6,
        k < at ==> sized(machine.run(lines, 0).read(home(emission, params[k].0)), params[k].1)
            == sized(machine.regs[argument(k)], params[k].1),
        at <= k ==> machine.run(lines, 0).regs[argument(k)] == machine.regs[argument(k)],
    ensures
        ({
            let after = machine.run(param_moves(emission, lines, params, at), 0);
            &&& !after.stuck
            &&& sized(after.read(home(emission, params[k].0)), params[k].1) == sized(
                machine.regs[argument(k)],
                params[k].1,
            )
        }),
    decreases 6 - at,
{
    if at < 6 && at < params.len() {
        let (id, typ) = params[at as int];
        let from = Cell::Reg(argument(at as int));
        let to = home(emission, id);
        let next = with_move(lines, typ, from, to);
        let now = machine.run(lines, 0);
        if from != to {
            lemma_run_push(
                machine,
                lines,
                two_line(Name::Mov, Some(typ), 4, (from, typ), (to, typ)),
                0,
            );
        }
        assert(machine.run(next, 0) == moved(now, typ, from, to));
        lemma_sized(now.read(from), 0, typ);
        if at < k {
            assert(home(emission, params[at as int].0) != Cell::Reg(argument(k)));
        }
        if k < at {
            assert(home(emission, params[k].0) != home(emission, params[at as int].0));
        }
        lemma_param_values(emission, machine, next, params, at + 1, k);
    }
}

/// A function finds its parameters at home: each of the first six, in order, is moved there from the
/// register of its position.
pub proof fn lemma_params_code(emission: Emission, params: Seq<(ValueId, ValueType)>)
    requires
        forall|i: int| 0 <= i < params.len() ==> (#[trigger] params[i]).1.passes(),
        have_homes(emission, params),
    ensures
        exists|lines: Seq<Line>| #[trigger]
            wrote(emission, emission.params(params, 0), lines) && forall|machine: Machine, k: int|
                !machine.stuck && 0 <= k < params.len() && k < 6 ==> {
                    let after = #[trigger] machine.run(lines, 0);
                    let (id, typ) = #[trigger] params[k];
                    !after.stuck && sized(after.read(home(emission, id)), typ) == sized(
                        machine.regs[argument(k)],
                        typ,
                    )
                },
{
    lemma_no_lines(emission);
    lemma_param_lines(emission, emission, Seq::empty(), params, 0);
    let lines = param_moves(emission, Seq::empty(), params, 0);
    assert forall|machine: Machine, k: int|
        !machine.stuck && 0 <= k < params.len() && k < 6 implies {
        let after = #[trigger] machine.run(lines, 0);
        let (id, typ) = #[trigger] params[k];
        !after.stuck && sized(after.read(home(emission, id)), typ) == sized(
            machine.regs[argument(k)],
            typ,
        )
    } by {
        assert(machine.run(Seq::empty(), 0) == machine);
        lemma_param_values(emission, machine, Seq::empty(), params, 0, k);
    }
    assert(wrote(emission, emission.params(params, 0), lines));
}

/// The text of a move, which is left out where the value is there already.
pub open spec fn move_text(suffix: Seq<char>, from: Seq<char>, to: Seq<char>) -> Seq<char> {
    if from == to {
        Seq::empty()
    } else {
        "    "@ + "mov"@ + suffix + blanks(4) + from + ", "@ + to + "\n"@
    }
}

/// The blanks before the operands of an operation on its destination.
pub open spec fn update_gap(operation: BinaryOperation) -> nat {
    match operation {
        BinaryOperation::Mul => 3,
        BinaryOperation::Or => 5,
        _ => 4,
    }
}

/// Of whatever type the operands are, floats among them, an operation on the destination is written
/// as a move of the left operand to it and the operation of the right operand on it.
#[verifier::spinoff_prover]
pub proof fn lemma_update_order(
    emission: Emission,
    operation: BinaryOperation,
    typ: ValueType,
    left: Operand,
    right: Operand,
    dest: Seq<char>,
    function: Seq<char>,
)
    requires
        update_name(operation) is Some,
    ensures
        ({
            let (first, lhs) = emission.operand(left, function);
            let (next, rhs) = first.operand(right, function);
            let suffix = typ.size_suffix()@;
            let name = update_name(operation)->0.text();
            let gap = blanks(update_gap(operation));
            emission.binary(operation, typ, left, right, dest, function).out == emission.out
                + move_text(suffix, lhs, dest) + ("    "@ + name + suffix + gap + rhs + ", "@ + dest
                + "\n"@)
        }),
{
    lemma_blanks();
    let (first, lhs) = emission.operand(left, function);
    let (next, rhs) = first.operand(right, function);
    let suffix = typ.size_suffix()@;
    let name = update_name(operation)->0.text();
    let gap = blanks(update_gap(operation));
    let moved = next.mov(suffix, lhs, dest);
    assert(moved.out == emission.out + move_text(suffix, lhs, dest)) by {
        if lhs == dest {
            assert(emission.out + Seq::empty() =~= emission.out);
        } else {
            lemma_two_text(next, "mov"@, suffix, blanks(4), lhs, dest);
        }
    }
    lemma_two_text(moved, name, suffix, gap, rhs, dest);
    let (text, gap_text) = update_form(operation)->0;
    assert(text@ == name);
    assert(gap_text@ == gap);
}

proof fn lemma_two_text(
    emission: Emission,
    name: Seq<char>,
    part: Seq<char>,
    gap: Seq<char>,
    a: Seq<char>,
    b: Seq<char>,
)
    ensures
        emission.two(name, part, gap, a, b).out == emission.out + ("    "@ + name + part + gap + a
            + ", "@ + b + "\n"@),
{
    assert(emission.two(name, part, gap, a, b).out =~= emission.out + ("    "@ + name + part + gap
        + a + ", "@ + b + "\n"@));
}

/// The code of some instructions is that of the first ones, followed by that of the others.
pub proof fn lemma_instructions_in_order(
    emission: Emission,
    instructions: Seq<Instruction>,
    at: nat,
    middle: nat,
    function: Seq<char>,
)
    requires
        at <= middle <= instructions.len(),
    ensures
        emission.instructions(instructions, at, function) == emission.instructions(
            instructions.take(middle as int),
            at,
            function,
        ).instructions(instructions, middle, function),
        at + 1 == middle ==> emission.instructions(instructions, at, function)
            == emission.instruction(instructions[at as int], function).instructions(
            instructions,
            middle,
            function,
        ),
    decreases middle - at,
{
    let first = instructions.take(middle as int);
    if at < middle {
        assert(first[at as int] == instructions[at as int]);
        let next = emission.instruction(instructions[at as int], function);
        lemma_instructions_in_order(next, instructions, at + 1, middle, function);
    }
}

/// A floating-point constant is read from an entry of the pool that holds its bits at its width, and
/// the entries that were there stay.
pub proof fn lemma_float_constant(
    emission: Emission,
    value: FloatBits,
    is_32: bool,
    function: Seq<char>,
)
    ensures
        ({
            let (after, text) = emission.float_label(value, is_32, function);
            &&& emission.pool.len() <= after.pool.len()
            &&& after.out == emission.out
            &&& forall|i: int|
                0 <= i < emission.pool.len() ==> #[trigger] after.pool[i] == emission.pool[i]
            &&& exists|k: int|
                0 <= k < after.pool.len() && (#[trigger] after.pool[k]).is_32 == is_32
                    && after.pool[k].bits == (if is_32 {
                    value.single as u64
                } else {
                    value.double
                }) && text == after.pool[k].label + "(%rip)"@
        }),
{
    let bits = float_bits(value, is_32);
    lemma_float_found(emission.pool, bits, is_32, 0);
    let (after, text) = emission.float_label(value, is_32, function);
    match find_float(emission.pool, bits, is_32, 0) {
        Some(k) => {
            assert(after.pool[k as int].bits == bits);
        },
        None => {
            assert(after.pool[emission.pool.len() as int].bits == bits);
        },
    }
}

proof fn lemma_float_found(pool: Seq<FloatEntry>, bits: u64, is_32: bool, at: nat)
    ensures
        find_float(pool, bits, is_32, at) matches Some(k) ==> at <= k < pool.len()
            && pool[k as int].bits == bits && pool[k as int].is_32 == is_32,
    decreases pool.len() - at,
{
    if at < pool.len() {
        lemma_float_found(pool, bits, is_32, at + 1);
    }
}

/// The lines of an entry of the pool: its alignment, its label and its bits.
pub open spec fn entry_text(entry: FloatEntry) -> Seq<char> {
    (if entry.is_32 {
        ".align 4"@
    } else {
        ".align 8"@
    }) + "\n"@ + entry.label + ":"@ + "\n"@ + "    "@ + (if entry.is_32 {
        ".long"@
    } else {
        ".quad"@
    }) + " "@ + (if entry.is_32 {
        decimal(entry.bits as u32 as nat)
    } else {
        decimal(entry.bits as nat)
    }) + "\n"@
}

pub open spec fn entries_text(pool: Seq<FloatEntry>) -> Seq<char>
    decreases pool.len(),
{
    if pool.len() == 0 {
        Seq::empty()
    } else {
        entry_text(pool[0]) + entries_text(pool.skip(1))
    }
}

/// Every entry of the pool is written, in order, under its label.
pub proof fn lemma_pool_code(emission: Emission, pool: Seq<FloatEntry>, at: nat)
    requires
        at <= pool.len(),
    ensures
        emission.floats(pool, at).out == emission.out + entries_text(pool.skip(at as int)),
    decreases pool.len() - at,
{
    let rest = pool.skip(at as int);
    if at < pool.len() {
        let entry = pool[at as int];
        let aligned = emission.label(
            if entry.is_32 {
                ".align 4"@
            } else {
                ".align 8"@
            },
        ).label(entry.label + ":"@);
        let next = if entry.is_32 {
            aligned.one(".long"@, ""@, " "@, decimal(entry.bits as u32 as nat))
        } else {
            aligned.one(".quad"@, ""@, " "@, decimal(entry.bits as nat))
        };
        reveal_strlit("");
        assert(""@ =~= Seq::<char>::empty());
        assert(next.out =~= emission.out + entry_text(entry));
        lemma_pool_code(next, pool, at + 1);
        assert(rest[0] == entry);
        assert(rest.skip(1) =~= pool.skip(at as int + 1));
        assert(emission.out + entry_text(entry) + entries_text(rest.skip(1)) =~= emission.out + (
        entry_text(entry) + entries_text(rest.skip(1))));
    } else {
        assert(rest =~= Seq::empty());
        assert(emission.out + Seq::empty() =~= emission.out);
    }
}

/// What a function takes for its frame: nothing where it needs none.
pub open spec fn frame_text(name: Seq<char>, size: nat) -> Seq<char> {
    if size > 0 {
        "    "@ + name + ""@ + "     $"@ + decimal(size) + ", "@ + "%rsp"@ + "\n"@
    } else {
        Seq::empty()
    }
}

/// A function leaves as it entered: what it takes for its frame it gives back, the registers it saved
/// come back in the reverse order, and the caller's frame comes last.
pub proof fn lemma_frame_code(
    emission: Emission,
    name: Seq<char>,
    params: Seq<(ValueId, ValueType)>,
    label: Seq<char>,
    size: nat,
)
    ensures
        ({
            let entered = Emission {
                out: emission.out + ".globl "@ + name + "\n"@ + name + ":"@ + "\n"@ + "    "@
                    + "push    %rbp"@ + "\n"@ + "    "@ + "mov     %rsp, %rbp"@ + "\n"@ + each(
                    "push"@,
                    "    "@,
                    emission.saved,
                ) + frame_text("sub"@, size),
                ..emission
            };
            emission.prologue(name, params, size) == entered.params(params, 0)
        }),
        emission.epilogue(label, size).out == emission.out + label + ":"@ + "\n"@ + frame_text(
            "add"@,
            size,
        ) + each("pop"@, "     "@, emission.saved.reverse()) + "    "@ + "pop     %rbp"@ + "\n"@
            + "    "@ + "ret"@ + "\n"@,
{
    let named = emission.label(".globl "@ + name).label(name + ":"@).line("push    %rbp"@).line(
        "mov     %rsp, %rbp"@,
    );
    assert(named.out =~= emission.out + ".globl "@ + name + "\n"@ + name + ":"@ + "\n"@ + "    "@
        + "push    %rbp"@ + "\n"@ + "    "@ + "mov     %rsp, %rbp"@ + "\n"@);
    lemma_saved_restored(named, emission.saved);
    lemma_push_keeps(named, emission.saved, 0);
    let saved = named.push_saved(emission.saved, 0);
    if size > 0 {
        assert(saved.two("sub"@, ""@, "     $"@, decimal(size), "%rsp"@).out =~= saved.out
            + frame_text("sub"@, size));
    } else {
        assert(saved.out =~= saved.out + frame_text("sub"@, size));
    }
    let labelled = emission.label(label + ":"@);
    assert(labelled.out =~= emission.out + label + ":"@ + "\n"@);
    let unframed = if size > 0 {
        labelled.two("add"@, ""@, "     $"@, decimal(size), "%rsp"@)
    } else {
        labelled
    };
    assert(unframed.out =~= labelled.out + frame_text("add"@, size));
    lemma_saved_restored(unframed, emission.saved);
    let popped = unframed.pop_saved(emission.saved, emission.saved.len());
    assert(popped.line("pop     %rbp"@).line("ret"@).out =~= popped.out + "    "@ + "pop     %rbp"@
        + "\n"@ + "    "@ + "ret"@ + "\n"@);
}

proof fn lemma_push_keeps(emission: Emission, saved: Seq<Reg>, at: nat)
    ensures
        emission.push_saved(saved, at) == (Emission {
            out: emission.push_saved(saved, at).out,
            ..emission
        }),
    decreases saved.len() - at,
{
    if at < saved.len() {
        let next = emission.one("push"@, ""@, "    %"@, saved[at as int].name_64()@);
        lemma_push_keeps(next, saved, at + 1);
    }
}

/// What is on the stack of the arguments from the one before `from` down to that at `end`.
pub open spec fn stacked(
    emission: Emission,
    machine: Machine,
    args: Seq<Operand>,
    end: nat,
) -> Seq<int> {
    Seq::new(
        (args.len() - end) as nat,
        |i: int| machine.read(operand_cell(emission, args[args.len() - 1 - i])),
    )
}

/// Whether running lines pushes the arguments down to that at `end` and does nothing else.
spec fn pushes(emission: Emission, lines: Seq<Line>, args: Seq<Operand>, end: nat) -> bool {
    forall|machine: Machine| #[trigger]
        machine.run(lines, 0) == (Machine {
            stack: machine.stack + stacked(emission, machine, args, end),
            ..machine
        })
}

proof fn lemma_push_step(
    start: Emission,
    before: Emission,
    lines: Seq<Line>,
    args: Seq<Operand>,
    end: nat,
    function: Seq<char>,
)
    requires
        6 < end <= args.len(),
        forall|i: int| 0 <= i < args.len() ==> is_plain(#[trigger] args[i]),
        wrote(start, before, lines),
        before.allocation == start.allocation,
        before.saved == start.saved,
        pushes(start, lines, args, end),
    ensures
        ({
            let arg = args[end - 1];
            let line = one_line(
                Name::Push,
                Some(arg.typ()),
                3,
                (operand_cell(start, arg), arg.typ()),
            );
            let (next, source) = before.operand(arg, function);
            let after = next.one("push"@, arg.typ().size_suffix()@, "   "@, source);
            &&& next == before
            &&& wrote(start, after, lines.push(line))
            &&& pushes(start, lines.push(line), args, (end - 1) as nat)
        }),
{
    let arg = args[end - 1];
    let typ = arg.typ();
    let cell = operand_cell(start, arg);
    let line = one_line(Name::Push, Some(typ), 3, (cell, typ));
    lemma_blanks();
    lemma_operand(before, arg, function);
    assert(operand_cell(before, arg) == cell);
    lemma_same_size(cell, typ, typ);
    let after = before.one("push"@, size_letter(typ), "   "@, cell_text(cell, typ));
    lemma_one(before, line, "push"@, size_letter(typ), "   "@);
    lemma_wrote(start, before, after, lines, line);
    assert forall|machine: Machine| #[trigger]
        machine.run(lines.push(line), 0) == (Machine {
            stack: machine.stack + stacked(start, machine, args, (end - 1) as nat),
            ..machine
        }) by {
        let now = machine.run(lines, 0);
        assert(now == (Machine {
            stack: machine.stack + stacked(start, machine, args, end),
            ..machine
        }));
        assert(now.read(cell) == machine.read(cell));
        assert(now.step(line).stack =~= machine.stack + stacked(
            start,
            machine,
            args,
            (end - 1) as nat,
        ));
    }
}

proof fn lemma_push_lines(
    start: Emission,
    before: Emission,
    lines: Seq<Line>,
    args: Seq<Operand>,
    end: nat,
    function: Seq<char>,
) -> (all: Seq<Line>)
    requires
        6 <= end <= args.len(),
        forall|i: int| 0 <= i < args.len() ==> is_plain(#[trigger] args[i]),
        wrote(start, before, lines),
        before.allocation == start.allocation,
        before.saved == start.saved,
        pushes(start, lines, args, end),
    ensures
        wrote(start, before.push_args(args, end, function), all),
        pushes(start, all, args, 6),
    decreases end,
{
    if end <= 6 {
        lines
    } else {
        let arg = args[end - 1];
        lemma_push_step(start, before, lines, args, end, function);
        let line = one_line(
            Name::Push,
            Some(arg.typ()),
            3,
            (operand_cell(start, arg), arg.typ()),
        );
        let (next, source) = before.operand(arg, function);
        let after = next.one("push"@, arg.typ().size_suffix()@, "   "@, source);
        lemma_push_lines(start, after, lines.push(line), args, (end - 1) as nat, function)
    }
}

/// The arguments past the sixth are on the stack when the function is called, the seventh on top and
/// the last one deepest.
pub proof fn lemma_stacked_arguments(emission: Emission, args: Seq<Operand>, function: Seq<char>)
    requires
        args.len() >= 6,
        forall|i: int| 0 <= i < args.len() ==> is_plain(#[trigger] args[i]),
    ensures
        exists|lines: Seq<Line>| #[trigger]
            wrote(emission, emission.push_args(args, args.len(), function), lines) && forall|
                machine: Machine,
            | #[trigger]
                machine.run(lines, 0).stack == machine.stack + stacked(emission, machine, args, 6),
{
    lemma_no_lines(emission);
    assert forall|machine: Machine| #[trigger]
        machine.run(Seq::empty(), 0) == (Machine {
            stack: machine.stack + stacked(emission, machine, args, args.len()),
            ..machine
        }) by {
        assert(machine.stack + stacked(emission, machine, args, args.len()) =~= machine.stack);
    }
    let lines = lemma_push_lines(emission, emission, Seq::empty(), args, args.len(), function);
    assert forall|machine: Machine| #[trigger]
        machine.run(lines, 0).stack == machine.stack + stacked(emission, machine, args, 6) by {}
    assert(wrote(emission, emission.push_args(args, args.len(), function), lines));
}

/// The code of a function's blocks: each in its turn, under its label unless it is the entry, with
/// all its instructions and then what ends it; only the last one can run into the epilogue.
pub proof fn lemma_blocks_code(
    emission: Emission,
    blocks: Seq<Block>,
    at: nat,
    function: Seq<char>,
    epilogue: Seq<char>,
)
    ensures
        at >= blocks.len() ==> emission.blocks(blocks, at, function, epilogue) == emission,
        at < blocks.len() ==> {
            let block = blocks[at as int];
            let named = emission.out + block_label(function, at) + ":"@ + "\n"@;
            let start = (Emission {
                out: if at == 0 {
                    emission.out
                } else {
                    named
                },
                ..emission
            });
            emission.blocks(blocks, at, function, epilogue) == start.instructions(
                block.instructions@,
                0,
                function,
            ).terminator(block.terminator, function, epilogue, at + 1 == blocks.len()).blocks(
                blocks,
                at + 1,
                function,
                epilogue,
            )
        },
{
    if 0 < at < blocks.len() {
        let named = emission.out + block_label(function, at) + ":"@ + "\n"@;
        assert(emission.label(block_label(function, at) + ":"@).out =~= named);
    }
}

/// The code of a program: that of its functions one after the other, and after them the entry point
/// where one of them is `main`, which hands the result of `main` to the system.
pub proof fn lemma_program_code(
    functions: Seq<Function>,
    allocations: Seq<Allocation>,
    symbols: Seq<Seq<char>>,
    out: Seq<char>,
    at: nat,
)
    ensures
        at >= functions.len() ==> functions_code(out, functions, allocations, symbols, at) == out,
        at < functions.len() ==> functions_code(out, functions, allocations, symbols, at)
            == functions_code(
            function_code(out, functions[at as int], allocations[at as int], functions, symbols),
            functions,
            allocations,
            symbols,
            at + 1,
        ),
        (exists|i: int|
            0 <= i < functions.len() && (#[trigger] functions[i]).name_symbol < symbols.len()
                && symbols[functions[i].name_symbol as int] == "main"@) ==> program_code(
            functions,
            allocations,
            symbols,
        ) == functions_code(".text\n"@, functions, allocations, symbols, 0) + (".globl _start\n"@
            + "_start:\n"@ + "    call    nyx_main\n"@ + "    movl    %eax, %edi\n"@
            + "    movl    $60, %eax\n"@ + "    syscall\n"@),
        !(exists|i: int|
            0 <= i < functions.len() && (#[trigger] functions[i]).name_symbol < symbols.len()
                && symbols[functions[i].name_symbol as int] == "main"@) ==> program_code(
            functions,
            allocations,
            symbols,
        ) == functions_code(".text\n"@, functions, allocations, symbols, 0),
{
    reveal_strlit(".globl _start\n");
    reveal_strlit("_start:\n");
    reveal_strlit("    call    nyx_main\n");
    reveal_strlit("    movl    %eax, %edi\n");
    reveal_strlit("    movl    $60, %eax\n");
    reveal_strlit("    syscall\n");
    reveal_strlit(
        ".globl _start\n_start:\n    call    nyx_main\n    movl    %eax, %edi\n    movl    $60, %eax\n    syscall\n",
    );
    assert(start_code() =~= ".globl _start\n"@ + "_start:\n"@ + "    call    nyx_main\n"@
        + "    movl    %eax, %edi\n"@ + "    movl    $60, %eax\n"@ + "    syscall\n"@);
}

} // verus!
