//! Emission of x86_64 assembly in AT&T syntax.
//!
//! - Sizes: suffix `l` for 32-bit values, `q` for 64-bit values and pointers
//! - Frame: System V AMD64 (`push %rbp; mov %rsp, %rbp; sub $N, %rsp`)
//! - Arguments: the first six in `%rdi %rsi %rdx %rcx %r8 %r9`, the rest on the stack, last first
//! - Result: `%rax`, or `%eax` for 32 bits
//! - Spilled values: `-N(%rbp)`

use crate::mir::{
    BinaryOperation, Block, Const, FloatBits, Function, Instruction, InstructionKind, Mir, Operand,
    Place, Terminator, UnaryOperation, ValueId, ValueType,
};
use crate::regalloc::{callee_saved, Allocation, Location, Reg};
use crate::text::{
    decimal, decimal_text, lemma_numbered_injective, push_decimal, push_signed, push_text,
    signed_decimal, text_eq,
};
use vstd::prelude::*;

verus! {

impl ValueType {
    /// The size suffix of an instruction on values of the type.
    #[verifier::allow_in_spec]
    pub fn size_suffix(self) -> &'static str
        requires
            self != ValueType::Unit,
        returns
            (match self {
                ValueType::I8 | ValueType::U8 => "b",
                ValueType::I16 | ValueType::U16 => "w",
                ValueType::I32 | ValueType::U32 | ValueType::Bool | ValueType::Char => "l",
                ValueType::F32 => "ss",
                ValueType::F64 => "sd",
                _ => "q",
            }),
    {
        match self {
            ValueType::I8 | ValueType::U8 => "b",
            ValueType::I16 | ValueType::U16 => "w",
            ValueType::I32 | ValueType::U32 | ValueType::Bool | ValueType::Char => "l",
            ValueType::F32 => "ss",
            ValueType::F64 => "sd",
            _ => "q",
        }
    }

    /// Whether a value of the type can be passed to a function and returned from one.
    pub open spec fn passes(self) -> bool {
        self is I32 || self is Bool || self is I64 || self is String
    }
}

/// The name of the part of a register that holds a value of the type.
#[verifier::allow_in_spec]
pub fn reg_name(reg: Reg, typ: ValueType) -> &'static str
    requires
        typ != ValueType::Unit,
    returns
        (match typ {
            ValueType::I8 | ValueType::U8 => reg.name_8(),
            ValueType::I16 | ValueType::U16 => reg.name_16(),
            ValueType::I32 | ValueType::U32 | ValueType::Bool | ValueType::Char => reg.name_32(),
            ValueType::F32 | ValueType::F64 => reg.name_vector(),
            _ => reg.name_64(),
        }),
{
    match typ {
        ValueType::I8 | ValueType::U8 => reg.name_8(),
        ValueType::I16 | ValueType::U16 => reg.name_16(),
        ValueType::I32 | ValueType::U32 | ValueType::Bool | ValueType::Char => reg.name_32(),
        ValueType::F32 | ValueType::F64 => reg.name_vector(),
        _ => reg.name_64(),
    }
}

/// The register that carries an argument of 32 bits, by its position.
#[verifier::allow_in_spec]
pub fn arg_reg_32(index: usize) -> &'static str
    requires
        index < 6,
    returns
        (match index {
            0 => "%edi",
            1 => "%esi",
            2 => "%edx",
            3 => "%ecx",
            4 => "%r8d",
            _ => "%r9d",
        }),
{
    match index {
        0 => "%edi",
        1 => "%esi",
        2 => "%edx",
        3 => "%ecx",
        4 => "%r8d",
        _ => "%r9d",
    }
}

/// The register that carries an argument of 64 bits, by its position.
#[verifier::allow_in_spec]
pub fn arg_reg_64(index: usize) -> &'static str
    requires
        index < 6,
    returns
        (match index {
            0 => "%rdi",
            1 => "%rsi",
            2 => "%rdx",
            3 => "%rcx",
            4 => "%r8",
            _ => "%r9",
        }),
{
    match index {
        0 => "%rdi",
        1 => "%rsi",
        2 => "%rdx",
        3 => "%rcx",
        4 => "%r8",
        _ => "%r9",
    }
}

/// The register that carries an argument, if one does.
#[verifier::allow_in_spec]
pub fn arg_reg(typ: ValueType, index: usize) -> Option<&'static str>
    requires
        index < 6,
    returns
        (match typ {
            ValueType::I32 | ValueType::Bool => Some(arg_reg_32(index)),
            ValueType::I64 | ValueType::String => Some(arg_reg_64(index)),
            _ => None,
        }),
{
    match typ {
        ValueType::I32 | ValueType::Bool => Some(arg_reg_32(index)),
        ValueType::I64 | ValueType::String => Some(arg_reg_64(index)),
        _ => None,
    }
}

/// The register a result comes back in, if one does.
#[verifier::allow_in_spec]
pub fn return_reg(typ: ValueType) -> Option<&'static str>
    returns
        (match typ {
            ValueType::I32 | ValueType::Bool => Some("%eax"),
            ValueType::I64 | ValueType::String => Some("%rax"),
            _ => None,
        }),
{
    match typ {
        ValueType::I32 | ValueType::Bool => Some("%eax"),
        ValueType::I64 | ValueType::String => Some("%rax"),
        _ => None,
    }
}

/// The label of a function: made of its name, or of its number if it has none.
pub open spec fn function_label(symbol: usize, symbols: Seq<Seq<char>>) -> Seq<char> {
    if symbol < symbols.len() {
        "nyx_"@ + symbols[symbol as int]
    } else {
        "nyx_func_"@ + decimal(symbol as nat)
    }
}

pub open spec fn texts(names: Seq<String>) -> Seq<Seq<char>> {
    names.map_values(|name: String| name@)
}

fn function_label_text(symbol: usize, symbols: &Vec<String>) -> (label: String)
    ensures
        label@ == function_label(symbol, texts(symbols@)),
{
    if symbol < symbols.len() {
        let mut label = "nyx_".to_owned();
        push_text(&mut label, symbols[symbol].as_str());
        label
    } else {
        let mut label = "nyx_func_".to_owned();
        push_decimal(&mut label, symbol as u128);
        label
    }
}

/// The label of a block, scoped to its function.
pub open spec fn block_label(function: Seq<char>, index: nat) -> Seq<char> {
    ".L_block_"@ + function + "_"@ + decimal(index)
}

fn block_label_text(function: &str, index: u128) -> (label: String)
    ensures
        label@ == block_label(function@, index as nat),
{
    let mut label = ".L_block_".to_owned();
    push_text(&mut label, function);
    push_text(&mut label, "_");
    push_decimal(&mut label, index);
    label
}

/// A floating-point constant, its label and its width.
#[derive(Debug)]
pub struct FloatConst {
    pub label: String,
    pub bits: u64,
    pub is_32: bool,
}

pub ghost struct FloatEntry {
    pub label: Seq<char>,
    pub bits: u64,
    pub is_32: bool,
}

impl View for FloatConst {
    type V = FloatEntry;

    open spec fn view(&self) -> FloatEntry {
        FloatEntry { label: self.label@, bits: self.bits, is_32: self.is_32 }
    }
}

pub open spec fn entries(pool: Seq<FloatConst>) -> Seq<FloatEntry> {
    pool.map_values(|float: FloatConst| float@)
}

/// The bits of a number in the wanted width.
#[verifier::allow_in_spec]
pub fn float_bits(value: FloatBits, is_32: bool) -> u64
    returns
        (if is_32 {
            value.single as u64
        } else {
            value.double
        }),
{
    if is_32 {
        value.single as u64
    } else {
        value.double
    }
}

/// The bits of minus zero: the sign alone.
#[verifier::allow_in_spec]
pub fn negative_zero() -> FloatBits
    returns
        (FloatBits { single: 0x8000_0000, double: 0x8000_0000_0000_0000 }),
{
    FloatBits { single: 0x8000_0000, double: 0x8000_0000_0000_0000 }
}

/// The first entry at or after `at` that holds the constant.
pub open spec fn find_float(pool: Seq<FloatEntry>, bits: u64, is_32: bool, at: nat) -> Option<nat>
    decreases pool.len() - at,
{
    if at >= pool.len() {
        None
    } else if pool[at as int].bits == bits && pool[at as int].is_32 == is_32 {
        Some(at)
    } else {
        find_float(pool, bits, is_32, at + 1)
    }
}

/// The callee-saved registers a function uses, in the order they are saved.
pub open spec fn saved_registers(allocation: Allocation) -> Seq<Reg> {
    callee_saved().filter(|reg: Reg| allocation.uses(reg))
}

/// The operations that work on the destination in place: the instruction, and the gap before
/// its operands.
#[verifier::allow_in_spec]
pub fn update_form(operation: BinaryOperation) -> Option<(&'static str, &'static str)>
    returns
        (match operation {
            BinaryOperation::Add => Some(("add", "    ")),
            BinaryOperation::Sub => Some(("sub", "    ")),
            BinaryOperation::Mul => Some(("imul", "   ")),
            BinaryOperation::And => Some(("and", "    ")),
            BinaryOperation::Or => Some(("or", "     ")),
            _ => None,
        }),
{
    match operation {
        BinaryOperation::Add => Some(("add", "    ")),
        BinaryOperation::Sub => Some(("sub", "    ")),
        BinaryOperation::Mul => Some(("imul", "   ")),
        BinaryOperation::And => Some(("and", "    ")),
        BinaryOperation::Or => Some(("or", "     ")),
        _ => None,
    }
}

/// The instruction that turns the outcome of a comparison into 0 or 1.
#[verifier::allow_in_spec]
pub fn set_name(operation: BinaryOperation) -> &'static str
    requires
        update_form(operation) is None,
        operation != BinaryOperation::Div,
    returns
        (match operation {
            BinaryOperation::Eq => "sete",
            BinaryOperation::Ne => "setne",
            BinaryOperation::Lt => "setl",
            BinaryOperation::LtEq => "setle",
            BinaryOperation::Gt => "setg",
            _ => "setge",
        }),
{
    match operation {
        BinaryOperation::Eq => "sete",
        BinaryOperation::Ne => "setne",
        BinaryOperation::Lt => "setl",
        BinaryOperation::LtEq => "setle",
        BinaryOperation::Gt => "setg",
        _ => "setge",
    }
}

/// What a function's code is made from, and what has been emitted.
pub ghost struct Emission {
    pub out: Seq<char>,
    pub allocation: Allocation,
    pub functions: Seq<Function>,
    pub symbols: Seq<Seq<char>>,
    pub saved: Seq<Reg>,
    pub pool: Seq<FloatEntry>,
}

impl Emission {
    /// One line of assembly, indented.
    pub open spec fn line(self, text: Seq<char>) -> Emission {
        Emission { out: self.out + "    "@ + text + "\n"@, ..self }
    }

    /// One line at the margin: a label or a directive.
    pub open spec fn label(self, text: Seq<char>) -> Emission {
        Emission { out: self.out + text + "\n"@, ..self }
    }

    /// An instruction with one operand.
    pub open spec fn one(
        self,
        name: Seq<char>,
        suffix: Seq<char>,
        gap: Seq<char>,
        operand: Seq<char>,
    ) -> Emission {
        Emission { out: self.out + "    "@ + name + suffix + gap + operand + "\n"@, ..self }
    }

    /// An instruction with two operands.
    pub open spec fn two(
        self,
        name: Seq<char>,
        suffix: Seq<char>,
        gap: Seq<char>,
        source: Seq<char>,
        dest: Seq<char>,
    ) -> Emission {
        Emission {
            out: self.out + "    "@ + name + suffix + gap + source + ", "@ + dest + "\n"@,
            ..self
        }
    }

    /// A move, unless the value is already there.
    pub open spec fn mov(self, suffix: Seq<char>, source: Seq<char>, dest: Seq<char>) -> Emission {
        if source == dest {
            self
        } else {
            self.two("mov"@, suffix, "    "@, source, dest)
        }
    }

    /// `dest = source op operand` as a move and an operation on the destination.
    pub open spec fn update(
        self,
        name: Seq<char>,
        suffix: Seq<char>,
        gap: Seq<char>,
        source: Seq<char>,
        operand: Seq<char>,
        dest: Seq<char>,
    ) -> Emission {
        self.mov(suffix, source, dest).two(name, suffix, gap, operand, dest)
    }

    /// How a value is written in an instruction.
    pub open spec fn location(self, id: ValueId, typ: ValueType) -> Seq<char> {
        match self.allocation.locations@[id.0 as int] {
            Location::Register(reg) => "%"@ + reg_name(reg, typ)@,
            Location::Stack(offset) => signed_decimal(offset - self.saved.len() * 8) + "(%rbp)"@,
        }
    }

    /// The operand for a floating-point constant, which joins the pool if it is new.
    pub open spec fn float_label(self, value: FloatBits, is_32: bool, function: Seq<char>) -> (
        Emission,
        Seq<char>,
    ) {
        let bits = float_bits(value, is_32);
        match find_float(self.pool, bits, is_32, 0) {
            Some(index) => (self, self.pool[index as int].label + "(%rip)"@),
            None => {
                let label = ".LC_"@ + function + "_"@ + decimal(self.pool.len());
                (
                    Emission { pool: self.pool.push(FloatEntry { label, bits, is_32 }), ..self },
                    label + "(%rip)"@,
                )
            },
        }
    }

    /// How an operand is written in an instruction.
    pub open spec fn operand(self, operand: Operand, function: Seq<char>) -> (Emission, Seq<char>) {
        match operand {
            Operand::Place(place) => (self, self.location(place.id, place.typ)),
            Operand::Const(Const::Float(value, typ)) => self.float_label(
                value,
                typ == ValueType::F32,
                function,
            ),
            Operand::Const(Const::Int(value, _)) => (self, "$"@ + signed_decimal(value as int)),
            Operand::Const(Const::Bool(value)) => (
                self,
                if value {
                    "$1"@
                } else {
                    "$0"@
                },
            ),
            Operand::Const(Const::Char(value)) => (self, "$"@ + decimal(value as nat)),
        }
    }

    pub open spec fn unary(
        self,
        operation: UnaryOperation,
        typ: ValueType,
        source: Seq<char>,
        dest: Seq<char>,
        function: Seq<char>,
    ) -> Emission {
        let suffix = typ.size_suffix()@;
        match operation {
            UnaryOperation::Neg => if typ.is_float() {
                let is_32 = typ == ValueType::F32;
                let (emission, mask) = self.float_label(negative_zero(), is_32, function);
                emission.mov(suffix, source, dest).two(
                    if is_32 {
                        "xorps"@
                    } else {
                        "xorpd"@
                    },
                    ""@,
                    "    "@,
                    mask,
                    dest,
                )
            } else {
                self.mov(suffix, source, dest).one("neg"@, suffix, "    "@, dest)
            },
            UnaryOperation::Not => self.update("xor"@, suffix, "    "@, source, "$1"@, dest),
        }
    }

    /// The division itself: `idiv` takes no immediate, so a constant goes through the stack.
    pub open spec fn divide(self, suffix: Seq<char>, divisor: Seq<char>, is_const: bool) -> Emission {
        if is_const {
            self.line("sub     $8, %rsp"@).two("mov"@, suffix, "    "@, divisor, "(%rsp)"@).one(
                "idiv"@,
                suffix,
                "   "@,
                "(%rsp)"@,
            ).line("add     $8, %rsp"@)
        } else {
            self.one("idiv"@, suffix, "    "@, divisor)
        }
    }

    /// A division: the dividend goes through `%rax`, extended into `%rdx`. Either register is
    /// preserved unless it is the destination.
    pub open spec fn div(
        self,
        typ: ValueType,
        lhs: Seq<char>,
        rhs: Seq<char>,
        is_const: bool,
        dest: Seq<char>,
    ) -> Emission {
        let suffix = typ.size_suffix()@;
        let rax = if typ == ValueType::I32 {
            "%eax"@
        } else {
            "%rax"@
        };
        let rdx = if typ == ValueType::I32 {
            "%edx"@
        } else {
            "%rdx"@
        };
        let extend = if typ == ValueType::I32 {
            "cltd"@
        } else {
            "cqto"@
        };
        let keep_rdx = if dest != rdx {
            self.line("push   %rdx"@)
        } else {
            self
        };
        let keep_rax = if dest != rax {
            keep_rdx.line("push   %rax"@)
        } else {
            keep_rdx
        };
        let done = keep_rax.mov(suffix, lhs, rax).line(extend).divide(suffix, rhs, is_const).mov(
            suffix,
            rax,
            dest,
        );
        let restore_rax = if dest != rax {
            done.line("pop     %rax"@)
        } else {
            done
        };
        if dest != rdx {
            restore_rax.line("pop     %rdx"@)
        } else {
            restore_rax
        }
    }

    /// A comparison: the flag of `set` becomes 0 or 1 in the destination. `%rax` is preserved
    /// unless it is the destination.
    pub open spec fn compare(
        self,
        set: Seq<char>,
        lhs: Seq<char>,
        rhs: Seq<char>,
        dest: Seq<char>,
        suffix: Seq<char>,
        compared: ValueType,
    ) -> Emission {
        let keeps = !is_rax(dest);
        let saved = if keeps {
            self.line("push    %rax"@)
        } else {
            self
        };
        let compared = if compared.is_float() {
            saved.two(
                if compared == ValueType::F32 {
                    "ucomiss"@
                } else {
                    "ucomisd"@
                },
                ""@,
                "  "@,
                rhs,
                lhs,
            )
        } else {
            saved.two("cmp"@, suffix, "    "@, rhs, lhs)
        };
        let set = compared.one(set, ""@, "     "@, "%al"@).two(
            "movzbl"@,
            ""@,
            "   "@,
            "%al"@,
            dest,
        );
        if keeps {
            set.line("pop     %rax"@)
        } else {
            set
        }
    }

    pub open spec fn binary(
        self,
        operation: BinaryOperation,
        typ: ValueType,
        left: Operand,
        right: Operand,
        dest: Seq<char>,
        function: Seq<char>,
    ) -> Emission {
        let suffix = typ.size_suffix()@;
        let (first, lhs) = self.operand(left, function);
        let (next, rhs) = first.operand(right, function);
        let compared = left.typ();
        match update_form(operation) {
            Some((name, gap)) => next.update(name@, suffix, gap@, lhs, rhs, dest),
            None => if operation == BinaryOperation::Div {
                next.div(typ, lhs, rhs, right is Const, dest)
            } else {
                next.compare(set_name(operation)@, lhs, rhs, dest, suffix, compared)
            },
        }
    }

    /// The arguments past the sixth, pushed from the last one down to the one before `end`.
    pub open spec fn push_args(self, args: Seq<Operand>, end: nat, function: Seq<char>) -> Emission
        decreases end,
    {
        if end <= 6 || end > args.len() {
            self
        } else {
            let arg = args[end - 1];
            let (emission, source) = self.operand(arg, function);
            emission.one("push"@, arg.typ().size_suffix()@, "   "@, source).push_args(
                args,
                (end - 1) as nat,
                function,
            )
        }
    }

    /// The first six arguments, from `at` on, moved to their registers.
    pub open spec fn move_args(self, args: Seq<Operand>, at: nat, function: Seq<char>) -> Emission
        decreases 6 - at,
    {
        if at >= 6 || at >= args.len() {
            self
        } else {
            let arg = args[at as int];
            let (emission, source) = self.operand(arg, function);
            match arg_reg(arg.typ(), at as usize) {
                Some(dest) => emission.mov(arg.typ().size_suffix()@, source, dest@).move_args(
                    args,
                    at + 1,
                    function,
                ),
                None => emission.move_args(args, at + 1, function),
            }
        }
    }

    pub open spec fn call(
        self,
        callee: nat,
        args: Seq<Operand>,
        typ: ValueType,
        dest: Seq<char>,
        function: Seq<char>,
    ) -> Emission {
        let placed = self.push_args(args, args.len(), function).move_args(args, 0, function);
        let called = placed.one(
            "call"@,
            ""@,
            "     "@,
            function_label(placed.functions[callee as int].name_symbol, placed.symbols),
        );
        let cleared = if args.len() > 6 {
            called.two("add"@, ""@, "     $"@, decimal(((args.len() - 6) * 8) as nat), "%rsp"@)
        } else {
            called
        };
        match return_reg(typ) {
            Some(reg) => cleared.mov(typ.size_suffix()@, reg@, dest),
            None => cleared,
        }
    }

    /// An instruction.
    pub open spec fn instruction(self, instruction: Instruction, function: Seq<char>) -> Emission {
        let typ = instruction.dest.typ;
        let dest = self.location(instruction.dest.id, typ);
        match instruction.kind {
            InstructionKind::Assign(operand) => {
                let (emission, source) = self.operand(operand, function);
                emission.mov(typ.size_suffix()@, source, dest)
            },
            InstructionKind::Unary { operation, rhs } => {
                let (emission, source) = self.operand(rhs, function);
                emission.unary(operation, typ, source, dest, function)
            },
            InstructionKind::Binary { operation, lhs, rhs } => self.binary(
                operation,
                typ,
                lhs,
                rhs,
                dest,
                function,
            ),
            InstructionKind::Call { callee, args } => self.call(
                callee.0 as nat,
                args@,
                typ,
                dest,
                function,
            ),
        }
    }

    /// The end of a block. What follows the last block is the epilogue, so nothing jumps there
    /// from it.
    pub open spec fn terminator(
        self,
        terminator: Terminator,
        function: Seq<char>,
        epilogue: Seq<char>,
        is_last: bool,
    ) -> Emission {
        match terminator {
            Terminator::Return(value) => {
                let placed = match value {
                    Some(operand) => {
                        let (emission, source) = self.operand(operand, function);
                        match return_reg(operand.typ()) {
                            Some(reg) => emission.mov(
                                operand.typ().size_suffix()@,
                                source,
                                reg@,
                            ),
                            None => emission,
                        }
                    },
                    None => self,
                };
                if is_last {
                    placed
                } else {
                    placed.one("jmp"@, ""@, "      "@, epilogue)
                }
            },
            Terminator::Jump(target) => self.one(
                "jmp"@,
                ""@,
                "      "@,
                block_label(function, target.0 as nat),
            ),
            Terminator::Branch { condition, then_block, else_block } => {
                let (emission, flag) = self.operand(condition, function);
                emission.two("testl"@, ""@, "    "@, flag, flag).one(
                    "jne"@,
                    ""@,
                    "      "@,
                    block_label(function, then_block.0 as nat),
                ).one("jmp"@, ""@, "      "@, block_label(function, else_block.0 as nat))
            },
            Terminator::Unreachable => self,
        }
    }

    /// The instructions from `at` on.
    pub open spec fn instructions(
        self,
        instructions: Seq<Instruction>,
        at: nat,
        function: Seq<char>,
    ) -> Emission
        decreases instructions.len() - at,
    {
        if at >= instructions.len() {
            self
        } else {
            self.instruction(instructions[at as int], function).instructions(
                instructions,
                at + 1,
                function,
            )
        }
    }

    /// The blocks from `at` on, each but the entry under its label.
    pub open spec fn blocks(
        self,
        blocks: Seq<Block>,
        at: nat,
        function: Seq<char>,
        epilogue: Seq<char>,
    ) -> Emission
        decreases blocks.len() - at,
    {
        if at >= blocks.len() {
            self
        } else {
            let labelled = if at > 0 {
                self.label(block_label(function, at) + ":"@)
            } else {
                self
            };
            labelled.instructions(blocks[at as int].instructions@, 0, function).terminator(
                blocks[at as int].terminator,
                function,
                epilogue,
                at == blocks.len() - 1,
            ).blocks(blocks, at + 1, function, epilogue)
        }
    }

    /// The parameters from `at` on, moved from their registers to where they live.
    pub open spec fn params(self, params: Seq<(ValueId, ValueType)>, at: nat) -> Emission
        decreases 6 - at,
    {
        if at >= 6 || at >= params.len() {
            self
        } else {
            let (id, typ) = params[at as int];
            match arg_reg(typ, at as usize) {
                Some(source) => self.mov(
                    typ.size_suffix()@,
                    source@,
                    self.location(id, typ),
                ).params(params, at + 1),
                None => self.params(params, at + 1),
            }
        }
    }

    /// The saved registers from `at` on, pushed.
    pub open spec fn push_saved(self, saved: Seq<Reg>, at: nat) -> Emission
        decreases saved.len() - at,
    {
        if at >= saved.len() {
            self
        } else {
            self.one("push"@, ""@, "    %"@, saved[at as int].name_64()@).push_saved(saved, at + 1)
        }
    }

    /// The saved registers before `end`, popped from the last one down.
    pub open spec fn pop_saved(self, saved: Seq<Reg>, end: nat) -> Emission
        decreases end,
    {
        if end == 0 || end > saved.len() {
            self
        } else {
            self.one("pop"@, ""@, "     %"@, saved[end - 1].name_64()@).pop_saved(
                saved,
                (end - 1) as nat,
            )
        }
    }

    pub open spec fn prologue(
        self,
        name: Seq<char>,
        params: Seq<(ValueId, ValueType)>,
        frame_size: nat,
    ) -> Emission {
        let saved = self.label(".globl "@ + name).label(name + ":"@).line("push    %rbp"@).line(
            "mov     %rsp, %rbp"@,
        ).push_saved(self.saved, 0);
        let framed = if frame_size > 0 {
            saved.two("sub"@, ""@, "     $"@, decimal(frame_size), "%rsp"@)
        } else {
            saved
        };
        framed.params(params, 0)
    }

    pub open spec fn epilogue(self, label: Seq<char>, frame_size: nat) -> Emission {
        let labelled = self.label(label + ":"@);
        let unframed = if frame_size > 0 {
            labelled.two("add"@, ""@, "     $"@, decimal(frame_size), "%rsp"@)
        } else {
            labelled
        };
        unframed.pop_saved(self.saved, self.saved.len()).line("pop     %rbp"@).line("ret"@)
    }

    /// The pool's entries from `at` on.
    pub open spec fn floats(self, pool: Seq<FloatEntry>, at: nat) -> Emission
        decreases pool.len() - at,
    {
        if at >= pool.len() {
            self
        } else {
            let float = pool[at as int];
            let aligned = self.label(
                if float.is_32 {
                    ".align 4"@
                } else {
                    ".align 8"@
                },
            ).label(float.label + ":"@);
            let value = if float.is_32 {
                aligned.one(".long"@, ""@, " "@, decimal(float.bits as u32 as nat))
            } else {
                aligned.one(".quad"@, ""@, " "@, decimal(float.bits as nat))
            };
            value.floats(pool, at + 1)
        }
    }

    /// The constants of the function, in the read-only section.
    pub open spec fn flush(self) -> Emission {
        if self.pool.len() == 0 {
            self
        } else {
            self.label(".section .rodata"@).floats(self.pool, 0).label(".text"@)
        }
    }
}

/// Whether an operand is some part of `%rax`.
pub open spec fn is_rax(operand: Seq<char>) -> bool {
    operand == "%al"@ || operand == "%ax"@ || operand == "%eax"@ || operand == "%rax"@
}

fn is_part_of_rax(operand: &str) -> (is: bool)
    ensures
        is == is_rax(operand@),
{
    text_eq(operand, "%al") || text_eq(operand, "%ax") || text_eq(operand, "%eax") || text_eq(
        operand,
        "%rax",
    )
}

/// The bytes a frame takes, padded so that the stack stays aligned at calls.
pub open spec fn padded_frame(frame_size: nat, saved: nat) -> nat {
    frame_size + if saved % 2 == 1 {
        8nat
    } else {
        0nat
    }
}

/// The assembly of a function.
pub open spec fn function_code(
    out: Seq<char>,
    function: Function,
    allocation: Allocation,
    functions: Seq<Function>,
    symbols: Seq<Seq<char>>,
) -> Seq<char> {
    let name = function_label(function.name_symbol, symbols);
    let epilogue = ".L_"@ + name + "_epilogue"@;
    let saved = saved_registers(allocation);
    let frame_size = padded_frame(allocation.frame_size as nat, saved.len());
    (Emission { out, allocation, functions, symbols, saved, pool: Seq::empty() }).prologue(
        name,
        function.params@,
        frame_size,
    ).blocks(function.blocks@, 0, name, epilogue).epilogue(epilogue, frame_size).flush().out
}

/// The assembly of the functions from `at` on.
pub open spec fn functions_code(
    out: Seq<char>,
    functions: Seq<Function>,
    allocations: Seq<Allocation>,
    symbols: Seq<Seq<char>>,
    at: nat,
) -> Seq<char>
    decreases functions.len() - at,
{
    if at >= functions.len() {
        out
    } else {
        functions_code(
            function_code(out, functions[at as int], allocations[at as int], functions, symbols),
            functions,
            allocations,
            symbols,
            at + 1,
        )
    }
}

/// The entry point of a program that has a `main`: its result becomes the exit code.
pub open spec fn start_code() -> Seq<char> {
    ".globl _start\n_start:\n    call    nyx_main\n    movl    %eax, %edi\n    movl    $60, %eax\n    syscall\n"@
}

/// Whether one of the functions is called `main`.
pub open spec fn defines_main(functions: Seq<Function>, symbols: Seq<Seq<char>>) -> bool {
    exists|i: int|
        0 <= i < functions.len() && (#[trigger] functions[i]).name_symbol < symbols.len()
            && symbols[functions[i].name_symbol as int] == "main"@
}

/// The assembly of a program: its functions, and the entry point after them if it defines `main`.
pub open spec fn program_code(
    functions: Seq<Function>,
    allocations: Seq<Allocation>,
    symbols: Seq<Seq<char>>,
) -> Seq<char> {
    let code = functions_code(".text\n"@, functions, allocations, symbols, 0);
    if defines_main(functions, symbols) {
        code + start_code()
    } else {
        code
    }
}

/// Whether a value can be written in an instruction.
pub open spec fn place_ok(allocation: Allocation, id: ValueId, typ: ValueType) -> bool {
    allocation.has(id) && (allocation.locations@[id.0 as int] is Register ==> typ
        != ValueType::Unit)
}

pub open spec fn operand_ok(allocation: Allocation, operand: Operand) -> bool {
    match operand {
        Operand::Place(place) => place_ok(allocation, place.id, place.typ),
        Operand::Const(_) => true,
    }
}

pub open spec fn args_ok(allocation: Allocation, args: Seq<Operand>) -> bool {
    forall|i: int|
        0 <= i < args.len() ==> operand_ok(allocation, #[trigger] args[i]) && if i < 6 {
            args[i].typ().passes()
        } else {
            args[i].typ() != ValueType::Unit
        }
}

/// Whether there is code for an instruction: every value it names has a place and a size, a
/// division is one of integers, and a call passes and gives back what registers can carry.
pub open spec fn instruction_ok(
    allocation: Allocation,
    functions: nat,
    instruction: Instruction,
) -> bool {
    &&& place_ok(allocation, instruction.dest.id, instruction.dest.typ)
    &&& instruction.dest.typ != ValueType::Unit
    &&& match instruction.kind {
        InstructionKind::Assign(operand) => operand_ok(allocation, operand),
        InstructionKind::Unary { rhs, .. } => operand_ok(allocation, rhs),
        InstructionKind::Binary { operation, lhs, rhs } => {
            &&& operand_ok(allocation, lhs)
            &&& operand_ok(allocation, rhs)
            &&& operation == BinaryOperation::Div ==> !lhs.typ().is_float() && (
            instruction.dest.typ is I32 || instruction.dest.typ is I64)
        },
        InstructionKind::Call { callee, args } => {
            &&& callee.0 < functions
            &&& args_ok(allocation, args@)
            &&& instruction.dest.typ.passes()
        },
    }
}

pub open spec fn terminator_ok(allocation: Allocation, terminator: Terminator) -> bool {
    match terminator {
        Terminator::Return(Some(operand)) => operand_ok(allocation, operand)
            && operand.typ().passes(),
        Terminator::Branch { condition, .. } => operand_ok(allocation, condition),
        _ => true,
    }
}

pub open spec fn block_ok(allocation: Allocation, functions: nat, block: Block) -> bool {
    &&& forall|i: int|
        0 <= i < block.instructions@.len() ==> instruction_ok(
            allocation,
            functions,
            #[trigger] block.instructions@[i],
        )
    &&& terminator_ok(allocation, block.terminator)
}

pub open spec fn params_ok(allocation: Allocation, params: Seq<(ValueId, ValueType)>) -> bool {
    forall|i: int|
        0 <= i < params.len() && i < 6 ==> place_ok(
            allocation,
            (#[trigger] params[i]).0,
            params[i].1,
        ) && params[i].1 != ValueType::Unit
}

/// Whether there is code for a function.
pub open spec fn function_ok(function: Function, allocation: Allocation, functions: nat) -> bool {
    &&& params_ok(allocation, function.params@)
    &&& forall|i: int|
        0 <= i < function.blocks@.len() ==> block_ok(
            allocation,
            functions,
            #[trigger] function.blocks@[i],
        )
}

struct FunctionEmitter<'e> {
    out: String,
    allocation: &'e Allocation,
    /// All functions of the program, by which a callee's name is found
    all_functions: &'e Vec<Function>,
    symbols: &'e Vec<String>,
    saved_regs: Vec<Reg>,
    float_pool: Vec<FloatConst>,
}

impl<'e> View for FunctionEmitter<'e> {
    type V = Emission;

    closed spec fn view(&self) -> Emission {
        Emission {
            out: self.out@,
            allocation: *self.allocation,
            functions: self.all_functions@,
            symbols: texts(self.symbols@),
            saved: self.saved_regs@,
            pool: entries(self.float_pool@),
        }
    }
}

fn callee_saved_at(index: usize) -> (reg: Reg)
    requires
        index < 5,
    ensures
        reg == callee_saved()[index as int],
{
    match index {
        0 => Reg::Rbx,
        1 => Reg::R12,
        2 => Reg::R13,
        3 => Reg::R14,
        _ => Reg::R15,
    }
}

fn saved_by(allocation: &Allocation) -> (saved: Vec<Reg>)
    ensures
        saved@ == saved_registers(*allocation),
{
    let mut saved: Vec<Reg> = Vec::new();
    let mut i: usize = 0;
    let ghost uses = |reg: Reg| allocation.uses(reg);
    proof {
        reveal(Seq::filter);
        assert(callee_saved().take(0) =~= Seq::empty());
    }
    while i < 5
        invariant
            i <= 5,
            uses == (|reg: Reg| allocation.uses(reg)),
            saved@ == callee_saved().take(i as int).filter(uses),
        decreases 5 - i,
    {
        let reg = callee_saved_at(i);
        proof {
            reveal(Seq::filter);
            assert(callee_saved().take(i + 1).drop_last() =~= callee_saved().take(i as int));
        }
        if allocation.uses_register(reg) {
            saved.push(reg);
        }
        i = i + 1;
    }
    assert(callee_saved().take(5) =~= callee_saved());
    saved
}

impl<'e> FunctionEmitter<'e> {
    fn new(
        out: String,
        allocation: &'e Allocation,
        symbols: &'e Vec<String>,
        all_functions: &'e Vec<Function>,
    ) -> (emitter: Self)
        ensures
            emitter@ == (Emission {
                out: out@,
                allocation: *allocation,
                functions: all_functions@,
                symbols: texts(symbols@),
                saved: saved_registers(*allocation),
                pool: Seq::empty(),
            }),
    {
        let emitter = FunctionEmitter {
            out,
            allocation,
            all_functions,
            symbols,
            saved_regs: saved_by(allocation),
            float_pool: Vec::new(),
        };
        assert(entries(emitter.float_pool@) =~= Seq::empty());
        emitter
    }

    fn line(&mut self, text: &str)
        ensures
            final(self)@ == old(self)@.line(text@),
    {
        push_text(&mut self.out, "    ");
        push_text(&mut self.out, text);
        push_text(&mut self.out, "\n");
    }

    fn label(&mut self, text: &str)
        ensures
            final(self)@ == old(self)@.label(text@),
    {
        push_text(&mut self.out, text);
        push_text(&mut self.out, "\n");
    }

    fn one(&mut self, name: &str, suffix: &str, gap: &str, operand: &str)
        ensures
            final(self)@ == old(self)@.one(name@, suffix@, gap@, operand@),
    {
        push_text(&mut self.out, "    ");
        push_text(&mut self.out, name);
        push_text(&mut self.out, suffix);
        push_text(&mut self.out, gap);
        push_text(&mut self.out, operand);
        push_text(&mut self.out, "\n");
    }

    fn two(&mut self, name: &str, suffix: &str, gap: &str, source: &str, dest: &str)
        ensures
            final(self)@ == old(self)@.two(name@, suffix@, gap@, source@, dest@),
    {
        push_text(&mut self.out, "    ");
        push_text(&mut self.out, name);
        push_text(&mut self.out, suffix);
        push_text(&mut self.out, gap);
        push_text(&mut self.out, source);
        push_text(&mut self.out, ", ");
        push_text(&mut self.out, dest);
        push_text(&mut self.out, "\n");
    }

    fn mov(&mut self, suffix: &str, source: &str, dest: &str)
        ensures
            final(self)@ == old(self)@.mov(suffix@, source@, dest@),
    {
        if !text_eq(source, dest) {
            self.two("mov", suffix, "    ", source, dest);
        }
    }

    fn update(
        &mut self,
        name: &str,
        suffix: &str,
        gap: &str,
        source: &str,
        operand: &str,
        dest: &str,
    )
        ensures
            final(self)@ == old(self)@.update(name@, suffix@, gap@, source@, operand@, dest@),
    {
        self.mov(suffix, source, dest);
        self.two(name, suffix, gap, operand, dest);
    }

    fn location_text(&self, id: ValueId, typ: ValueType) -> (text: String)
        requires
            place_ok(self@.allocation, id, typ),
        ensures
            text@ == self@.location(id, typ),
    {
        match self.allocation.location_of(id) {
            Location::Register(reg) => {
                let mut text = "%".to_owned();
                push_text(&mut text, reg_name(reg, typ));
                text
            },
            Location::Stack(offset) => {
                let mut text = String::new();
                let adjusted: i128 = offset as i128 - self.saved_regs.len() as i128 * 8;
                push_signed(&mut text, adjusted);
                push_text(&mut text, "(%rbp)");
                proof {
                    assert(Seq::<char>::empty() + signed_decimal(adjusted as int)
                        =~= signed_decimal(adjusted as int));
                }
                text
            },
        }
    }

    fn find_float(&self, bits: u64, is_32: bool) -> (found: Option<usize>)
        ensures
            match found {
                Some(index) => find_float(self@.pool, bits, is_32, 0) == Some(index as nat) && index
                    < self.float_pool@.len(),
                None => find_float(self@.pool, bits, is_32, 0) is None,
            },
    {
        let mut i: usize = 0;
        while i < self.float_pool.len()
            invariant
                i <= self.float_pool@.len(),
                self@.pool == entries(self.float_pool@),
                find_float(self@.pool, bits, is_32, 0) == find_float(
                    self@.pool,
                    bits,
                    is_32,
                    i as nat,
                ),
            decreases self.float_pool@.len() - i,
        {
            assert(self@.pool[i as int] == self.float_pool@[i as int]@);
            if self.float_pool[i].bits == bits && self.float_pool[i].is_32 == is_32 {
                return Some(i);
            }
            i = i + 1;
        }
        None
    }

    fn float_label(&mut self, value: FloatBits, is_32: bool, function: &str) -> (operand: String)
        ensures
            (final(self)@, operand@) == old(self)@.float_label(value, is_32, function@),
    {
        let bits: u64 = float_bits(value, is_32);
        match self.find_float(bits, is_32) {
            Some(index) => {
                let mut operand = self.float_pool[index].label.as_str().to_owned();
                push_text(&mut operand, "(%rip)");
                operand
            },
            None => {
                let mut label = ".LC_".to_owned();
                push_text(&mut label, function);
                push_text(&mut label, "_");
                push_decimal(&mut label, self.float_pool.len() as u128);
                let mut operand = label.as_str().to_owned();
                push_text(&mut operand, "(%rip)");
                let ghost pool = self.float_pool@;
                self.float_pool.push(FloatConst { label, bits, is_32 });
                proof {
                    assert(entries(self.float_pool@) =~= entries(pool).push(
                        FloatEntry { label: label@, bits, is_32 },
                    ));
                }
                operand
            },
        }
    }

    fn operand_text(&mut self, operand: Operand, function: &str) -> (text: String)
        requires
            operand_ok(old(self)@.allocation, operand),
        ensures
            (final(self)@, text@) == old(self)@.operand(operand, function@),
    {
        match operand {
            Operand::Place(place) => self.location_text(place.id, place.typ),
            Operand::Const(Const::Float(value, typ)) => self.float_label(
                value,
                typ == ValueType::F32,
                function,
            ),
            Operand::Const(Const::Int(value, _)) => {
                let mut text = "$".to_owned();
                push_signed(&mut text, value as i128);
                text
            },
            Operand::Const(Const::Bool(value)) => if value {
                "$1".to_owned()
            } else {
                "$0".to_owned()
            },
            Operand::Const(Const::Char(value)) => {
                let mut text = "$".to_owned();
                push_decimal(&mut text, value as u128);
                text
            },
        }
    }

    fn emit_unary(
        &mut self,
        operation: UnaryOperation,
        typ: ValueType,
        source: &str,
        dest: &str,
        function: &str,
    )
        requires
            typ != ValueType::Unit,
        ensures
            final(self)@ == old(self)@.unary(operation, typ, source@, dest@, function@),
    {
        let suffix = typ.size_suffix();
        match operation {
            UnaryOperation::Neg => {
                if typ.is_float() {
                    let is_32 = typ == ValueType::F32;
                    let mask = self.float_label(negative_zero(), is_32, function);
                    self.mov(suffix, source, dest);
                    let name = if is_32 {
                        "xorps"
                    } else {
                        "xorpd"
                    };
                    self.two(name, "", "    ", mask.as_str(), dest);
                } else {
                    self.mov(suffix, source, dest);
                    self.one("neg", suffix, "    ", dest);
                }
            },
            UnaryOperation::Not => {
                self.update("xor", suffix, "    ", source, "$1", dest);
            },
        }
    }

    fn emit_div(&mut self, typ: ValueType, lhs: &str, rhs: &str, is_const: bool, dest: &str)
        requires
            typ is I32 || typ is I64,
        ensures
            final(self)@ == old(self)@.div(typ, lhs@, rhs@, is_const, dest@),
    {
        let suffix = typ.size_suffix();
        let narrow = typ == ValueType::I32;
        let rax = if narrow {
            "%eax"
        } else {
            "%rax"
        };
        let rdx = if narrow {
            "%edx"
        } else {
            "%rdx"
        };
        let extend = if narrow {
            "cltd"
        } else {
            "cqto"
        };
        let preserves_rax = !text_eq(dest, rax);
        let preserves_rdx = !text_eq(dest, rdx);
        if preserves_rdx {
            self.line("push   %rdx");
        }
        if preserves_rax {
            self.line("push   %rax");
        }
        self.mov(suffix, lhs, rax);
        self.line(extend);
        if is_const {
            self.line("sub     $8, %rsp");
            self.two("mov", suffix, "    ", rhs, "(%rsp)");
            self.one("idiv", suffix, "   ", "(%rsp)");
            self.line("add     $8, %rsp");
        } else {
            self.one("idiv", suffix, "    ", rhs);
        }
        self.mov(suffix, rax, dest);
        if preserves_rax {
            self.line("pop     %rax");
        }
        if preserves_rdx {
            self.line("pop     %rdx");
        }
    }

    fn emit_comp(
        &mut self,
        set: &str,
        lhs: &str,
        rhs: &str,
        dest: &str,
        suffix: &str,
        compared: ValueType,
    )
        ensures
            final(self)@ == old(self)@.compare(set@, lhs@, rhs@, dest@, suffix@, compared),
    {
        let preserves_rax = !is_part_of_rax(dest);
        if preserves_rax {
            self.line("push    %rax");
        }
        if compared.is_float() {
            let name = if compared == ValueType::F32 {
                "ucomiss"
            } else {
                "ucomisd"
            };
            self.two(name, "", "  ", rhs, lhs);
        } else {
            self.two("cmp", suffix, "    ", rhs, lhs);
        }
        self.one(set, "", "     ", "%al");
        self.two("movzbl", "", "   ", "%al", dest);
        if preserves_rax {
            self.line("pop     %rax");
        }
    }

    fn emit_binary(
        &mut self,
        operation: BinaryOperation,
        typ: ValueType,
        left: Operand,
        right: Operand,
        dest: &str,
        function: &str,
    )
        requires
            typ != ValueType::Unit,
            operand_ok(old(self)@.allocation, left),
            operand_ok(old(self)@.allocation, right),
            operation == BinaryOperation::Div ==> typ is I32 || typ is I64,
        ensures
            final(self)@ == old(self)@.binary(operation, typ, left, right, dest@, function@),
    {
        let suffix = typ.size_suffix();
        let lhs_text = self.operand_text(left, function);
        let rhs_text = self.operand_text(right, function);
        let lhs = lhs_text.as_str();
        let rhs = rhs_text.as_str();
        let compared = left.typ();
        match update_form(operation) {
            Some((name, gap)) => self.update(name, suffix, gap, lhs, rhs, dest),
            None => {
                if operation == BinaryOperation::Div {
                    let is_const = match right {
                        Operand::Const(_) => true,
                        Operand::Place(_) => false,
                    };
                    self.emit_div(typ, lhs, rhs, is_const, dest);
                } else {
                    self.emit_comp(set_name(operation), lhs, rhs, dest, suffix, compared);
                }
            },
        }
    }

    fn push_args(&mut self, args: &Vec<Operand>, function: &str)
        requires
            args_ok(old(self)@.allocation, args@),
        ensures
            final(self)@ == old(self)@.push_args(args@, args@.len(), function@),
            final(self)@.allocation == old(self)@.allocation,
            final(self)@.functions == old(self)@.functions,
            final(self)@.symbols == old(self)@.symbols,
    {
        let mut end: usize = args.len();
        while end > 6
            invariant
                end <= args@.len(),
                args_ok(self@.allocation, args@),
                self@.allocation == old(self)@.allocation,
                self@.functions == old(self)@.functions,
                self@.symbols == old(self)@.symbols,
                old(self)@.push_args(args@, args@.len(), function@) == self@.push_args(
                    args@,
                    end as nat,
                    function@,
                ),
            decreases end,
        {
            let arg = args[end - 1];
            let source = self.operand_text(arg, function);
            self.one("push", arg.typ().size_suffix(), "   ", source.as_str());
            end = end - 1;
        }
    }

    fn move_args(&mut self, args: &Vec<Operand>, function: &str)
        requires
            args_ok(old(self)@.allocation, args@),
        ensures
            final(self)@ == old(self)@.move_args(args@, 0, function@),
            final(self)@.allocation == old(self)@.allocation,
            final(self)@.functions == old(self)@.functions,
            final(self)@.symbols == old(self)@.symbols,
    {
        let mut i: usize = 0;
        while i < 6 && i < args.len()
            invariant
                args_ok(self@.allocation, args@),
                self@.allocation == old(self)@.allocation,
                self@.functions == old(self)@.functions,
                self@.symbols == old(self)@.symbols,
                old(self)@.move_args(args@, 0, function@) == self@.move_args(
                    args@,
                    i as nat,
                    function@,
                ),
            decreases 6 - i,
        {
            let arg = args[i];
            let source = self.operand_text(arg, function);
            match arg_reg(arg.typ(), i) {
                Some(dest) => self.mov(arg.typ().size_suffix(), source.as_str(), dest),
                None => {},
            }
            i = i + 1;
        }
    }

    fn emit_call(
        &mut self,
        callee: usize,
        args: &Vec<Operand>,
        typ: ValueType,
        dest: &str,
        function: &str,
    )
        requires
            callee < old(self)@.functions.len(),
            args_ok(old(self)@.allocation, args@),
            typ.passes(),
        ensures
            final(self)@ == old(self)@.call(callee as nat, args@, typ, dest@, function@),
    {
        self.push_args(args, function);
        self.move_args(args, function);
        let name = function_label_text(self.all_functions[callee].name_symbol, self.symbols);
        self.one("call", "", "     ", name.as_str());
        if args.len() > 6 {
            let mut bytes = String::new();
            push_decimal(&mut bytes, (args.len() - 6) as u128 * 8);
            proof {
                let count: nat = ((args@.len() - 6) * 8) as nat;
                assert(Seq::<char>::empty() + decimal(count) =~= decimal(count));
            }
            self.two("add", "", "     $", bytes.as_str(), "%rsp");
        }
        match return_reg(typ) {
            Some(reg) => self.mov(typ.size_suffix(), reg, dest),
            None => {},
        }
    }

    fn emit_instruction(&mut self, instruction: &Instruction, function: &str)
        requires
            instruction_ok(old(self)@.allocation, old(self)@.functions.len(), *instruction),
        ensures
            final(self)@ == old(self)@.instruction(*instruction, function@),
    {
        let typ = instruction.dest.typ;
        let dest = self.location_text(instruction.dest.id, typ);
        match &instruction.kind {
            InstructionKind::Assign(operand) => {
                let source = self.operand_text(*operand, function);
                self.mov(typ.size_suffix(), source.as_str(), dest.as_str());
            },
            InstructionKind::Unary { operation, rhs } => {
                let source = self.operand_text(*rhs, function);
                self.emit_unary(*operation, typ, source.as_str(), dest.as_str(), function);
            },
            InstructionKind::Binary { operation, lhs, rhs } => {
                self.emit_binary(*operation, typ, *lhs, *rhs, dest.as_str(), function);
            },
            InstructionKind::Call { callee, args } => {
                self.emit_call(callee.0 as usize, args, typ, dest.as_str(), function);
            },
        }
    }

    fn emit_terminator(
        &mut self,
        terminator: Terminator,
        function: &str,
        epilogue: &str,
        is_last: bool,
    )
        requires
            terminator_ok(old(self)@.allocation, terminator),
        ensures
            final(self)@ == old(self)@.terminator(terminator, function@, epilogue@, is_last),
    {
        match terminator {
            Terminator::Return(value) => {
                match value {
                    Some(operand) => {
                        let source = self.operand_text(operand, function);
                        match return_reg(operand.typ()) {
                            Some(reg) => self.mov(
                                operand.typ().size_suffix(),
                                source.as_str(),
                                reg,
                            ),
                            None => {},
                        }
                    },
                    None => {},
                }
                if !is_last {
                    self.one("jmp", "", "      ", epilogue);
                }
            },
            Terminator::Jump(target) => {
                let label = block_label_text(function, target.0 as u128);
                self.one("jmp", "", "      ", label.as_str());
            },
            Terminator::Branch { condition, then_block, else_block } => {
                let flag = self.operand_text(condition, function);
                self.two("testl", "", "    ", flag.as_str(), flag.as_str());
                let taken = block_label_text(function, then_block.0 as u128);
                self.one("jne", "", "      ", taken.as_str());
                let other = block_label_text(function, else_block.0 as u128);
                self.one("jmp", "", "      ", other.as_str());
            },
            Terminator::Unreachable => {},
        }
    }

    fn emit_instructions(&mut self, instructions: &Vec<Instruction>, function: &str)
        requires
            forall|i: int|
                0 <= i < instructions@.len() ==> instruction_ok(
                    old(self)@.allocation,
                    old(self)@.functions.len(),
                    #[trigger] instructions@[i],
                ),
        ensures
            final(self)@ == old(self)@.instructions(instructions@, 0, function@),
            final(self)@.allocation == old(self)@.allocation,
            final(self)@.functions == old(self)@.functions,
            final(self)@.saved == old(self)@.saved,
    {
        let mut i: usize = 0;
        while i < instructions.len()
            invariant
                i <= instructions@.len(),
                forall|i: int|
                    0 <= i < instructions@.len() ==> instruction_ok(
                        self@.allocation,
                        self@.functions.len(),
                        #[trigger] instructions@[i],
                    ),
                self@.allocation == old(self)@.allocation,
                self@.functions == old(self)@.functions,
                self@.saved == old(self)@.saved,
                old(self)@.instructions(instructions@, 0, function@) == self@.instructions(
                    instructions@,
                    i as nat,
                    function@,
                ),
            decreases instructions@.len() - i,
        {
            proof {
                lemma_instruction_keeps(self@, instructions@[i as int], function@);
            }
            self.emit_instruction(&instructions[i], function);
            i = i + 1;
        }
    }

    fn emit_body(&mut self, blocks: &Vec<Block>, function: &str, epilogue: &str)
        requires
            forall|i: int|
                0 <= i < blocks@.len() ==> block_ok(
                    old(self)@.allocation,
                    old(self)@.functions.len(),
                    #[trigger] blocks@[i],
                ),
        ensures
            final(self)@ == old(self)@.blocks(blocks@, 0, function@, epilogue@),
    {
        let mut i: usize = 0;
        while i < blocks.len()
            invariant
                i <= blocks@.len(),
                forall|i: int|
                    0 <= i < blocks@.len() ==> block_ok(
                        self@.allocation,
                        self@.functions.len(),
                        #[trigger] blocks@[i],
                    ),
                self@.allocation == old(self)@.allocation,
                self@.functions == old(self)@.functions,
                old(self)@.blocks(blocks@, 0, function@, epilogue@) == self@.blocks(
                    blocks@,
                    i as nat,
                    function@,
                    epilogue@,
                ),
            decreases blocks@.len() - i,
        {
            if i > 0 {
                let mut label = block_label_text(function, i as u128);
                push_text(&mut label, ":");
                self.label(label.as_str());
            }
            self.emit_instructions(&blocks[i].instructions, function);
            self.emit_terminator(blocks[i].terminator, function, epilogue, i == blocks.len() - 1);
            i = i + 1;
        }
    }

    fn emit_argument_moves(&mut self, params: &Vec<(ValueId, ValueType)>)
        requires
            params_ok(old(self)@.allocation, params@),
        ensures
            final(self)@ == old(self)@.params(params@, 0),
    {
        let mut i: usize = 0;
        while i < 6 && i < params.len()
            invariant
                params_ok(self@.allocation, params@),
                old(self)@.params(params@, 0) == self@.params(params@, i as nat),
            decreases 6 - i,
        {
            let (id, typ) = params[i];
            match arg_reg(typ, i) {
                Some(source) => {
                    let dest = self.location_text(id, typ);
                    self.mov(typ.size_suffix(), source, dest.as_str());
                },
                None => {},
            }
            i = i + 1;
        }
    }

    fn push_saved(&mut self)
        ensures
            final(self)@ == old(self)@.push_saved(old(self)@.saved, 0),
    {
        let mut i: usize = 0;
        while i < self.saved_regs.len()
            invariant
                i <= self.saved_regs@.len(),
                self@.saved == old(self)@.saved,
                self@.saved == self.saved_regs@,
                old(self)@.push_saved(old(self)@.saved, 0) == self@.push_saved(
                    old(self)@.saved,
                    i as nat,
                ),
            decreases self.saved_regs@.len() - i,
        {
            let reg = self.saved_regs[i];
            self.one("push", "", "    %", reg.name_64());
            i = i + 1;
        }
    }

    fn pop_saved(&mut self)
        ensures
            final(self)@ == old(self)@.pop_saved(old(self)@.saved, old(self)@.saved.len()),
    {
        let mut end: usize = self.saved_regs.len();
        while end > 0
            invariant
                end <= self.saved_regs@.len(),
                self@.saved == old(self)@.saved,
                self@.saved == self.saved_regs@,
                old(self)@.pop_saved(old(self)@.saved, old(self)@.saved.len()) == self@.pop_saved(
                    old(self)@.saved,
                    end as nat,
                ),
            decreases end,
        {
            let reg = self.saved_regs[end - 1];
            self.one("pop", "", "     %", reg.name_64());
            end = end - 1;
        }
    }

    fn emit_prologue(&mut self, name: &str, params: &Vec<(ValueId, ValueType)>, frame_size: u128)
        requires
            params_ok(old(self)@.allocation, params@),
        ensures
            final(self)@ == old(self)@.prologue(name@, params@, frame_size as nat),
    {
        let mut global = ".globl ".to_owned();
        push_text(&mut global, name);
        self.label(global.as_str());
        let mut label = name.to_owned();
        push_text(&mut label, ":");
        self.label(label.as_str());
        self.line("push    %rbp");
        self.line("mov     %rsp, %rbp");
        self.push_saved();
        if frame_size > 0 {
            let bytes = decimal_text(frame_size);
            self.two("sub", "", "     $", bytes.as_str(), "%rsp");
        }
        proof {
            lemma_push_saved_keeps(
                old(self)@.label(".globl "@ + name@).label(name@ + ":"@).line(
                    "push    %rbp"@,
                ).line("mov     %rsp, %rbp"@),
                old(self)@.saved,
                0,
            );
        }
        self.emit_argument_moves(params);
    }

    fn emit_epilogue(&mut self, label: &str, frame_size: u128)
        ensures
            final(self)@ == old(self)@.epilogue(label@, frame_size as nat),
    {
        let mut text = label.to_owned();
        push_text(&mut text, ":");
        self.label(text.as_str());
        if frame_size > 0 {
            let bytes = decimal_text(frame_size);
            self.two("add", "", "     $", bytes.as_str(), "%rsp");
        }
        self.pop_saved();
        self.line("pop     %rbp");
        self.line("ret");
    }

    fn flush_float_pool(&mut self)
        ensures
            final(self)@ == old(self)@.flush(),
    {
        if self.float_pool.len() == 0 {
            return;
        }
        self.label(".section .rodata");
        let ghost start = self@;
        let mut i: usize = 0;
        while i < self.float_pool.len()
            invariant
                i <= self.float_pool@.len(),
                self@.pool == entries(self.float_pool@),
                self@.pool == start.pool,
                start.floats(start.pool, 0) == self@.floats(start.pool, i as nat),
            decreases self.float_pool@.len() - i,
        {
            let bits: u64 = self.float_pool[i].bits;
            let is_32 = self.float_pool[i].is_32;
            let mut label = self.float_pool[i].label.as_str().to_owned();
            assert(start.pool[i as int] == self.float_pool@[i as int]@);
            push_text(&mut label, ":");
            self.label(
                if is_32 {
                    ".align 4"
                } else {
                    ".align 8"
                },
            );
            self.label(label.as_str());
            if is_32 {
                let value: u32 = #[verifier::truncate]
                (bits as u32);
                let text = decimal_text(value as u128);
                self.one(".long", "", " ", text.as_str());
            } else {
                let text = decimal_text(bits as u128);
                self.one(".quad", "", " ", text.as_str());
            }
            i = i + 1;
        }
        self.label(".text");
    }
}

/// Saving registers changes nothing but the code.
proof fn lemma_push_saved_keeps(emission: Emission, saved: Seq<Reg>, at: nat)
    ensures
        emission.push_saved(saved, at) == (Emission {
            out: emission.push_saved(saved, at).out,
            ..emission
        }),
    decreases saved.len() - at,
{
    if at < saved.len() {
        lemma_push_saved_keeps(
            emission.one("push"@, ""@, "    %"@, saved[at as int].name_64()@),
            saved,
            at + 1,
        );
    }
}

/// Whether two states emit for the same function: they differ in the code and the pool only.
pub open spec fn same_function(a: Emission, b: Emission) -> bool {
    a.allocation == b.allocation && a.functions == b.functions && a.symbols == b.symbols && a.saved
        == b.saved
}

proof fn lemma_div_keeps(
    emission: Emission,
    typ: ValueType,
    lhs: Seq<char>,
    rhs: Seq<char>,
    is_const: bool,
    dest: Seq<char>,
)
    ensures
        same_function(emission.div(typ, lhs, rhs, is_const, dest), emission),
{
}

proof fn lemma_compare_keeps(
    emission: Emission,
    set: Seq<char>,
    lhs: Seq<char>,
    rhs: Seq<char>,
    dest: Seq<char>,
    suffix: Seq<char>,
    compared: ValueType,
)
    ensures
        same_function(emission.compare(set, lhs, rhs, dest, suffix, compared), emission),
{
}

proof fn lemma_unary_keeps(
    emission: Emission,
    operation: UnaryOperation,
    typ: ValueType,
    source: Seq<char>,
    dest: Seq<char>,
    function: Seq<char>,
)
    ensures
        same_function(emission.unary(operation, typ, source, dest, function), emission),
{
}

proof fn lemma_operand_keeps(emission: Emission, operand: Operand, function: Seq<char>)
    ensures
        same_function(emission.operand(operand, function).0, emission),
{
}

proof fn lemma_binary_keeps(
    emission: Emission,
    operation: BinaryOperation,
    typ: ValueType,
    left: Operand,
    right: Operand,
    dest: Seq<char>,
    function: Seq<char>,
)
    ensures
        same_function(emission.binary(operation, typ, left, right, dest, function), emission),
{
    let suffix = typ.size_suffix()@;
    let (first, lhs) = emission.operand(left, function);
    let (next, rhs) = first.operand(right, function);
    lemma_operand_keeps(emission, left, function);
    lemma_operand_keeps(first, right, function);
    match update_form(operation) {
        Some((name, gap)) => {},
        None => if operation == BinaryOperation::Div {
            lemma_div_keeps(next, typ, lhs, rhs, right is Const, dest);
        } else {
            lemma_compare_keeps(next, set_name(operation)@, lhs, rhs, dest, suffix, left.typ());
        },
    }
}

/// What an instruction's code is made from does not change as it is emitted.
proof fn lemma_instruction_keeps(emission: Emission, instruction: Instruction, function: Seq<char>)
    ensures
        same_function(emission.instruction(instruction, function), emission),
{
    let typ = instruction.dest.typ;
    let dest = emission.location(instruction.dest.id, typ);
    match instruction.kind {
        InstructionKind::Assign(operand) => {
            lemma_operand_keeps(emission, operand, function);
        },
        InstructionKind::Unary { operation, rhs } => {
            let (next, source) = emission.operand(rhs, function);
            lemma_operand_keeps(emission, rhs, function);
            lemma_unary_keeps(next, operation, typ, source, dest, function);
        },
        InstructionKind::Binary { operation, lhs, rhs } => {
            lemma_binary_keeps(emission, operation, typ, lhs, rhs, dest, function);
        },
        InstructionKind::Call { callee, args } => {
            let pushed = emission.push_args(args@, args@.len(), function);
            lemma_push_args_keeps(emission, args@, args@.len(), function);
            lemma_move_args_keeps(pushed, args@, 0, function);
        },
    }
}

proof fn lemma_push_args_keeps(
    emission: Emission,
    args: Seq<Operand>,
    end: nat,
    function: Seq<char>,
)
    ensures
        emission.push_args(args, end, function).allocation == emission.allocation,
        emission.push_args(args, end, function).functions == emission.functions,
        emission.push_args(args, end, function).symbols == emission.symbols,
        emission.push_args(args, end, function).saved == emission.saved,
    decreases end,
{
    if end > 6 && end <= args.len() {
        let arg = args[end - 1];
        let (next, source) = emission.operand(arg, function);
        lemma_push_args_keeps(
            next.one("push"@, arg.typ().size_suffix()@, "   "@, source),
            args,
            (end - 1) as nat,
            function,
        );
    }
}

proof fn lemma_move_args_keeps(emission: Emission, args: Seq<Operand>, at: nat, function: Seq<char>)
    ensures
        emission.move_args(args, at, function).allocation == emission.allocation,
        emission.move_args(args, at, function).functions == emission.functions,
        emission.move_args(args, at, function).symbols == emission.symbols,
        emission.move_args(args, at, function).saved == emission.saved,
    decreases 6 - at,
{
    if at < 6 && at < args.len() {
        let arg = args[at as int];
        let (next, source) = emission.operand(arg, function);
        match arg_reg(arg.typ(), at as usize) {
            Some(dest) => lemma_move_args_keeps(
                next.mov(arg.typ().size_suffix()@, source, dest@),
                args,
                at + 1,
                function,
            ),
            None => lemma_move_args_keeps(next, args, at + 1, function),
        }
    }
}

impl Function {
    /// Appends the assembly of the function.
    fn emit(
        &self,
        out: String,
        allocation: &Allocation,
        symbols: &Vec<String>,
        all_functions: &Vec<Function>,
    ) -> (code: String)
        requires
            function_ok(*self, *allocation, all_functions@.len()),
        ensures
            code@ == function_code(
                out@,
                *self,
                *allocation,
                all_functions@,
                texts(symbols@),
            ),
    {
        let name = function_label_text(self.name_symbol, symbols);
        let mut epilogue = ".L_".to_owned();
        push_text(&mut epilogue, name.as_str());
        push_text(&mut epilogue, "_epilogue");
        let mut emitter = FunctionEmitter::new(out, allocation, symbols, all_functions);
        let ghost start = emitter@;
        let pad: u128 = if emitter.saved_regs.len() % 2 == 1 {
            8
        } else {
            0
        };
        let frame_size: u128 = allocation.frame_size as u128 + pad;
        emitter.emit_prologue(name.as_str(), &self.params, frame_size);
        proof {
            lemma_prologue_keeps(start, name@, self.params@, frame_size as nat);
        }
        emitter.emit_body(&self.blocks, name.as_str(), epilogue.as_str());
        emitter.emit_epilogue(epilogue.as_str(), frame_size);
        emitter.flush_float_pool();
        emitter.out
    }
}

proof fn lemma_params_keeps(emission: Emission, params: Seq<(ValueId, ValueType)>, at: nat)
    ensures
        emission.params(params, at).allocation == emission.allocation,
        emission.params(params, at).functions == emission.functions,
    decreases 6 - at,
{
    if at < 6 && at < params.len() {
        let (id, typ) = params[at as int];
        match arg_reg(typ, at as usize) {
            Some(source) => lemma_params_keeps(
                emission.mov(typ.size_suffix()@, source@, emission.location(id, typ)),
                params,
                at + 1,
            ),
            None => lemma_params_keeps(emission, params, at + 1),
        }
    }
}

proof fn lemma_prologue_keeps(
    emission: Emission,
    name: Seq<char>,
    params: Seq<(ValueId, ValueType)>,
    frame_size: nat,
)
    ensures
        emission.prologue(name, params, frame_size).allocation == emission.allocation,
        emission.prologue(name, params, frame_size).functions == emission.functions,
{
    let start = emission.label(".globl "@ + name).label(name + ":"@).line("push    %rbp"@).line(
        "mov     %rsp, %rbp"@,
    );
    let saved = start.push_saved(emission.saved, 0);
    lemma_push_saved_keeps(start, emission.saved, 0);
    let framed = if frame_size > 0 {
        saved.two("sub"@, ""@, "     $"@, decimal(frame_size), "%rsp"@)
    } else {
        saved
    };
    lemma_params_keeps(framed, params, 0);
}

/// Emits the assembly of a whole program, whose values live where `allocations` says.
pub fn emit(mir: &Mir, allocations: &Vec<Allocation>) -> (code: String)
    requires
        allocations@.len() == mir.functions@.len(),
        forall|i: int|
            0 <= i < mir.functions@.len() ==> function_ok(
                #[trigger] mir.functions@[i],
                allocations@[i],
                mir.functions@.len(),
            ),
    ensures
        code@ == program_code(mir.functions@, allocations@, texts(mir.symbols@)),
{
    let mut out = ".text\n".to_owned();
    let mut i: usize = 0;
    while i < mir.functions.len()
        invariant
            i <= mir.functions@.len(),
            allocations@.len() == mir.functions@.len(),
            forall|i: int|
                0 <= i < mir.functions@.len() ==> function_ok(
                    #[trigger] mir.functions@[i],
                    allocations@[i],
                    mir.functions@.len(),
                ),
            functions_code(".text\n"@, mir.functions@, allocations@, texts(mir.symbols@), 0)
                == functions_code(
                out@,
                mir.functions@,
                allocations@,
                texts(mir.symbols@),
                i as nat,
            ),
        decreases mir.functions@.len() - i,
    {
        out = mir.functions[i].emit(out, &allocations[i], &mir.symbols, &mir.functions);
        i = i + 1;
    }
    if has_main(mir) {
        push_text(
            &mut out,
            ".globl _start\n_start:\n    call    nyx_main\n    movl    %eax, %edi\n    movl    $60, %eax\n    syscall\n",
        );
    }
    out
}

fn has_main(mir: &Mir) -> (found: bool)
    ensures
        found == defines_main(mir.functions@, texts(mir.symbols@)),
{
    let mut i: usize = 0;
    while i < mir.functions.len()
        invariant
            i <= mir.functions@.len(),
            forall|k: int|
                0 <= k < i && (#[trigger] mir.functions@[k]).name_symbol < texts(mir.symbols@).len()
                    ==> texts(mir.symbols@)[mir.functions@[k].name_symbol as int] != "main"@,
        decreases mir.functions@.len() - i,
    {
        let symbol = mir.functions[i].name_symbol;
        if symbol < mir.symbols.len() {
            assert(texts(mir.symbols@)[symbol as int] == mir.symbols@[symbol as int]@);
            if text_eq(mir.symbols[symbol].as_str(), "main") {
                assert(mir.functions@[i as int].name_symbol == symbol);
                return true;
            }
        }
        i = i + 1;
    }
    false
}

/// With a frame of whole 16-byte units, the saved registers and the padded frame together keep
/// the stack 16-byte aligned at every call.
pub proof fn lemma_calls_aligned(frame_size: nat, saved: nat)
    requires
        frame_size % 16 == 0,
    ensures
        (saved * 8 + padded_frame(frame_size, saved)) % 16 == 0,
{
}

/// One instruction per register, in order.
pub open spec fn each(name: Seq<char>, gap: Seq<char>, regs: Seq<Reg>) -> Seq<char>
    decreases regs.len(),
{
    if regs.len() == 0 {
        Seq::empty()
    } else {
        "    "@ + name + gap + "%"@ + regs[0].name_64()@ + "\n"@ + each(name, gap, regs.skip(1))
    }
}

/// Registers are restored in the reverse of the order they are saved in, so each gets back what
/// it held.
pub proof fn lemma_saved_restored(emission: Emission, saved: Seq<Reg>)
    ensures
        emission.push_saved(saved, 0).out == emission.out + each("push"@, "    "@, saved),
        emission.pop_saved(saved, saved.len()).out == emission.out + each(
            "pop"@,
            "     "@,
            saved.reverse(),
        ),
{
    assert(saved.skip(0) =~= saved);
    assert(saved.take(saved.len() as int) =~= saved);
    lemma_pushed(emission, saved, 0);
    lemma_popped(emission, saved, saved.len());
}

proof fn lemma_pushed(emission: Emission, saved: Seq<Reg>, at: nat)
    requires
        at <= saved.len(),
    ensures
        emission.push_saved(saved, at).out == emission.out + each(
            "push"@,
            "    "@,
            saved.skip(at as int),
        ),
    decreases saved.len() - at,
{
    reveal_strlit("");
    reveal_strlit("    %");
    reveal_strlit("    ");
    reveal_strlit("%");
    let rest = saved.skip(at as int);
    if at < saved.len() {
        let reg = saved[at as int].name_64()@;
        let next = emission.one("push"@, ""@, "    %"@, reg);
        lemma_pushed(next, saved, at + 1);
        assert(rest.skip(1) =~= saved.skip(at as int + 1));
        assert(next.out + each("push"@, "    "@, rest.skip(1)) =~= emission.out + each(
            "push"@,
            "    "@,
            rest,
        ));
    } else {
        assert(emission.out + each("push"@, "    "@, rest) =~= emission.out);
    }
}

proof fn lemma_popped(emission: Emission, saved: Seq<Reg>, end: nat)
    requires
        end <= saved.len(),
    ensures
        emission.pop_saved(saved, end).out == emission.out + each(
            "pop"@,
            "     "@,
            saved.take(end as int).reverse(),
        ),
    decreases end,
{
    reveal_strlit("");
    reveal_strlit("     %");
    reveal_strlit("     ");
    reveal_strlit("%");
    let rest = saved.take(end as int).reverse();
    if end > 0 {
        let reg = saved[end - 1].name_64()@;
        let next = emission.one("pop"@, ""@, "     %"@, reg);
        lemma_popped(next, saved, (end - 1) as nat);
        assert(rest.skip(1) =~= saved.take(end - 1).reverse());
        assert(next.out + each("pop"@, "     "@, rest.skip(1)) =~= emission.out + each(
            "pop"@,
            "     "@,
            rest,
        ));
    } else {
        assert(emission.out + each("pop"@, "     "@, rest) =~= emission.out);
    }
}

/// No two blocks of any functions share a label.
pub proof fn lemma_block_labels_unique(f: Seq<char>, i: nat, g: Seq<char>, j: nat)
    requires
        block_label(f, i) == block_label(g, j),
    ensures
        f == g,
        i == j,
{
    reveal_strlit("_");
    let head = ".L_block_"@;
    assert((head + f).push('_') + decimal(i) =~= block_label(f, i));
    assert((head + g).push('_') + decimal(j) =~= block_label(g, j));
    lemma_numbered_injective(head + f, i, head + g, j, '_');
    assert((head + f).skip(head.len() as int) =~= f);
    assert((head + g).skip(head.len() as int) =~= g);
}

/// Whether no constant is in the pool twice and no two constants share a label.
pub open spec fn pool_ok(pool: Seq<FloatEntry>, function: Seq<char>) -> bool {
    &&& forall|i: int|
        0 <= i < pool.len() ==> (#[trigger] pool[i]).label == ".LC_"@ + function + "_"@ + decimal(
            i as nat,
        )
    &&& forall|i: int, j: int|
        0 <= i < j < pool.len() ==> (#[trigger] pool[i]).bits != (#[trigger] pool[j]).bits
            || pool[i].is_32 != pool[j].is_32
}

/// Asking for a constant keeps the pool free of repetitions, leaves the entries it had, and
/// gives the label of an entry with just the wanted bits.
pub proof fn lemma_float_label(
    emission: Emission,
    value: FloatBits,
    is_32: bool,
    function: Seq<char>,
)
    requires
        pool_ok(emission.pool, function),
    ensures
        ({
            let (after, operand) = emission.float_label(value, is_32, function);
            &&& pool_ok(after.pool, function)
            &&& emission.pool.is_prefix_of(after.pool)
            &&& after.out == emission.out
            &&& exists|i: int|
                0 <= i < after.pool.len() && (#[trigger] after.pool[i]).bits == float_bits(
                    value,
                    is_32,
                ) && after.pool[i].is_32 == is_32 && operand == after.pool[i].label + "(%rip)"@
        }),
{
    let bits = float_bits(value, is_32);
    lemma_find_float(emission.pool, bits, is_32, 0);
    let (after, operand) = emission.float_label(value, is_32, function);
    match find_float(emission.pool, bits, is_32, 0) {
        Some(index) => {
            assert(after.pool[index as int].label + "(%rip)"@ == operand);
        },
        None => {
            let n = emission.pool.len() as int;
            assert(after.pool[n].label + "(%rip)"@ == operand);
        },
    }
}

proof fn lemma_find_float(pool: Seq<FloatEntry>, bits: u64, is_32: bool, at: nat)
    ensures
        match find_float(pool, bits, is_32, at) {
            Some(index) => at <= index < pool.len() && pool[index as int].bits == bits
                && pool[index as int].is_32 == is_32,
            None => forall|i: int|
                at <= i < pool.len() ==> (#[trigger] pool[i]).bits != bits || pool[i].is_32
                    != is_32,
        },
    decreases pool.len() - at,
{
    if at < pool.len() {
        lemma_find_float(pool, bits, is_32, at + 1);
    }
}

} // verus!
