//! Assembly of small functions, given as blocks of instructions.

use nyx::codegen::x86_64::emit;
use nyx::hir::tree::FunctionId;
use nyx::mir::{
    BinaryOperation, Block, BlockId, Const, FloatBits, Function, Instruction, InstructionKind, Mir,
    Operand, Place, Terminator, UnaryOperation, ValueId, ValueType,
};
use nyx::regalloc::{Allocation, Location, Reg};

fn place(id: u32, typ: ValueType) -> Place {
    Place { id: ValueId(id), typ }
}

fn value(id: u32, typ: ValueType) -> Operand {
    Operand::Place(place(id, typ))
}

fn whole(n: i64) -> Operand {
    Operand::Const(Const::Int(n, ValueType::I32))
}

fn binary(dest: Place, operation: BinaryOperation, lhs: Operand, rhs: Operand) -> Instruction {
    Instruction { dest, kind: InstructionKind::Binary { operation, lhs, rhs } }
}

fn block(instructions: Vec<Instruction>, terminator: Terminator) -> Block {
    Block { instructions, terminator }
}

/// The values of a function in the order of their numbers: eight registers, then the stack.
fn allocate(values: usize) -> Allocation {
    let registers = [
        Reg::Rdi, Reg::Rsi, Reg::Rdx, Reg::Rcx, Reg::R8, Reg::R9, Reg::R10, Reg::R11,
    ];
    let mut locations = Vec::new();
    for i in 0..values {
        locations.push(match registers.get(i) {
            Some(reg) => Location::Register(*reg),
            None => Location::Stack(-4 * (i as i32 - 7)),
        });
    }
    let spilled = values.saturating_sub(8) as u32 * 4;
    Allocation { locations, frame_size: spilled.next_multiple_of(16) }
}

fn compile_function(
    name: &str,
    params: &[ValueType],
    values: usize,
    blocks: Vec<Block>,
) -> String {
    let params =
        params.iter().enumerate().map(|(i, typ)| (ValueId(i as u32), *typ)).collect();
    let function = Function { name_symbol: 0, params, blocks };
    let mir = Mir { functions: vec![function], symbols: vec![name.to_string()] };
    emit(&mir, &vec![allocate(values)])
}

/// A function of two parameters that gives back `a operation b`.
fn compile_binary(
    name: &str,
    typ: ValueType,
    operation: BinaryOperation,
    result: ValueType,
) -> String {
    let instruction = binary(place(2, result), operation, value(0, typ), value(1, typ));
    let terminator = Terminator::Return(Some(value(2, result)));
    compile_function(name, &[typ, typ], 3, vec![block(vec![instruction], terminator)])
}

fn compile_unary(name: &str, typ: ValueType, operation: UnaryOperation) -> String {
    let kind = InstructionKind::Unary { operation, rhs: value(0, typ) };
    let instruction = Instruction { dest: place(1, typ), kind };
    let terminator = Terminator::Return(Some(value(1, typ)));
    compile_function(name, &[typ], 2, vec![block(vec![instruction], terminator)])
}

#[test]
fn function_with_spills_allocates_frame() {
    let params = [ValueType::I32; 16];
    let mut instructions = vec![binary(
        place(16, ValueType::I32),
        BinaryOperation::Add,
        value(0, ValueType::I32),
        value(1, ValueType::I32),
    )];
    for i in 2..16 {
        instructions.push(binary(
            place(15 + i, ValueType::I32),
            BinaryOperation::Add,
            value(14 + i, ValueType::I32),
            value(i, ValueType::I32),
        ));
    }
    let terminator = Terminator::Return(Some(value(30, ValueType::I32)));
    let code = compile_function("pressure", &params, 31, vec![block(instructions, terminator)]);

    // should allocate stack frame for spills
    assert!(code.contains("sub"));
    assert!(code.contains("    sub     $96, %rsp\n"));
    assert!(code.contains("    add     $96, %rsp\n"));
}

#[test]
fn simple_return_constant() {
    let terminator = Terminator::Return(Some(whole(42)));
    let code = compile_function("foo", &[], 0, vec![block(vec![], terminator)]);

    // should move constant to eax and return
    assert!(code.contains("movl"));
    assert!(code.contains("$42"));
    assert!(code.contains("%eax"));
    assert_eq!(
        code,
        ".text\n.globl nyx_foo\nnyx_foo:\n    push    %rbp\n    mov     %rsp, %rbp\n    \
         movl    $42, %eax\n.L_nyx_foo_epilogue:\n    pop     %rbp\n    ret\n"
    );
}

#[test]
fn add_operation_emits_add_instruction() {
    let code = compile_binary("add", ValueType::I32, BinaryOperation::Add, ValueType::I32);

    assert!(code.contains("addl"));
    assert!(code.contains("    movl    %edi, %edx\n    addl    %esi, %edx\n"));
}

#[test]
fn sub_operation_emits_sub_instruction() {
    let code = compile_binary("sub", ValueType::I32, BinaryOperation::Sub, ValueType::I32);

    assert!(code.contains("subl"));
}

#[test]
fn mul_operation_emits_imul_instruction() {
    let code = compile_binary("mul", ValueType::I32, BinaryOperation::Mul, ValueType::I32);

    assert!(code.contains("imul"));
}

#[test]
fn div_operation_emits_idiv_with_setup() {
    let code = compile_binary("div", ValueType::I32, BinaryOperation::Div, ValueType::I32);

    assert!(code.contains("cltd")); // sign-extend for 32-bit
    assert!(code.contains("idivl"));
    // the destination is %edx, so only %rax is preserved
    assert!(code.contains("    push   %rax\n    movl    %edi, %eax\n    cltd\n    idivl    %esi\n    movl    %eax, %edx\n    pop     %rax\n"));
    assert!(!code.contains("push   %rdx"));
}

#[test]
fn div_64bit_uses_cqto() {
    let code = compile_binary("div64", ValueType::I64, BinaryOperation::Div, ValueType::I64);

    assert!(code.contains("cqto")); // sign-extend for 64-bit
    assert!(code.contains("idivq"));
}

#[test]
fn division_by_a_constant_goes_through_the_stack() {
    let typ = ValueType::I32;
    let instruction = binary(place(1, typ), BinaryOperation::Div, value(0, typ), whole(7));
    let terminator = Terminator::Return(Some(value(1, typ)));
    let code = compile_function("seventh", &[typ], 2, vec![block(vec![instruction], terminator)]);

    assert!(code.contains(
        "    sub     $8, %rsp\n    movl    $7, (%rsp)\n    idivl   (%rsp)\n    add     $8, %rsp\n"
    ));
}

#[test]
fn negation_emits_neg_instruction() {
    let code = compile_unary("neg", ValueType::I32, UnaryOperation::Neg);

    assert!(code.contains("negl"));
}

#[test]
fn logical_not_emits_xor() {
    let code = compile_unary("not", ValueType::Bool, UnaryOperation::Not);

    assert!(code.contains("xorl"));
    assert!(code.contains("$1"));
}

#[test]
fn comparison_eq_emits_sete() {
    let code = compile_binary("eq", ValueType::I32, BinaryOperation::Eq, ValueType::Bool);

    assert!(code.contains("cmpl"));
    assert!(code.contains("sete"));
    assert!(code.contains("movzbl"));
    assert!(code.contains(
        "    push    %rax\n    cmpl    %esi, %edi\n    sete     %al\n    movzbl   %al, %edx\n    pop     %rax\n"
    ));
}

#[test]
fn comparison_ne_emits_setne() {
    let code = compile_binary("ne", ValueType::I32, BinaryOperation::Ne, ValueType::Bool);

    assert!(code.contains("setne"));
}

#[test]
fn comparison_lt_emits_setl() {
    let code = compile_binary("lt", ValueType::I32, BinaryOperation::Lt, ValueType::Bool);

    assert!(code.contains("setl"));
}

#[test]
fn comparison_le_emits_setle() {
    let code = compile_binary("le", ValueType::I32, BinaryOperation::LtEq, ValueType::Bool);

    assert!(code.contains("setle"));
}

#[test]
fn comparison_gt_emits_setg() {
    let code = compile_binary("gt", ValueType::I32, BinaryOperation::Gt, ValueType::Bool);

    assert!(code.contains("setg"));
}

#[test]
fn comparison_ge_emits_setge() {
    let code = compile_binary("ge", ValueType::I32, BinaryOperation::GtEq, ValueType::Bool);

    assert!(code.contains("setge"));
}

#[test]
fn logical_and_emits_and_instruction() {
    let code = compile_binary("and", ValueType::Bool, BinaryOperation::And, ValueType::Bool);

    assert!(code.contains("andl"));
}

#[test]
fn logical_or_emits_or_instruction() {
    let code = compile_binary("or", ValueType::Bool, BinaryOperation::Or, ValueType::Bool);

    assert!(code.contains("orl"));
}

#[test]
fn if_statement_emits_branch() {
    let branch = Terminator::Branch {
        condition: value(0, ValueType::Bool),
        then_block: BlockId(1),
        else_block: BlockId(2),
    };
    let blocks = vec![
        block(vec![], branch),
        block(vec![], Terminator::Return(Some(whole(1)))),
        block(vec![], Terminator::Return(Some(whole(2)))),
    ];
    let code = compile_function("test", &[ValueType::Bool], 1, blocks);

    assert!(code.contains("testl"));
    assert!(code.contains("jne"));
    assert!(code.contains(".L_block_"));
    assert!(code.contains("    testl    %edi, %edi\n    jne      .L_block_nyx_test_1\n    jmp      .L_block_nyx_test_2\n"));
    // a return leads to the epilogue, which follows the last block
    assert!(code.contains("    movl    $1, %eax\n    jmp      .L_nyx_test_epilogue\n"));
    assert!(code.contains("    movl    $2, %eax\n.L_nyx_test_epilogue:\n"));
}

#[test]
fn while_loop_emits_jump_back() {
    let i32 = ValueType::I32;
    let blocks = vec![
        block(
            vec![Instruction { dest: place(1, i32), kind: InstructionKind::Assign(whole(0)) }],
            Terminator::Jump(BlockId(1)),
        ),
        block(
            vec![binary(
                place(2, ValueType::Bool),
                BinaryOperation::Lt,
                value(1, i32),
                value(0, i32),
            )],
            Terminator::Branch {
                condition: value(2, ValueType::Bool),
                then_block: BlockId(2),
                else_block: BlockId(3),
            },
        ),
        block(
            vec![binary(place(1, i32), BinaryOperation::Add, value(1, i32), whole(1))],
            Terminator::Jump(BlockId(1)),
        ),
        block(vec![], Terminator::Return(Some(value(1, i32)))),
    ];
    let code = compile_function("loop_test", &[i32], 3, blocks);

    // should have conditional branch and backward jump
    assert!(code.contains("jmp"));
    assert!(code.contains(".L_block_"));
    assert!(code.contains("    addl    $1, %esi\n    jmp      .L_block_nyx_loop_test_1\n"));
}

#[test]
fn complex_arithmetic_expression() {
    let i32 = ValueType::I32;
    let instructions = vec![
        binary(place(3, i32), BinaryOperation::Add, value(0, i32), value(1, i32)),
        binary(place(4, i32), BinaryOperation::Mul, value(3, i32), value(2, i32)),
    ];
    let terminator = Terminator::Return(Some(value(4, i32)));
    let code = compile_function("expr", &[i32, i32, i32], 5, vec![block(instructions, terminator)]);

    assert!(code.contains("addl"));
    assert!(code.contains("imul"));
}

#[test]
fn nested_comparisons() {
    let i32 = ValueType::I32;
    let flag = ValueType::Bool;
    let instructions = vec![
        binary(place(3, flag), BinaryOperation::Lt, value(0, i32), value(1, i32)),
        binary(place(4, flag), BinaryOperation::Lt, value(1, i32), value(2, i32)),
        binary(place(5, flag), BinaryOperation::And, value(3, flag), value(4, flag)),
    ];
    let terminator = Terminator::Return(Some(value(5, flag)));
    let blocks = vec![block(instructions, terminator)];
    let code = compile_function("complex", &[i32, i32, i32], 6, blocks);

    assert!(code.contains("cmpl"));
    assert!(code.contains("andl"));
}

#[test]
fn arguments_past_the_sixth_are_pushed_last_first() {
    let i32 = ValueType::I32;
    let args = (1..=8).map(whole).collect();
    let call = Instruction {
        dest: place(0, i32),
        kind: InstructionKind::Call { callee: FunctionId(1), args },
    };
    let caller = Function {
        name_symbol: 0,
        params: vec![],
        blocks: vec![block(vec![call], Terminator::Return(Some(value(0, i32))))],
    };
    let callee = Function {
        name_symbol: 9,
        params: vec![],
        blocks: vec![block(vec![], Terminator::Return(Some(whole(0))))],
    };
    let symbols = vec!["main".to_string()];
    let mir = Mir { functions: vec![caller, callee], symbols };
    let code = emit(&mir, &vec![allocate(1), allocate(0)]);

    assert!(code.contains("    pushl   $8\n    pushl   $7\n    movl    $1, %edi\n"));
    assert!(code.contains(
        "    call     nyx_func_9\n    add     $16, %rsp\n    movl    %eax, %edi\n"
    ));
    // a program with a `main` starts there and exits with its result
    assert!(code.ends_with(
        ".globl _start\n_start:\n    call    nyx_main\n    movl    %eax, %edi\n    movl    $60, %eax\n    syscall\n"
    ));
}

#[test]
fn float_constants_are_pooled() {
    let f64 = ValueType::F64;
    let one = FloatBits { single: 1.0_f32.to_bits(), double: 1.0_f64.to_bits() };
    let constant = Operand::Const(Const::Float(one, f64));
    let instructions = vec![
        binary(place(0, f64), BinaryOperation::Add, constant, constant),
        Instruction {
            dest: place(0, f64),
            kind: InstructionKind::Unary { operation: UnaryOperation::Neg, rhs: value(0, f64) },
        },
    ];
    let blocks = vec![block(instructions, Terminator::Return(None))];
    let code = compile_function("half", &[], 1, blocks);

    assert!(code.contains("    movsd    .LC_nyx_half_0(%rip), %xmm7\n    addsd    .LC_nyx_half_0(%rip), %xmm7\n    xorpd    .LC_nyx_half_1(%rip), %xmm7\n"));
    assert!(code.ends_with(
        ".section .rodata\n.align 8\n.LC_nyx_half_0:\n    .quad 4607182418800017408\n.align 8\n.LC_nyx_half_1:\n    .quad 9223372036854775808\n.text\n"
    ));
    assert_eq!(f64_sign(), 9223372036854775808);
}

fn f64_sign() -> u64 {
    (-0.0_f64).to_bits()
}

#[test]
fn saved_registers_come_back_in_reverse() {
    let i64 = ValueType::I64;
    let locations = vec![
        Location::Register(Reg::R12),
        Location::Register(Reg::Rbx),
        Location::Register(Reg::R15),
        Location::Stack(-8),
    ];
    let function = Function {
        name_symbol: 0,
        params: vec![(ValueId(0), i64), (ValueId(3), i64)],
        blocks: vec![block(vec![], Terminator::Return(Some(value(3, i64))))],
    };
    let mir = Mir { functions: vec![function], symbols: vec!["keep".to_string()] };
    let code = emit(&mir, &vec![Allocation { locations, frame_size: 16 }]);

    assert!(code.contains("    push    %rbx\n    push    %r12\n    push    %r15\n    sub     $24, %rsp\n    movq    %rdi, %r12\n    movq    %rsi, -32(%rbp)\n    movq    -32(%rbp), %rax\n"));
    assert!(code.contains("    add     $24, %rsp\n    pop     %r15\n    pop     %r12\n    pop     %rbx\n    pop     %rbp\n    ret\n"));
}

#[test]
fn the_entry_point_needs_a_function_main() {
    let local = Mir { functions: vec![], symbols: vec!["main".to_string()] };
    assert_eq!(emit(&local, &vec![]), ".text\n");

    let body = || vec![block(vec![], Terminator::Return(Some(whole(0))))];
    let other = Function { name_symbol: 0, params: vec![], blocks: body() };
    let symbols = vec!["other".to_string(), "main".to_string()];
    let mir = Mir { functions: vec![other], symbols: symbols.clone() };
    assert!(!emit(&mir, &vec![allocate(0)]).contains("_start"));

    let main = Function { name_symbol: 1, params: vec![], blocks: body() };
    let other = Function { name_symbol: 0, params: vec![], blocks: body() };
    let mir = Mir { functions: vec![main, other], symbols };
    let code = emit(&mir, &vec![allocate(0), allocate(0)]);
    assert_eq!(code.matches("_start:").count(), 1);
    let entry = code.find("_start:").unwrap();
    assert!(entry > code.find("nyx_main:").unwrap());
    assert!(entry > code.find("nyx_other:").unwrap());
}
