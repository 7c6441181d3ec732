use comp::asm_ast::{
    BinaryOp, CondCode, Function, Instruction, Operand, Program, Register, RegisterSize, UnaryOp,
};
use comp::code_emission::emit_program;
use comp::code_gen::{fix_instructions, gen_program, replace_pseudo};
use comp::irc;

fn select(instructions: Vec<irc::Instruction>) -> Vec<Instruction> {
    let program = irc::Program::Function(irc::Function { name: "f", instructions });
    let Program::Function(function) = gen_program(program);
    assert_eq!(function.name, "f");
    function.instructions
}

fn replaced(instructions: Vec<Instruction>) -> (Vec<Instruction>, usize) {
    let mut program = Program::Function(Function { name: "f", instructions });
    let frame = replace_pseudo(&mut program);
    let Program::Function(function) = program;
    (function.instructions, frame)
}

fn fixed(instructions: Vec<Instruction>, frame: usize) -> Vec<Instruction> {
    let mut program = Program::Function(Function { name: "f", instructions });
    fix_instructions(&mut program, frame);
    let Program::Function(function) = program;
    function.instructions
}

fn emitted(instructions: Vec<Instruction>) -> String {
    emit_program(Program::Function(Function { name: "f", instructions }))
}

fn lines(instructions: Vec<Instruction>) -> Vec<String> {
    let text = emitted(instructions);
    let head = "\n    .global f\nf:\n    pushq    %rbp\n    movq    %rsp, %rbp\n    ";
    let tail = "\n\n.section .note.GNU-stack,\"\",@progbits\n";
    assert!(text.starts_with(head), "{text}");
    assert!(text.ends_with(tail), "{text}");
    text[head.len()..text.len() - tail.len()].split("\n    ").map(str::to_string).collect()
}

fn constant(value: i32) -> irc::Value {
    irc::Value::Constant(value)
}

fn variable(name: &str) -> irc::Value {
    irc::Value::Var(name.to_string())
}

fn pseudo(name: &str) -> Operand {
    Operand::Pseudo(name.to_string())
}

fn register(register: Register) -> Operand {
    Operand::Register(register)
}

fn mov(src: Operand, dst: Operand) -> Instruction {
    Instruction::Mov { src, dst }
}

fn binary(operator: BinaryOp, operand1: Operand, operand2: Operand) -> Instruction {
    Instruction::Binary { operator, operand1, operand2 }
}

fn compare(operand1: Operand, operand2: Operand) -> Instruction {
    Instruction::Cmp { operand1, operand2 }
}

fn has_pseudo(instruction: &Instruction) -> bool {
    let is_pseudo = |operand: &Operand| matches!(operand, Operand::Pseudo(_));
    match instruction {
        Instruction::Mov { src, dst } => is_pseudo(src) || is_pseudo(dst),
        Instruction::Unary { operand, .. } => is_pseudo(operand),
        Instruction::Binary { operand1, operand2, .. } => is_pseudo(operand1) || is_pseudo(operand2),
        Instruction::Cmp { operand1, operand2 } => is_pseudo(operand1) || is_pseudo(operand2),
        Instruction::SetCC { operand, .. } => is_pseudo(operand),
        Instruction::Idiv(operand) => is_pseudo(operand),
        _ => false,
    }
}

fn forbidden(instruction: &Instruction) -> bool {
    let stack = |operand: &Operand| matches!(operand, Operand::Stack(_));
    let immediate = |operand: &Operand| matches!(operand, Operand::Imm(_));
    match instruction {
        Instruction::Mov { src, dst } => stack(src) && stack(dst),
        Instruction::Idiv(operand) => immediate(operand),
        Instruction::Binary { operator: BinaryOp::Mult, operand2, .. } => stack(operand2),
        Instruction::Binary { operator: BinaryOp::Shl | BinaryOp::Shr, operand1, .. } => {
            stack(operand1)
        }
        Instruction::Binary { operand1, operand2, .. } => stack(operand1) && stack(operand2),
        Instruction::Cmp { operand1, operand2 } => {
            immediate(operand2) || (stack(operand1) && stack(operand2))
        }
        _ => false,
    }
}

#[test]
fn a_return_moves_its_value_into_ax() {
    assert_eq!(
        select(vec![irc::Instruction::Ret(constant(2))]),
        vec![mov(Operand::Imm(2), register(Register::AX)), Instruction::Return]
    );
    assert_eq!(
        select(vec![irc::Instruction::Ret(variable("a.0"))]),
        vec![mov(pseudo("a.0"), register(Register::AX)), Instruction::Return]
    );
}

#[test]
fn unary_operators_are_selected() {
    let unary = |operator| irc::Instruction::Unary {
        operator,
        src: variable("a"),
        dst: "t".to_string(),
    };
    assert_eq!(
        select(vec![unary(irc::UnaryOp::Negate)]),
        vec![
            mov(pseudo("a"), pseudo("t")),
            Instruction::Unary { operator: UnaryOp::Neg, operand: pseudo("t") },
        ]
    );
    assert_eq!(
        select(vec![unary(irc::UnaryOp::Complement)]),
        vec![
            mov(pseudo("a"), pseudo("t")),
            Instruction::Unary { operator: UnaryOp::Not, operand: pseudo("t") },
        ]
    );
    assert_eq!(
        select(vec![unary(irc::UnaryOp::Not)]),
        vec![
            compare(Operand::Imm(0), pseudo("a")),
            mov(Operand::Imm(0), pseudo("t")),
            Instruction::SetCC { cond_code: CondCode::E, operand: pseudo("t") },
        ]
    );
}

#[test]
fn arithmetic_is_computed_in_the_destination() {
    let table = [
        (irc::BinaryOp::Add, BinaryOp::Add),
        (irc::BinaryOp::Subtract, BinaryOp::Sub),
        (irc::BinaryOp::Multiply, BinaryOp::Mult),
        (irc::BinaryOp::BitAnd, BinaryOp::And),
        (irc::BinaryOp::BitOr, BinaryOp::Or),
        (irc::BinaryOp::Xor, BinaryOp::Xor),
        (irc::BinaryOp::LeftShift, BinaryOp::Shl),
        (irc::BinaryOp::RightShift, BinaryOp::Shr),
    ];
    for (operator, machine_operator) in table {
        assert_eq!(
            select(vec![irc::Instruction::Binary {
                operator,
                src1: variable("a"),
                src2: constant(3),
                dst: "t".to_string(),
            }]),
            vec![
                mov(pseudo("a"), pseudo("t")),
                binary(machine_operator, Operand::Imm(3), pseudo("t")),
            ],
            "{operator:?}"
        );
    }
}

#[test]
fn division_goes_through_ax_and_dx() {
    let divide = |operator| irc::Instruction::Binary {
        operator,
        src1: variable("a"),
        src2: variable("b"),
        dst: "t".to_string(),
    };
    assert_eq!(
        select(vec![divide(irc::BinaryOp::Divide)]),
        vec![
            mov(pseudo("a"), register(Register::AX)),
            Instruction::Cdq,
            Instruction::Idiv(pseudo("b")),
            mov(register(Register::AX), pseudo("t")),
        ]
    );
    assert_eq!(
        select(vec![divide(irc::BinaryOp::Remainder)]),
        vec![
            mov(pseudo("a"), register(Register::AX)),
            Instruction::Cdq,
            Instruction::Idiv(pseudo("b")),
            mov(register(Register::DX), pseudo("t")),
        ]
    );
}

#[test]
fn a_comparison_swaps_its_operands() {
    let table = [
        (irc::BinaryOp::Equal, CondCode::E),
        (irc::BinaryOp::NotEqual, CondCode::NE),
        (irc::BinaryOp::LessThan, CondCode::L),
        (irc::BinaryOp::LessOrEqual, CondCode::LE),
        (irc::BinaryOp::GreaterThan, CondCode::G),
        (irc::BinaryOp::GreaterOrEqual, CondCode::GE),
    ];
    for (operator, cond_code) in table {
        assert_eq!(
            select(vec![irc::Instruction::Binary {
                operator,
                src1: variable("a"),
                src2: variable("b"),
                dst: "t".to_string(),
            }]),
            vec![
                compare(pseudo("b"), pseudo("a")),
                mov(Operand::Imm(0), pseudo("t")),
                Instruction::SetCC { cond_code, operand: pseudo("t") },
            ],
            "{operator:?}"
        );
    }
}

#[test]
fn copies_jumps_and_labels_are_selected() {
    assert_eq!(
        select(vec![
            irc::Instruction::Copy { src: constant(-1), dst: "a".to_string() },
            irc::Instruction::Jump { target: "l".to_string() },
            irc::Instruction::JumpIfZero { condition: variable("a"), target: "l".to_string() },
            irc::Instruction::JumpIfNotZero { condition: constant(5), target: "m".to_string() },
            irc::Instruction::Label("l".to_string()),
        ]),
        vec![
            mov(Operand::Imm(-1), pseudo("a")),
            Instruction::Jmp("l".to_string()),
            compare(Operand::Imm(0), pseudo("a")),
            Instruction::JumpCC { cond_code: CondCode::E, target: "l".to_string() },
            compare(Operand::Imm(0), Operand::Imm(5)),
            Instruction::JumpCC { cond_code: CondCode::NE, target: "m".to_string() },
            Instruction::Label("l".to_string()),
        ]
    );
    assert_eq!(select(vec![]), vec![]);
}

#[test]
fn pseudo_registers_get_slots_in_the_order_of_their_first_use() {
    let (instructions, frame) = replaced(vec![
        mov(Operand::Imm(1), pseudo("a")),
        mov(pseudo("a"), pseudo("b")),
        binary(BinaryOp::Add, pseudo("c"), pseudo("a")),
        compare(pseudo("b"), pseudo("d")),
        Instruction::Unary { operator: UnaryOp::Neg, operand: pseudo("c") },
        Instruction::SetCC { cond_code: CondCode::L, operand: pseudo("e") },
        Instruction::Idiv(pseudo("d")),
        mov(register(Register::AX), Operand::Stack(44)),
        Instruction::Label("a".to_string()),
        Instruction::Return,
    ]);
    assert_eq!(
        instructions,
        vec![
            mov(Operand::Imm(1), Operand::Stack(4)),
            mov(Operand::Stack(4), Operand::Stack(8)),
            binary(BinaryOp::Add, Operand::Stack(12), Operand::Stack(4)),
            compare(Operand::Stack(8), Operand::Stack(16)),
            Instruction::Unary { operator: UnaryOp::Neg, operand: Operand::Stack(12) },
            Instruction::SetCC { cond_code: CondCode::L, operand: Operand::Stack(20) },
            Instruction::Idiv(Operand::Stack(16)),
            mov(register(Register::AX), Operand::Stack(44)),
            Instruction::Label("a".to_string()),
            Instruction::Return,
        ]
    );
    assert_eq!(frame, 32);
    assert!(!instructions.iter().any(has_pseudo));
}

#[test]
fn the_frame_is_a_multiple_of_sixteen() {
    for (slots, frame) in [(0, 0), (1, 16), (4, 16), (5, 32), (8, 32), (9, 48)] {
        let instructions = (0..slots)
            .map(|index| mov(Operand::Imm(0), pseudo(&format!("v.{index}"))))
            .collect();
        assert_eq!(replaced(instructions).1, frame, "{slots}");
    }
}

#[test]
fn legalization_allocates_the_frame_first() {
    assert_eq!(fixed(vec![], 16), vec![Instruction::AllocateStack(16)]);
    assert_eq!(
        fixed(vec![Instruction::Return], 0),
        vec![Instruction::AllocateStack(0), Instruction::Return]
    );
}

#[test]
fn legalization_rewrites_what_cannot_be_encoded() {
    let stack = Operand::Stack;
    let r10 = || register(Register::R10);
    let r11 = || register(Register::R11);
    let cx = || register(Register::CX);
    let rewritten = |instruction: Instruction| fixed(vec![instruction], 0)[1..].to_vec();
    assert_eq!(rewritten(mov(stack(4), stack(8))), vec![mov(stack(4), r10()), mov(r10(), stack(8))]);
    assert_eq!(
        rewritten(Instruction::Idiv(Operand::Imm(3))),
        vec![mov(Operand::Imm(3), r10()), Instruction::Idiv(r10())]
    );
    for operator in [BinaryOp::Add, BinaryOp::Sub, BinaryOp::And, BinaryOp::Or, BinaryOp::Xor] {
        assert_eq!(
            rewritten(binary(operator, stack(4), stack(8))),
            vec![mov(stack(4), r10()), binary(operator, r10(), stack(8))],
            "{operator:?}"
        );
    }
    assert_eq!(
        rewritten(binary(BinaryOp::Mult, Operand::Imm(3), stack(8))),
        vec![
            mov(stack(8), r11()),
            binary(BinaryOp::Mult, Operand::Imm(3), r11()),
            mov(r11(), stack(8)),
        ]
    );
    assert_eq!(
        rewritten(binary(BinaryOp::Mult, stack(4), stack(8))),
        vec![mov(stack(8), r11()), binary(BinaryOp::Mult, stack(4), r11()), mov(r11(), stack(8))]
    );
    for operator in [BinaryOp::Shl, BinaryOp::Shr] {
        assert_eq!(
            rewritten(binary(operator, stack(4), stack(8))),
            vec![mov(stack(4), cx()), binary(operator, cx(), stack(8))],
            "{operator:?}"
        );
    }
    assert_eq!(
        rewritten(compare(stack(4), stack(8))),
        vec![mov(stack(4), r10()), compare(r10(), stack(8))]
    );
    assert_eq!(
        rewritten(compare(stack(4), Operand::Imm(5))),
        vec![mov(Operand::Imm(5), r11()), compare(stack(4), r11())]
    );
    assert_eq!(
        rewritten(compare(Operand::Imm(0), Operand::Imm(5))),
        vec![mov(Operand::Imm(5), r11()), compare(Operand::Imm(0), r11())]
    );
}

#[test]
fn legalization_keeps_what_can_be_encoded() {
    let stack = Operand::Stack;
    let kept = vec![
        mov(Operand::Imm(1), stack(4)),
        mov(stack(4), register(Register::AX)),
        mov(register(Register::DX), stack(4)),
        Instruction::Idiv(stack(4)),
        Instruction::Idiv(register(Register::CX)),
        binary(BinaryOp::Add, Operand::Imm(1), stack(4)),
        binary(BinaryOp::Sub, stack(4), register(Register::AX)),
        binary(BinaryOp::Mult, stack(4), register(Register::R11)),
        binary(BinaryOp::Shl, Operand::Imm(3), stack(4)),
        binary(BinaryOp::Shr, register(Register::CX), stack(4)),
        compare(Operand::Imm(0), stack(4)),
        compare(stack(4), register(Register::AX)),
        Instruction::Unary { operator: UnaryOp::Not, operand: stack(4) },
        Instruction::SetCC { cond_code: CondCode::GE, operand: stack(8) },
        Instruction::Jmp("l".to_string()),
        Instruction::JumpCC { cond_code: CondCode::LE, target: "l".to_string() },
        Instruction::Label("l".to_string()),
        Instruction::Cdq,
        Instruction::AllocateStack(8),
        Instruction::Return,
    ];
    assert_eq!(fixed(kept.clone(), 0)[1..], kept[..]);
}

#[test]
fn after_legalization_nothing_is_forbidden() {
    let operands = [
        Operand::Imm(7),
        Operand::Stack(4),
        Operand::Stack(8),
        register(Register::AX),
        register(Register::R10),
    ];
    let mut instructions = Vec::new();
    for first in &operands {
        instructions.push(Instruction::Idiv(first.clone()));
        for second in &operands {
            instructions.push(mov(first.clone(), second.clone()));
            instructions.push(compare(first.clone(), second.clone()));
            for operator in [
                BinaryOp::Add,
                BinaryOp::Sub,
                BinaryOp::Mult,
                BinaryOp::And,
                BinaryOp::Or,
                BinaryOp::Xor,
                BinaryOp::Shl,
                BinaryOp::Shr,
            ] {
                instructions.push(binary(operator, first.clone(), second.clone()));
            }
        }
    }
    assert!(instructions.iter().any(forbidden));
    let legal = fixed(instructions, 16);
    assert!(!legal.iter().any(forbidden));
    // A second pass finds nothing to rewrite.
    assert_eq!(fixed(legal.clone(), 16)[1..], legal[..]);
}

#[test]
fn copies_of_operands_and_instructions() {
    for operand in [Operand::Imm(-2), register(Register::CX), pseudo("p"), Operand::Stack(12)] {
        assert_eq!(operand.duplicate(), operand);
    }
    let instruction =
        Instruction::JumpCC { cond_code: CondCode::G, target: "somewhere".to_string() };
    assert_eq!(instruction.duplicate(), instruction);
    assert_ne!(RegisterSize::One, RegisterSize::Four);
}

#[test]
fn each_instruction_has_its_text() {
    let stack = Operand::Stack;
    assert_eq!(
        lines(vec![
            Instruction::AllocateStack(48),
            mov(Operand::Imm(-5), stack(4)),
            mov(stack(12), register(Register::R10)),
            mov(register(Register::R11), register(Register::DX)),
            Instruction::Unary { operator: UnaryOp::Neg, operand: stack(4) },
            Instruction::Unary { operator: UnaryOp::Not, operand: register(Register::AX) },
            binary(BinaryOp::Add, Operand::Imm(2147483647), stack(8)),
            binary(BinaryOp::Sub, register(Register::R10), stack(8)),
            binary(BinaryOp::Mult, stack(8), register(Register::R11)),
            binary(BinaryOp::And, Operand::Imm(-2147483648), register(Register::CX)),
            binary(BinaryOp::Or, register(Register::AX), register(Register::DX)),
            binary(BinaryOp::Xor, Operand::Imm(0), stack(100)),
            binary(BinaryOp::Shl, register(Register::CX), stack(8)),
            binary(BinaryOp::Shr, Operand::Imm(3), register(Register::AX)),
            Instruction::Idiv(stack(16)),
            Instruction::Cdq,
            compare(Operand::Imm(0), stack(4)),
            Instruction::Jmp("loop.3".to_string()),
            Instruction::JumpCC { cond_code: CondCode::E, target: "a".to_string() },
            Instruction::JumpCC { cond_code: CondCode::NE, target: "b".to_string() },
            Instruction::SetCC { cond_code: CondCode::L, operand: stack(4) },
            Instruction::SetCC { cond_code: CondCode::LE, operand: register(Register::AX) },
            Instruction::SetCC { cond_code: CondCode::G, operand: register(Register::DX) },
            Instruction::SetCC { cond_code: CondCode::GE, operand: register(Register::CX) },
            Instruction::SetCC { cond_code: CondCode::E, operand: register(Register::R10) },
            Instruction::SetCC { cond_code: CondCode::NE, operand: register(Register::R11) },
            Instruction::Label("if_end.7".to_string()),
            Instruction::Return,
        ]),
        vec![
            "subq    $48, %rsp",
            "movl    $-5, -4(%rbp)",
            "movl    -12(%rbp), %r10d",
            "movl    %r11d, %edx",
            "negl    -4(%rbp)",
            "notl    %eax",
            "addl    $2147483647, -8(%rbp)",
            "subl    %r10d, -8(%rbp)",
            "imull    -8(%rbp), %r11d",
            "andl    $-2147483648, %ecx",
            "orl    %eax, %edx",
            "xorl    $0, -100(%rbp)",
            "sall    %cl, -8(%rbp)",
            "sarl    $3, %eax",
            "idivl    -16(%rbp)",
            "cdq",
            "cmpl    $0, -4(%rbp)",
            "jmp    .Lloop.3",
            "je    .La",
            "jne    .Lb",
            "setl    -4(%rbp)",
            "setle    %al",
            "setg    %dl",
            "setge    %cl",
            "sete    %r10b",
            "setne    %r11b",
            ".Lif_end.7:",
            "movq    %rbp, %rsp",
            "popq    %rbp",
            "ret",
        ]
    );
}

#[test]
fn the_file_names_its_one_symbol() {
    assert_eq!(
        emit_program(Program::Function(Function { name: "start_here", instructions: vec![] })),
        "\n    .global start_here\nstart_here:\n    pushq    %rbp\n    movq    %rsp, %rbp\n    \
         \n\n.section .note.GNU-stack,\"\",@progbits\n"
    );
}
