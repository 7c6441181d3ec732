//! Emission: from machine instructions to the text of an assembly file, in
//! AT&T syntax.

use vstd::prelude::*;
use vstd::string::*;
use crate::asm_ast::{
    BinaryOp, CondCode, Function, FunctionView, Instruction, InstructionView, Operand,
    OperandView, Program, Register, RegisterSize, UnaryOp, instructions_view,
};
use crate::text::{decimal, push_decimal, push_signed_decimal, signed_decimal};

verus! {

/// The name of a register at a given width.
pub open spec fn register_text(register: Register, size: RegisterSize) -> Seq<char> {
    match (register, size) {
        (Register::AX, RegisterSize::Four) => "%eax"@,
        (Register::AX, RegisterSize::One) => "%al"@,
        (Register::DX, RegisterSize::Four) => "%edx"@,
        (Register::DX, RegisterSize::One) => "%dl"@,
        (Register::CX, RegisterSize::Four) => "%ecx"@,
        (Register::CX, RegisterSize::One) => "%cl"@,
        (Register::R10, RegisterSize::Four) => "%r10d"@,
        (Register::R10, RegisterSize::One) => "%r10b"@,
        (Register::R11, RegisterSize::Four) => "%r11d"@,
        (Register::R11, RegisterSize::One) => "%r11b"@,
    }
}

/// The text of an operand: `$v` for an immediate, the register's name at
/// the given width, `-k(%rbp)` for a stack slot. A pseudo-register is no
/// operand of the machine; where one is left, its name stands for it.
pub open spec fn operand_text(operand: OperandView, size: RegisterSize) -> Seq<char> {
    match operand {
        OperandView::Imm(value) => "$"@ + signed_decimal(value as int),
        OperandView::Register(register) => register_text(register, size),
        OperandView::Stack(offset) => "-"@ + decimal(offset) + "(%rbp)"@,
        OperandView::Pseudo(name) => name,
    }
}

/// The mnemonic of a unary operator.
pub open spec fn unary_text(operator: UnaryOp) -> Seq<char> {
    match operator {
        UnaryOp::Neg => "negl"@,
        UnaryOp::Not => "notl"@,
    }
}

/// The mnemonic of a binary operator.
pub open spec fn binary_text(operator: BinaryOp) -> Seq<char> {
    match operator {
        BinaryOp::Add => "addl"@,
        BinaryOp::Sub => "subl"@,
        BinaryOp::Mult => "imull"@,
        BinaryOp::And => "andl"@,
        BinaryOp::Or => "orl"@,
        BinaryOp::Xor => "xorl"@,
        BinaryOp::Shl => "sall"@,
        BinaryOp::Shr => "sarl"@,
    }
}

/// The suffix of a condition code.
pub open spec fn cond_code_text(cond_code: CondCode) -> Seq<char> {
    match cond_code {
        CondCode::E => "e"@,
        CondCode::NE => "ne"@,
        CondCode::G => "g"@,
        CondCode::GE => "ge"@,
        CondCode::L => "l"@,
        CondCode::LE => "le"@,
    }
}

/// The width at which the first operand of a binary operator is named: a
/// shift takes its count from the low byte of a register.
pub open spec fn count_size(operator: BinaryOp) -> RegisterSize {
    match operator {
        BinaryOp::Shl | BinaryOp::Shr => RegisterSize::One,
        _ => RegisterSize::Four,
    }
}

/// The text of one instruction.
pub open spec fn instruction_text(instruction: InstructionView) -> Seq<char> {
    match instruction {
        InstructionView::Mov { src, dst } => "movl    "@ + operand_text(src, RegisterSize::Four)
            + ", "@ + operand_text(dst, RegisterSize::Four),
        InstructionView::Return => "movq    %rbp, %rsp\n    popq    %rbp\n    ret"@,
        InstructionView::Unary { operator, operand } => unary_text(operator) + "    "@
            + operand_text(operand, RegisterSize::Four),
        InstructionView::AllocateStack(bytes) => "subq    $"@ + decimal(bytes) + ", %rsp"@,
        InstructionView::Binary { operator, operand1, operand2 } => binary_text(operator) + "    "@
            + operand_text(operand1, count_size(operator)) + ", "@ + operand_text(
            operand2,
            RegisterSize::Four,
        ),
        InstructionView::Idiv(operand) => "idivl    "@ + operand_text(operand, RegisterSize::Four),
        InstructionView::Cdq => "cdq"@,
        InstructionView::Cmp { operand1, operand2 } => "cmpl    "@ + operand_text(
            operand1,
            RegisterSize::Four,
        ) + ", "@ + operand_text(operand2, RegisterSize::Four),
        InstructionView::Jmp(label) => "jmp    .L"@ + label,
        InstructionView::JumpCC { cond_code, target } => "j"@ + cond_code_text(cond_code)
            + "    .L"@ + target,
        InstructionView::SetCC { cond_code, operand } => "set"@ + cond_code_text(cond_code)
            + "    "@ + operand_text(operand, RegisterSize::One),
        InstructionView::Label(label) => ".L"@ + label + ":"@,
    }
}

/// The text of a sequence of instructions: one after the other, each on a
/// line of its own, indented from the second on.
pub open spec fn instructions_text(instructions: Seq<InstructionView>) -> Seq<char>
    decreases instructions.len(),
{
    if instructions.len() == 0 {
        Seq::empty()
    } else if instructions.len() == 1 {
        instruction_text(instructions[0])
    } else {
        instructions_text(instructions.drop_last()) + "\n    "@ + instruction_text(
            instructions.last(),
        )
    }
}

/// The text of a function: the declaration of its symbol, its label, the
/// prologue that sets up the frame pointer, and its instructions.
pub open spec fn function_text(function: FunctionView) -> Seq<char> {
    "    .global "@ + function.name + "\n"@ + function.name
        + ":\n    pushq    %rbp\n    movq    %rsp, %rbp\n    "@ + instructions_text(
        function.instructions,
    ) + "\n"@
}

/// The text of the assembly file of a program: its function, and the note
/// that keeps the stack from being marked executable.
pub open spec fn program_text(program: FunctionView) -> Seq<char> {
    "\n"@ + function_text(program) + "\n.section .note.GNU-stack,\"\",@progbits\n"@
}

/// The assembly file of a program.
pub fn emit_program(program: Program<'_>) -> (assembly: String)
    ensures
        assembly@ == program_text(program@),
{
    match program {
        Program::Function(function) => {
            let mut out = String::from_str("\n");
            let text = emit_function(function);
            out.append(text.as_str());
            out.append("\n.section .note.GNU-stack,\"\",@progbits\n");
            out
        },
    }
}

fn emit_function(function: Function<'_>) -> (text: String)
    ensures
        text@ == function_text(function@),
{
    let mut out = String::from_str("    .global ");
    out.append(function.name);
    out.append("\n");
    out.append(function.name);
    out.append(":\n    pushq    %rbp\n    movq    %rsp, %rbp\n    ");
    let instructions = emit_instructions(&function.instructions);
    out.append(instructions.as_str());
    out.append("\n");
    out
}

fn emit_instructions(instructions: &Vec<Instruction>) -> (text: String)
    ensures
        text@ == instructions_text(instructions_view(instructions@)),
{
    let ghost source = instructions_view(instructions@);
    let mut out = String::new();
    let mut i: usize = 0;
    assert(source.take(0) =~= Seq::<InstructionView>::empty());
    while i < instructions.len()
        invariant
            i <= instructions.len(),
            source == instructions_view(instructions@),
            out@ == instructions_text(source.take(i as int)),
        decreases instructions.len() - i,
    {
        if i > 0 {
            out.append("\n    ");
        }
        let line = emit_instruction(&instructions[i]);
        out.append(line.as_str());
        proof {
            assert(source.take(i + 1).drop_last() =~= source.take(i as int));
            assert(source.take(i + 1).last() == source[i as int]);
            assert(out@ =~= instructions_text(source.take(i + 1)));
        }
        i += 1;
    }
    assert(source.take(i as int) =~= source);
    out
}

fn emit_instruction(instruction: &Instruction) -> (text: String)
    ensures
        text@ == instruction_text(instruction@),
{
    match instruction {
        Instruction::Mov { src, dst } => {
            let mut out = String::from_str("movl    ");
            emit_operand(&mut out, src, RegisterSize::Four);
            out.append(", ");
            emit_operand(&mut out, dst, RegisterSize::Four);
            out
        },
        Instruction::Return => String::from_str("movq    %rbp, %rsp\n    popq    %rbp\n    ret"),
        Instruction::Unary { operator, operand } => {
            let mut out = String::from_str(emit_unary(*operator));
            out.append("    ");
            emit_operand(&mut out, operand, RegisterSize::Four);
            out
        },
        Instruction::AllocateStack(bytes) => {
            let mut out = String::from_str("subq    $");
            push_decimal(&mut out, *bytes as u64);
            out.append(", %rsp");
            out
        },
        Instruction::Binary { operator, operand1, operand2 } => {
            let mut out = String::from_str(emit_binary(*operator));
            out.append("    ");
            let size = match operator {
                BinaryOp::Shl | BinaryOp::Shr => RegisterSize::One,
                _ => RegisterSize::Four,
            };
            emit_operand(&mut out, operand1, size);
            out.append(", ");
            emit_operand(&mut out, operand2, RegisterSize::Four);
            out
        },
        Instruction::Idiv(operand) => {
            let mut out = String::from_str("idivl    ");
            emit_operand(&mut out, operand, RegisterSize::Four);
            out
        },
        Instruction::Cdq => String::from_str("cdq"),
        Instruction::Cmp { operand1, operand2 } => {
            let mut out = String::from_str("cmpl    ");
            emit_operand(&mut out, operand1, RegisterSize::Four);
            out.append(", ");
            emit_operand(&mut out, operand2, RegisterSize::Four);
            out
        },
        Instruction::Jmp(label) => {
            let mut out = String::from_str("jmp    .L");
            out.append(label.as_str());
            out
        },
        Instruction::JumpCC { cond_code, target } => {
            let mut out = String::from_str("j");
            out.append(emit_cond_code(*cond_code));
            out.append("    .L");
            out.append(target.as_str());
            out
        },
        Instruction::SetCC { cond_code, operand } => {
            let mut out = String::from_str("set");
            out.append(emit_cond_code(*cond_code));
            out.append("    ");
            emit_operand(&mut out, operand, RegisterSize::One);
            out
        },
        Instruction::Label(label) => {
            let mut out = String::from_str(".L");
            out.append(label.as_str());
            out.append(":");
            out
        },
    }
}

/// Appends the text of an operand.
fn emit_operand(out: &mut String, operand: &Operand, size: RegisterSize)
    ensures
        final(out)@ == old(out)@ + operand_text(operand@, size),
{
    match operand {
        Operand::Register(register) => {
            let name = match (register, size) {
                (Register::AX, RegisterSize::Four) => "%eax",
                (Register::AX, RegisterSize::One) => "%al",
                (Register::DX, RegisterSize::Four) => "%edx",
                (Register::DX, RegisterSize::One) => "%dl",
                (Register::CX, RegisterSize::Four) => "%ecx",
                (Register::CX, RegisterSize::One) => "%cl",
                (Register::R10, RegisterSize::Four) => "%r10d",
                (Register::R10, RegisterSize::One) => "%r10b",
                (Register::R11, RegisterSize::Four) => "%r11d",
                (Register::R11, RegisterSize::One) => "%r11b",
            };
            out.append(name);
        },
        Operand::Imm(value) => {
            out.append("$");
            push_signed_decimal(out, *value);
            assert(out@ =~= old(out)@ + operand_text(operand@, size));
        },
        Operand::Stack(offset) => {
            out.append("-");
            push_decimal(out, *offset as u64);
            out.append("(%rbp)");
            assert(out@ =~= old(out)@ + operand_text(operand@, size));
        },
        Operand::Pseudo(name) => {
            out.append(name.as_str());
        },
    }
}

fn emit_unary(operator: UnaryOp) -> (text: &'static str)
    ensures
        text@ == unary_text(operator),
{
    match operator {
        UnaryOp::Neg => "negl",
        UnaryOp::Not => "notl",
    }
}

fn emit_binary(operator: BinaryOp) -> (text: &'static str)
    ensures
        text@ == binary_text(operator),
{
    match operator {
        BinaryOp::Add => "addl",
        BinaryOp::Sub => "subl",
        BinaryOp::Mult => "imull",
        BinaryOp::And => "andl",
        BinaryOp::Or => "orl",
        BinaryOp::Xor => "xorl",
        BinaryOp::Shl => "sall",
        BinaryOp::Shr => "sarl",
    }
}

fn emit_cond_code(cond_code: CondCode) -> (text: &'static str)
    ensures
        text@ == cond_code_text(cond_code),
{
    match cond_code {
        CondCode::E => "e",
        CondCode::NE => "ne",
        CondCode::G => "g",
        CondCode::GE => "ge",
        CondCode::L => "l",
        CondCode::LE => "le",
    }
}

} // verus!
