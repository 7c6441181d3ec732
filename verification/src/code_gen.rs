//! From the three-address code to machine instructions: instruction
//! selection, the assignment of stack slots to pseudo-registers, and the
//! legalization of operand combinations that x86-64 cannot encode.

use vstd::prelude::*;
use vstd::string::*;
use crate::asm_ast::{
    BinaryOp, CondCode, Function, FunctionView, Instruction, InstructionView, Operand,
    OperandView, Program, Register, UnaryOp, has_pseudo, instructions_view, no_pseudo,
};
use crate::irc;
use crate::names::{find_name, lemma_position_bound, names_view, position};

verus! {

/// The operand that stands for a value: an immediate for a constant, a
/// pseudo-register for a variable.
pub open spec fn select_operand(value: irc::ValueView) -> OperandView {
    match value {
        irc::ValueView::Constant(constant) => OperandView::Imm(constant),
        irc::ValueView::Var(name) => OperandView::Pseudo(name),
    }
}

/// The machine operator of a unary operator that is computed in place.
pub open spec fn select_unary(operator: irc::UnaryOp) -> UnaryOp {
    match operator {
        irc::UnaryOp::Negate => UnaryOp::Neg,
        _ => UnaryOp::Not,
    }
}

/// The machine operator of a binary operator that is computed in place, if
/// it is one.
pub open spec fn select_binary(operator: irc::BinaryOp) -> Option<BinaryOp> {
    match operator {
        irc::BinaryOp::Add => Some(BinaryOp::Add),
        irc::BinaryOp::Subtract => Some(BinaryOp::Sub),
        irc::BinaryOp::Multiply => Some(BinaryOp::Mult),
        irc::BinaryOp::LeftShift => Some(BinaryOp::Shl),
        irc::BinaryOp::RightShift => Some(BinaryOp::Shr),
        irc::BinaryOp::BitAnd => Some(BinaryOp::And),
        irc::BinaryOp::Xor => Some(BinaryOp::Xor),
        irc::BinaryOp::BitOr => Some(BinaryOp::Or),
        _ => None,
    }
}

/// The condition code of a relational operator, if it is one.
pub open spec fn select_condition(operator: irc::BinaryOp) -> Option<CondCode> {
    match operator {
        irc::BinaryOp::Equal => Some(CondCode::E),
        irc::BinaryOp::NotEqual => Some(CondCode::NE),
        irc::BinaryOp::LessThan => Some(CondCode::L),
        irc::BinaryOp::LessOrEqual => Some(CondCode::LE),
        irc::BinaryOp::GreaterThan => Some(CondCode::G),
        irc::BinaryOp::GreaterOrEqual => Some(CondCode::GE),
        _ => None,
    }
}

/// The machine instructions of a division: the quotient is left in `AX`,
/// the remainder in `DX`.
pub open spec fn select_division(
    result: Register,
    src1: irc::ValueView,
    src2: irc::ValueView,
    dst: Seq<char>,
) -> Seq<InstructionView> {
    seq![
        InstructionView::Mov {
            src: select_operand(src1),
            dst: OperandView::Register(Register::AX),
        },
        InstructionView::Cdq,
        InstructionView::Idiv(select_operand(src2)),
        InstructionView::Mov {
            src: OperandView::Register(result),
            dst: OperandView::Pseudo(dst),
        },
    ]
}

/// The machine instructions of a comparison `src1 rel src2`. The operands
/// of `Cmp` are swapped, since it compares its second operand with its first.
pub open spec fn select_relation(
    cond_code: CondCode,
    src1: irc::ValueView,
    src2: irc::ValueView,
    dst: Seq<char>,
) -> Seq<InstructionView> {
    seq![
        InstructionView::Cmp { operand1: select_operand(src2), operand2: select_operand(src1) },
        InstructionView::Mov { src: OperandView::Imm(0), dst: OperandView::Pseudo(dst) },
        InstructionView::SetCC { cond_code, operand: OperandView::Pseudo(dst) },
    ]
}

/// The machine instructions of a binary operator that is computed in place.
pub open spec fn select_arithmetic(
    operator: BinaryOp,
    src1: irc::ValueView,
    src2: irc::ValueView,
    dst: Seq<char>,
) -> Seq<InstructionView> {
    seq![
        InstructionView::Mov { src: select_operand(src1), dst: OperandView::Pseudo(dst) },
        InstructionView::Binary {
            operator,
            operand1: select_operand(src2),
            operand2: OperandView::Pseudo(dst),
        },
    ]
}

/// The machine instructions that one instruction of the three-address code
/// is selected into.
pub open spec fn select_instruction(instruction: irc::InstructionView) -> Seq<InstructionView> {
    match instruction {
        irc::InstructionView::Ret(value) => seq![
            InstructionView::Mov {
                src: select_operand(value),
                dst: OperandView::Register(Register::AX),
            },
            InstructionView::Return,
        ],
        irc::InstructionView::Unary { operator, src, dst } => {
            if operator == irc::UnaryOp::Not {
                seq![
                    InstructionView::Cmp {
                        operand1: OperandView::Imm(0),
                        operand2: select_operand(src),
                    },
                    InstructionView::Mov {
                        src: OperandView::Imm(0),
                        dst: OperandView::Pseudo(dst),
                    },
                    InstructionView::SetCC {
                        cond_code: CondCode::E,
                        operand: OperandView::Pseudo(dst),
                    },
                ]
            } else {
                seq![
                    InstructionView::Mov {
                        src: select_operand(src),
                        dst: OperandView::Pseudo(dst),
                    },
                    InstructionView::Unary {
                        operator: select_unary(operator),
                        operand: OperandView::Pseudo(dst),
                    },
                ]
            }
        },
        irc::InstructionView::Binary { operator, src1, src2, dst } => {
            if operator == irc::BinaryOp::Divide {
                select_division(Register::AX, src1, src2, dst)
            } else if operator == irc::BinaryOp::Remainder {
                select_division(Register::DX, src1, src2, dst)
            } else {
                match select_binary(operator) {
                    Some(machine_operator) => select_arithmetic(
                        machine_operator,
                        src1,
                        src2,
                        dst,
                    ),
                    None => select_relation(select_condition(operator)->0, src1, src2, dst),
                }
            }
        },
        irc::InstructionView::Copy { src, dst } => seq![
            InstructionView::Mov { src: select_operand(src), dst: OperandView::Pseudo(dst) },
        ],
        irc::InstructionView::Jump { target } => seq![InstructionView::Jmp(target)],
        irc::InstructionView::JumpIfZero { condition, target } => seq![
            InstructionView::Cmp {
                operand1: OperandView::Imm(0),
                operand2: select_operand(condition),
            },
            InstructionView::JumpCC { cond_code: CondCode::E, target },
        ],
        irc::InstructionView::JumpIfNotZero { condition, target } => seq![
            InstructionView::Cmp {
                operand1: OperandView::Imm(0),
                operand2: select_operand(condition),
            },
            InstructionView::JumpCC { cond_code: CondCode::NE, target },
        ],
        irc::InstructionView::Label(label) => seq![InstructionView::Label(label)],
    }
}

/// The machine instructions of a sequence of three-address instructions:
/// those of each, in order.
pub open spec fn select_instructions(instructions: Seq<irc::InstructionView>) -> Seq<
    InstructionView,
>
    decreases instructions.len(),
{
    if instructions.len() == 0 {
        Seq::empty()
    } else {
        select_instructions(instructions.drop_last()) + select_instruction(instructions.last())
    }
}

/// The machine program that a three-address program is selected into.
pub open spec fn select_program(program: irc::FunctionView) -> FunctionView {
    FunctionView {
        name: program.name,
        instructions: select_instructions(program.instructions),
    }
}

/// Whether an instruction has a stack slot among its operands.
pub open spec fn has_stack(instruction: InstructionView) -> bool {
    match instruction {
        InstructionView::Mov { src, dst } => src is Stack || dst is Stack,
        InstructionView::Unary { operand, .. } => operand is Stack,
        InstructionView::Binary { operand1, operand2, .. } => operand1 is Stack
            || operand2 is Stack,
        InstructionView::Cmp { operand1, operand2 } => operand1 is Stack || operand2 is Stack,
        InstructionView::SetCC { operand, .. } => operand is Stack,
        InstructionView::Idiv(operand) => operand is Stack,
        _ => false,
    }
}

/// Whether no instruction of a sequence has a stack slot among its
/// operands.
pub open spec fn no_stack(instructions: Seq<InstructionView>) -> bool {
    forall|i: int| 0 <= i < instructions.len() ==> !has_stack(#[trigger] instructions[i])
}

/// What is selected for one instruction names no stack slot.
proof fn lemma_selected_instruction(instruction: irc::InstructionView)
    ensures
        no_stack(select_instruction(instruction)),
{
}

/// Before stack slots are assigned no instruction names one: what
/// instruction selection writes has immediates, registers and
/// pseudo-registers as its operands.
pub proof fn lemma_selected_without_stack(instructions: Seq<irc::InstructionView>)
    ensures
        no_stack(select_instructions(instructions)),
    decreases instructions.len(),
{
    if instructions.len() > 0 {
        let before = select_instructions(instructions.drop_last());
        let last = select_instruction(instructions.last());
        lemma_selected_without_stack(instructions.drop_last());
        lemma_selected_instruction(instructions.last());
        assert forall|i: int| 0 <= i < (before + last).len() implies !has_stack(
            #[trigger] (before + last)[i],
        ) by {
            if i < before.len() {
                assert((before + last)[i] == before[i]);
            } else {
                assert((before + last)[i] == last[i - before.len()]);
            }
        }
    }
}

/// Appends one instruction.
fn push_instruction(out: &mut Vec<Instruction>, instruction: Instruction)
    ensures
        instructions_view(final(out)@) == instructions_view(old(out)@).push(instruction@),
{
    out.push(instruction);
    assert(instructions_view(out@) =~= instructions_view(old(out)@).push(instruction@));
}

/// Appends a sequence of instructions.
fn append_instructions(out: &mut Vec<Instruction>, more: Vec<Instruction>)
    ensures
        instructions_view(final(out)@) == instructions_view(old(out)@) + instructions_view(more@),
{
    let ghost added = more@;
    let mut more = more;
    out.append(&mut more);
    assert(instructions_view(out@) =~= instructions_view(old(out)@) + instructions_view(added));
}

/// A sequence with no instruction.
fn no_instructions() -> (out: Vec<Instruction>)
    ensures
        instructions_view(out@) == Seq::<InstructionView>::empty(),
{
    let out = Vec::new();
    assert(instructions_view(out@) =~= Seq::<InstructionView>::empty());
    out
}

/// Selects the machine program of a three-address program.
pub fn gen_program<'a>(program: irc::Program<'a>) -> (machine: Program<'a>)
    ensures
        machine@ == select_program(program@),
        no_stack(machine@.instructions),
{
    proof {
        lemma_selected_without_stack(program@.instructions);
    }
    match program {
        irc::Program::Function(function) => Program::Function(gen_function(function)),
    }
}

fn gen_function<'a>(function: irc::Function<'a>) -> (machine: Function<'a>)
    ensures
        machine@ == select_program(function@),
{
    let mut instructions = no_instructions();
    let ghost source = irc::instructions_view(function.instructions@);
    let mut i: usize = 0;
    assert(source.take(0) =~= Seq::<irc::InstructionView>::empty());
    while i < function.instructions.len()
        invariant
            i <= function.instructions.len(),
            source == irc::instructions_view(function.instructions@),
            instructions_view(instructions@) == select_instructions(source.take(i as int)),
        decreases function.instructions.len() - i,
    {
        let selected = gen_instruction(&function.instructions[i]);
        append_instructions(&mut instructions, selected);
        proof {
            assert(source.take(i + 1).drop_last() =~= source.take(i as int));
        }
        i += 1;
    }
    assert(source.take(i as int) =~= source);
    Function { name: function.name, instructions }
}

fn gen_instruction(instruction: &irc::Instruction) -> (selected: Vec<Instruction>)
    ensures
        instructions_view(selected@) == select_instruction(instruction@),
{
    let mut out = no_instructions();
    match instruction {
        irc::Instruction::Ret(value) => {
            push_instruction(
                &mut out,
                Instruction::Mov { src: gen_operand(value), dst: Operand::Register(Register::AX) },
            );
            push_instruction(&mut out, Instruction::Return);
        },
        irc::Instruction::Unary { operator, src, dst } => {
            match operator {
                irc::UnaryOp::Not => {
                    push_instruction(
                        &mut out,
                        Instruction::Cmp { operand1: Operand::Imm(0), operand2: gen_operand(src) },
                    );
                    push_instruction(
                        &mut out,
                        Instruction::Mov { src: Operand::Imm(0), dst: Operand::Pseudo(dst.clone()) },
                    );
                    push_instruction(
                        &mut out,
                        Instruction::SetCC {
                            cond_code: CondCode::E,
                            operand: Operand::Pseudo(dst.clone()),
                        },
                    );
                },
                _ => {
                    push_instruction(
                        &mut out,
                        Instruction::Mov { src: gen_operand(src), dst: Operand::Pseudo(dst.clone()) },
                    );
                    push_instruction(
                        &mut out,
                        Instruction::Unary {
                            operator: gen_unary(operator),
                            operand: Operand::Pseudo(dst.clone()),
                        },
                    );
                },
            }
        },
        irc::Instruction::Binary { operator, src1, src2, dst } => {
            match operator {
                irc::BinaryOp::Add => gen_binary_ins(&mut out, BinaryOp::Add, src1, src2, dst),
                irc::BinaryOp::Subtract => gen_binary_ins(&mut out, BinaryOp::Sub, src1, src2, dst),
                irc::BinaryOp::Multiply => gen_binary_ins(&mut out, BinaryOp::Mult, src1, src2, dst),
                irc::BinaryOp::LeftShift => gen_binary_ins(&mut out, BinaryOp::Shl, src1, src2, dst),
                irc::BinaryOp::RightShift => gen_binary_ins(
                    &mut out,
                    BinaryOp::Shr,
                    src1,
                    src2,
                    dst,
                ),
                irc::BinaryOp::BitAnd => gen_binary_ins(&mut out, BinaryOp::And, src1, src2, dst),
                irc::BinaryOp::Xor => gen_binary_ins(&mut out, BinaryOp::Xor, src1, src2, dst),
                irc::BinaryOp::BitOr => gen_binary_ins(&mut out, BinaryOp::Or, src1, src2, dst),
                irc::BinaryOp::Equal => gen_binary_rel(&mut out, CondCode::E, src1, src2, dst),
                irc::BinaryOp::NotEqual => gen_binary_rel(&mut out, CondCode::NE, src1, src2, dst),
                irc::BinaryOp::LessThan => gen_binary_rel(&mut out, CondCode::L, src1, src2, dst),
                irc::BinaryOp::LessOrEqual => gen_binary_rel(
                    &mut out,
                    CondCode::LE,
                    src1,
                    src2,
                    dst,
                ),
                irc::BinaryOp::GreaterThan => gen_binary_rel(&mut out, CondCode::G, src1, src2, dst),
                irc::BinaryOp::GreaterOrEqual => gen_binary_rel(
                    &mut out,
                    CondCode::GE,
                    src1,
                    src2,
                    dst,
                ),
                irc::BinaryOp::Divide => gen_division(&mut out, Register::AX, src1, src2, dst),
                irc::BinaryOp::Remainder => gen_division(&mut out, Register::DX, src1, src2, dst),
            }
        },
        irc::Instruction::Copy { src, dst } => {
            push_instruction(
                &mut out,
                Instruction::Mov { src: gen_operand(src), dst: Operand::Pseudo(dst.clone()) },
            );
        },
        irc::Instruction::Jump { target } => {
            push_instruction(&mut out, Instruction::Jmp(target.clone()));
        },
        irc::Instruction::JumpIfZero { condition, target } => {
            push_instruction(
                &mut out,
                Instruction::Cmp { operand1: Operand::Imm(0), operand2: gen_operand(condition) },
            );
            push_instruction(
                &mut out,
                Instruction::JumpCC { cond_code: CondCode::E, target: target.clone() },
            );
        },
        irc::Instruction::JumpIfNotZero { condition, target } => {
            push_instruction(
                &mut out,
                Instruction::Cmp { operand1: Operand::Imm(0), operand2: gen_operand(condition) },
            );
            push_instruction(
                &mut out,
                Instruction::JumpCC { cond_code: CondCode::NE, target: target.clone() },
            );
        },
        irc::Instruction::Label(label) => {
            push_instruction(&mut out, Instruction::Label(label.clone()));
        },
    }
    out
}

fn gen_operand(value: &irc::Value) -> (operand: Operand)
    ensures
        operand@ == select_operand(value@),
{
    match value {
        irc::Value::Constant(constant) => Operand::Imm(*constant),
        irc::Value::Var(name) => Operand::Pseudo(name.clone()),
    }
}

fn gen_unary(operator: &irc::UnaryOp) -> (machine_operator: UnaryOp)
    ensures
        machine_operator == select_unary(*operator),
{
    match operator {
        irc::UnaryOp::Complement => UnaryOp::Not,
        irc::UnaryOp::Negate => UnaryOp::Neg,
        irc::UnaryOp::Not => UnaryOp::Not,
    }
}

fn gen_binary_rel(
    out: &mut Vec<Instruction>,
    cond_code: CondCode,
    src1: &irc::Value,
    src2: &irc::Value,
    dst: &String,
)
    requires
        instructions_view(old(out)@) == Seq::<InstructionView>::empty(),
    ensures
        instructions_view(final(out)@) == select_relation(cond_code, src1@, src2@, dst@),
{
    push_instruction(
        out,
        Instruction::Cmp { operand1: gen_operand(src2), operand2: gen_operand(src1) },
    );
    push_instruction(
        out,
        Instruction::Mov { src: Operand::Imm(0), dst: Operand::Pseudo(dst.clone()) },
    );
    push_instruction(out, Instruction::SetCC { cond_code, operand: Operand::Pseudo(dst.clone()) });
}

fn gen_binary_ins(
    out: &mut Vec<Instruction>,
    operator: BinaryOp,
    src1: &irc::Value,
    src2: &irc::Value,
    dst: &String,
)
    requires
        instructions_view(old(out)@) == Seq::<InstructionView>::empty(),
    ensures
        instructions_view(final(out)@) == select_arithmetic(operator, src1@, src2@, dst@),
{
    push_instruction(
        out,
        Instruction::Mov { src: gen_operand(src1), dst: Operand::Pseudo(dst.clone()) },
    );
    push_instruction(
        out,
        Instruction::Binary {
            operator,
            operand1: gen_operand(src2),
            operand2: Operand::Pseudo(dst.clone()),
        },
    );
}

fn gen_division(
    out: &mut Vec<Instruction>,
    result: Register,
    src1: &irc::Value,
    src2: &irc::Value,
    dst: &String,
)
    requires
        instructions_view(old(out)@) == Seq::<InstructionView>::empty(),
    ensures
        instructions_view(final(out)@) == select_division(result, src1@, src2@, dst@),
{
    push_instruction(
        out,
        Instruction::Mov { src: gen_operand(src1), dst: Operand::Register(Register::AX) },
    );
    push_instruction(out, Instruction::Cdq);
    push_instruction(out, Instruction::Idiv(gen_operand(src2)));
    push_instruction(
        out,
        Instruction::Mov { src: Operand::Register(result), dst: Operand::Pseudo(dst.clone()) },
    );
}

/// The offset below the frame pointer of the slot with the given index:
/// slots are four bytes wide, and the first is at offset 4.
pub open spec fn slot_offset(index: nat) -> nat {
    4 * (index + 1)
}

/// Replaces an operand, given the names that have a slot already, in the
/// order of their slots. A pseudo-register becomes the slot of its name,
/// which is a new slot where the name has none yet.
pub open spec fn assign_operand(operand: OperandView, names: Seq<Seq<char>>) -> (
    OperandView,
    Seq<Seq<char>>,
) {
    match operand {
        OperandView::Pseudo(name) => {
            let index = position(names, name);
            (
                OperandView::Stack(slot_offset(index)),
                if index == names.len() {
                    names.push(name)
                } else {
                    names
                },
            )
        },
        _ => (operand, names),
    }
}

/// Replaces the operands of an instruction, from left to right.
pub open spec fn assign_instruction(instruction: InstructionView, names: Seq<Seq<char>>) -> (
    InstructionView,
    Seq<Seq<char>>,
) {
    match instruction {
        InstructionView::Mov { src, dst } => {
            let (src, names) = assign_operand(src, names);
            let (dst, names) = assign_operand(dst, names);
            (InstructionView::Mov { src, dst }, names)
        },
        InstructionView::Unary { operator, operand } => {
            let (operand, names) = assign_operand(operand, names);
            (InstructionView::Unary { operator, operand }, names)
        },
        InstructionView::Binary { operator, operand1, operand2 } => {
            let (operand1, names) = assign_operand(operand1, names);
            let (operand2, names) = assign_operand(operand2, names);
            (InstructionView::Binary { operator, operand1, operand2 }, names)
        },
        InstructionView::Cmp { operand1, operand2 } => {
            let (operand1, names) = assign_operand(operand1, names);
            let (operand2, names) = assign_operand(operand2, names);
            (InstructionView::Cmp { operand1, operand2 }, names)
        },
        InstructionView::SetCC { cond_code, operand } => {
            let (operand, names) = assign_operand(operand, names);
            (InstructionView::SetCC { cond_code, operand }, names)
        },
        InstructionView::Idiv(operand) => {
            let (operand, names) = assign_operand(operand, names);
            (InstructionView::Idiv(operand), names)
        },
        _ => (instruction, names),
    }
}

/// Replaces the operands of a sequence of instructions, in order, starting
/// with no slot assigned.
pub open spec fn assign_instructions(instructions: Seq<InstructionView>) -> (
    Seq<InstructionView>,
    Seq<Seq<char>>,
)
    decreases instructions.len(),
{
    if instructions.len() == 0 {
        (Seq::empty(), Seq::empty())
    } else {
        let (before, names) = assign_instructions(instructions.drop_last());
        let (last, names) = assign_instruction(instructions.last(), names);
        (before.push(last), names)
    }
}

/// The program with each pseudo-register replaced by its stack slot.
pub open spec fn assign_program(program: FunctionView) -> FunctionView {
    FunctionView {
        name: program.name,
        instructions: assign_instructions(program.instructions).0,
    }
}

/// The names of the pseudo-registers of a program, in the order of their
/// first occurrence.
pub open spec fn pseudo_names(program: FunctionView) -> Seq<Seq<char>> {
    assign_instructions(program.instructions).1
}

/// The size of a frame that holds the given number of slots: four bytes for
/// each, rounded up to a multiple of sixteen.
pub open spec fn frame_size(slots: nat) -> nat {
    (4 * slots + 15) / 16 * 16
}

/// Two names that stand at the same position of a sequence are the same:
/// each pseudo-register has a slot of its own, at a positive offset that is
/// a multiple of four.
pub proof fn lemma_slots_distinct(names: Seq<Seq<char>>, a: Seq<char>, b: Seq<char>)
    requires
        names.contains(a),
        names.contains(b),
        slot_offset(position(names, a)) == slot_offset(position(names, b)),
    ensures
        a == b,
        slot_offset(position(names, a)) > 0,
        slot_offset(position(names, a)) % 4 == 0,
{
    lemma_position_bound(names, a);
    lemma_position_bound(names, b);
}

/// Replacing an operand leaves no pseudo-register, and only adds names.
pub proof fn lemma_assign_operand(operand: OperandView, names: Seq<Seq<char>>)
    ensures
        !(assign_operand(operand, names).0 is Pseudo),
        names.len() <= assign_operand(operand, names).1.len() <= names.len() + 1,
{
    if let OperandView::Pseudo(name) = operand {
        lemma_position_bound(names, name);
    }
}

/// Replacing the operands of an instruction leaves no pseudo-register, and
/// only adds names.
pub proof fn lemma_assign_instruction(instruction: InstructionView, names: Seq<Seq<char>>)
    ensures
        !has_pseudo(assign_instruction(instruction, names).0),
        names.len() <= assign_instruction(instruction, names).1.len(),
{
    match instruction {
        InstructionView::Mov { src, dst } => {
            lemma_assign_operand(src, names);
            lemma_assign_operand(dst, assign_operand(src, names).1);
        },
        InstructionView::Unary { operator, operand } => {
            lemma_assign_operand(operand, names);
        },
        InstructionView::Binary { operator, operand1, operand2 } => {
            lemma_assign_operand(operand1, names);
            lemma_assign_operand(operand2, assign_operand(operand1, names).1);
        },
        InstructionView::Cmp { operand1, operand2 } => {
            lemma_assign_operand(operand1, names);
            lemma_assign_operand(operand2, assign_operand(operand1, names).1);
        },
        InstructionView::SetCC { cond_code, operand } => {
            lemma_assign_operand(operand, names);
        },
        InstructionView::Idiv(operand) => {
            lemma_assign_operand(operand, names);
        },
        _ => {},
    }
}

/// After the replacement no pseudo-register is left in any instruction.
pub proof fn lemma_assign_instructions(instructions: Seq<InstructionView>)
    ensures
        assign_instructions(instructions).0.len() == instructions.len(),
        no_pseudo(assign_instructions(instructions).0),
    decreases instructions.len(),
{
    if instructions.len() > 0 {
        lemma_assign_instructions(instructions.drop_last());
        lemma_assign_instruction(
            instructions.last(),
            assign_instructions(instructions.drop_last()).1,
        );
    }
}

/// After the replacement of the pseudo-registers of a program, none appears
/// in it.
pub proof fn lemma_assign_program_total(program: FunctionView)
    ensures
        no_pseudo(assign_program(program).instructions),
{
    lemma_assign_instructions(program.instructions);
}

/// A prefix of a program has no more names than the whole.
pub proof fn lemma_names_grow(instructions: Seq<InstructionView>, k: int)
    requires
        0 <= k <= instructions.len(),
    ensures
        assign_instructions(instructions.take(k)).1.len() <= assign_instructions(
            instructions,
        ).1.len(),
    decreases instructions.len() - k,
{
    if k == instructions.len() {
        assert(instructions.take(k) =~= instructions);
    } else {
        lemma_names_grow(instructions, k + 1);
        assert(instructions.take(k + 1).drop_last() =~= instructions.take(k));
        lemma_assign_instruction(instructions[k], assign_instructions(instructions.take(k)).1);
    }
}

fn replace_operand(operand: &Operand, names: &mut Vec<String>) -> (replaced: Operand)
    requires
        4 * assign_operand(operand@, names_view(old(names)@)).1.len() <= usize::MAX,
    ensures
        (replaced@, names_view(final(names)@)) == assign_operand(
            operand@,
            names_view(old(names)@),
        ),
{
    match operand {
        Operand::Pseudo(name) => {
            let index = find_name(names, name.as_str());
            proof {
                lemma_position_bound(names_view(names@), name@);
            }
            if index == names.len() {
                names.push(name.clone());
                assert(names_view(names@) =~= names_view(old(names)@).push(name@));
            }
            Operand::Stack(4 * (index + 1))
        },
        _ => operand.duplicate(),
    }
}

fn replace_instruction(instruction: &Instruction, names: &mut Vec<String>) -> (replaced:
    Instruction)
    requires
        4 * assign_instruction(instruction@, names_view(old(names)@)).1.len() <= usize::MAX,
    ensures
        (replaced@, names_view(final(names)@)) == assign_instruction(
            instruction@,
            names_view(old(names)@),
        ),
{
    proof {
        if let InstructionView::Mov { src, dst } = instruction@ {
            lemma_assign_operand(dst, assign_operand(src, names_view(names@)).1);
        }
        if let InstructionView::Binary { operator, operand1, operand2 } = instruction@ {
            lemma_assign_operand(operand2, assign_operand(operand1, names_view(names@)).1);
        }
        if let InstructionView::Cmp { operand1, operand2 } = instruction@ {
            lemma_assign_operand(operand2, assign_operand(operand1, names_view(names@)).1);
        }
    }
    match instruction {
        Instruction::Mov { src, dst } => {
            let src = replace_operand(src, names);
            let dst = replace_operand(dst, names);
            Instruction::Mov { src, dst }
        },
        Instruction::Unary { operator, operand } => {
            let operand = replace_operand(operand, names);
            Instruction::Unary { operator: *operator, operand }
        },
        Instruction::Binary { operator, operand1, operand2 } => {
            let operand1 = replace_operand(operand1, names);
            let operand2 = replace_operand(operand2, names);
            Instruction::Binary { operator: *operator, operand1, operand2 }
        },
        Instruction::Cmp { operand1, operand2 } => {
            let operand1 = replace_operand(operand1, names);
            let operand2 = replace_operand(operand2, names);
            Instruction::Cmp { operand1, operand2 }
        },
        Instruction::SetCC { cond_code, operand } => {
            let operand = replace_operand(operand, names);
            Instruction::SetCC { cond_code: *cond_code, operand }
        },
        Instruction::Idiv(operand) => {
            let operand = replace_operand(operand, names);
            Instruction::Idiv(operand)
        },
        _ => instruction.duplicate(),
    }
}

/// Gives each pseudo-register of the program a stack slot of its own, in
/// the order in which they first occur, and returns the size of the frame
/// that holds the slots.
pub fn replace_pseudo(program: &mut Program<'_>) -> (frame: usize)
    requires
        frame_size(pseudo_names(old(program)@).len()) <= usize::MAX,
    ensures
        final(program)@ == assign_program(old(program)@),
        frame == frame_size(pseudo_names(old(program)@).len()),
        no_pseudo(final(program)@.instructions),
{
    proof {
        lemma_assign_program_total(program@);
    }
    match program {
        Program::Function(function) => {
            let ghost source = instructions_view(function.instructions@);
            let mut names: Vec<String> = Vec::new();
            let mut replaced = no_instructions();
            let mut i: usize = 0;
            assert(source.take(0) =~= Seq::<InstructionView>::empty());
            assert(names_view(names@) =~= Seq::<Seq<char>>::empty());
            while i < function.instructions.len()
                invariant
                    i <= function.instructions.len(),
                    source == instructions_view(function.instructions@),
                    frame_size(assign_instructions(source).1.len()) <= usize::MAX,
                    (instructions_view(replaced@), names_view(names@)) == assign_instructions(
                        source.take(i as int),
                    ),
                decreases function.instructions.len() - i,
            {
                proof {
                    lemma_names_grow(source, i + 1);
                    assert(source.take(i + 1).drop_last() =~= source.take(i as int));
                }
                let instruction = replace_instruction(&function.instructions[i], &mut names);
                push_instruction(&mut replaced, instruction);
                i += 1;
            }
            assert(source.take(i as int) =~= source);
            function.instructions = replaced;
            let slots = names.len();
            (4 * slots + 15) / 16 * 16
        },
    }
}

/// Whether an instruction combines its operands in a way that x86-64
/// cannot encode.
pub open spec fn forbidden(instruction: InstructionView) -> bool {
    match instruction {
        // A move cannot have memory on both sides.
        InstructionView::Mov { src, dst } => src is Stack && dst is Stack,
        // A division needs its divisor in a register or in memory.
        InstructionView::Idiv(operand) => operand is Imm,
        InstructionView::Binary { operator, operand1, operand2 } => match operator {
            // A multiplication needs its destination in a register.
            BinaryOp::Mult => operand2 is Stack,
            // A shift takes its count from `CX` or from an immediate.
            BinaryOp::Shl | BinaryOp::Shr => operand1 is Stack,
            // The others cannot have memory on both sides.
            _ => operand1 is Stack && operand2 is Stack,
        },
        // A comparison cannot have memory on both sides, nor an immediate
        // as its second operand.
        InstructionView::Cmp { operand1, operand2 } => operand2 is Imm || (operand1 is Stack
            && operand2 is Stack),
        _ => false,
    }
}

/// A move between two operands.
pub open spec fn mov(src: OperandView, dst: OperandView) -> InstructionView {
    InstructionView::Mov { src, dst }
}

/// A register as an operand.
pub open spec fn reg(register: Register) -> OperandView {
    OperandView::Register(register)
}

/// The instructions that stand for one instruction after legalization: the
/// instruction itself where it can be encoded, and else a sequence that
/// stages an operand through a scratch register.
pub open spec fn fix_instruction(instruction: InstructionView) -> Seq<InstructionView> {
    if !forbidden(instruction) {
        seq![instruction]
    } else {
        match instruction {
            InstructionView::Mov { src, dst } => seq![
                mov(src, reg(Register::R10)),
                mov(reg(Register::R10), dst),
            ],
            InstructionView::Idiv(operand) => seq![
                mov(operand, reg(Register::R10)),
                InstructionView::Idiv(reg(Register::R10)),
            ],
            InstructionView::Binary { operator, operand1, operand2 } => match operator {
                BinaryOp::Mult => seq![
                    mov(operand2, reg(Register::R11)),
                    InstructionView::Binary { operator, operand1, operand2: reg(Register::R11) },
                    mov(reg(Register::R11), operand2),
                ],
                BinaryOp::Shl | BinaryOp::Shr => seq![
                    mov(operand1, reg(Register::CX)),
                    InstructionView::Binary { operator, operand1: reg(Register::CX), operand2 },
                ],
                _ => seq![
                    mov(operand1, reg(Register::R10)),
                    InstructionView::Binary { operator, operand1: reg(Register::R10), operand2 },
                ],
            },
            InstructionView::Cmp { operand1, operand2 } => {
                if operand2 is Imm {
                    seq![
                        mov(operand2, reg(Register::R11)),
                        InstructionView::Cmp { operand1, operand2: reg(Register::R11) },
                    ]
                } else {
                    seq![
                        mov(operand1, reg(Register::R10)),
                        InstructionView::Cmp { operand1: reg(Register::R10), operand2 },
                    ]
                }
            },
            _ => seq![instruction],
        }
    }
}

/// The legalized form of a sequence of instructions: that of each, in order.
pub open spec fn fix_all(instructions: Seq<InstructionView>) -> Seq<InstructionView>
    decreases instructions.len(),
{
    if instructions.len() == 0 {
        Seq::empty()
    } else {
        fix_all(instructions.drop_last()) + fix_instruction(instructions.last())
    }
}

/// The legalized program: the allocation of the frame, then the legalized
/// instructions.
pub open spec fn fix_program(program: FunctionView, stack_allocation: nat) -> FunctionView {
    FunctionView {
        name: program.name,
        instructions: seq![InstructionView::AllocateStack(stack_allocation)] + fix_all(
            program.instructions,
        ),
    }
}

/// Whether no instruction of a sequence is forbidden.
pub open spec fn all_legal(instructions: Seq<InstructionView>) -> bool {
    forall|i: int| 0 <= i < instructions.len() ==> !forbidden(#[trigger] instructions[i])
}

/// What stands for one instruction after legalization can be encoded, and
/// holds a pseudo-register only if the instruction did.
pub proof fn lemma_fix_instruction(instruction: InstructionView)
    ensures
        all_legal(fix_instruction(instruction)),
        !has_pseudo(instruction) ==> no_pseudo(fix_instruction(instruction)),
{
}

/// The legalized form of a sequence can be encoded, and holds a
/// pseudo-register only if the sequence did.
pub proof fn lemma_fix_all(instructions: Seq<InstructionView>)
    ensures
        all_legal(fix_all(instructions)),
        no_pseudo(instructions) ==> no_pseudo(fix_all(instructions)),
    decreases instructions.len(),
{
    if instructions.len() > 0 {
        lemma_fix_all(instructions.drop_last());
        lemma_fix_instruction(instructions.last());
        if no_pseudo(instructions) {
            assert(no_pseudo(instructions.drop_last())) by {
                assert forall|i: int| 0 <= i < instructions.drop_last().len() implies !has_pseudo(
                    #[trigger] instructions.drop_last()[i],
                ) by {
                    assert(instructions.drop_last()[i] == instructions[i]);
                }
            }
        }
    }
}

/// After legalization no instruction of the program matches a forbidden
/// pattern, whatever the program and the size of its frame.
pub proof fn lemma_fix_program_legal(program: FunctionView, stack_allocation: nat)
    ensures
        all_legal(fix_program(program, stack_allocation).instructions),
{
    lemma_fix_all(program.instructions);
}

/// Legalization brings no pseudo-register into a program that has none.
pub proof fn lemma_fix_program_no_pseudo(program: FunctionView, stack_allocation: nat)
    requires
        no_pseudo(program.instructions),
    ensures
        no_pseudo(fix_program(program, stack_allocation).instructions),
{
    lemma_fix_all(program.instructions);
}

fn is_stack(operand: &Operand) -> (stack: bool)
    ensures
        stack == (operand@ is Stack),
{
    match operand {
        Operand::Stack(_) => true,
        _ => false,
    }
}

fn is_imm(operand: &Operand) -> (imm: bool)
    ensures
        imm == (operand@ is Imm),
{
    match operand {
        Operand::Imm(_) => true,
        _ => false,
    }
}

fn move_to(src: &Operand, register: Register) -> (instruction: Instruction)
    ensures
        instruction@ == mov(src@, reg(register)),
{
    Instruction::Mov { src: src.duplicate(), dst: Operand::Register(register) }
}

fn move_from(register: Register, dst: &Operand) -> (instruction: Instruction)
    ensures
        instruction@ == mov(reg(register), dst@),
{
    Instruction::Mov { src: Operand::Register(register), dst: dst.duplicate() }
}

fn fix_instruction_of(instruction: &Instruction) -> (fixed: Vec<Instruction>)
    ensures
        instructions_view(fixed@) == fix_instruction(instruction@),
{
    let mut out = no_instructions();
    match instruction {
        Instruction::Mov { src, dst } => {
            if is_stack(src) && is_stack(dst) {
                push_instruction(&mut out, move_to(src, Register::R10));
                push_instruction(&mut out, move_from(Register::R10, dst));
            } else {
                push_instruction(&mut out, instruction.duplicate());
            }
        },
        Instruction::Idiv(operand) => {
            if is_imm(operand) {
                push_instruction(&mut out, move_to(operand, Register::R10));
                push_instruction(&mut out, Instruction::Idiv(Operand::Register(Register::R10)));
            } else {
                push_instruction(&mut out, instruction.duplicate());
            }
        },
        Instruction::Binary { operator, operand1, operand2 } => {
            match operator {
                BinaryOp::Mult => {
                    if is_stack(operand2) {
                        push_instruction(&mut out, move_to(operand2, Register::R11));
                        push_instruction(
                            &mut out,
                            Instruction::Binary {
                                operator: *operator,
                                operand1: operand1.duplicate(),
                                operand2: Operand::Register(Register::R11),
                            },
                        );
                        push_instruction(&mut out, move_from(Register::R11, operand2));
                    } else {
                        push_instruction(&mut out, instruction.duplicate());
                    }
                },
                BinaryOp::Shl | BinaryOp::Shr => {
                    if is_stack(operand1) {
                        push_instruction(&mut out, move_to(operand1, Register::CX));
                        push_instruction(
                            &mut out,
                            Instruction::Binary {
                                operator: *operator,
                                operand1: Operand::Register(Register::CX),
                                operand2: operand2.duplicate(),
                            },
                        );
                    } else {
                        push_instruction(&mut out, instruction.duplicate());
                    }
                },
                _ => {
                    if is_stack(operand1) && is_stack(operand2) {
                        push_instruction(&mut out, move_to(operand1, Register::R10));
                        push_instruction(
                            &mut out,
                            Instruction::Binary {
                                operator: *operator,
                                operand1: Operand::Register(Register::R10),
                                operand2: operand2.duplicate(),
                            },
                        );
                    } else {
                        push_instruction(&mut out, instruction.duplicate());
                    }
                },
            }
        },
        Instruction::Cmp { operand1, operand2 } => {
            if is_imm(operand2) {
                push_instruction(&mut out, move_to(operand2, Register::R11));
                push_instruction(
                    &mut out,
                    Instruction::Cmp {
                        operand1: operand1.duplicate(),
                        operand2: Operand::Register(Register::R11),
                    },
                );
            } else if is_stack(operand1) && is_stack(operand2) {
                push_instruction(&mut out, move_to(operand1, Register::R10));
                push_instruction(
                    &mut out,
                    Instruction::Cmp {
                        operand1: Operand::Register(Register::R10),
                        operand2: operand2.duplicate(),
                    },
                );
            } else {
                push_instruction(&mut out, instruction.duplicate());
            }
        },
        _ => {
            push_instruction(&mut out, instruction.duplicate());
        },
    }
    out
}

/// Legalizes the program: puts the allocation of a frame of
/// `stack_allocation` bytes at its head, and rewrites each instruction that
/// x86-64 cannot encode into a sequence that it can.
pub fn fix_instructions(program: &mut Program<'_>, stack_allocation: usize)
    ensures
        final(program)@ == fix_program(old(program)@, stack_allocation as nat),
        all_legal(final(program)@.instructions),
        no_pseudo(old(program)@.instructions) ==> no_pseudo(final(program)@.instructions),
{
    proof {
        lemma_fix_program_legal(program@, stack_allocation as nat);
        if no_pseudo(program@.instructions) {
            lemma_fix_program_no_pseudo(program@, stack_allocation as nat);
        }
    }
    match program {
        Program::Function(function) => {
            let ghost source = instructions_view(function.instructions@);
            let mut fixed = no_instructions();
            push_instruction(&mut fixed, Instruction::AllocateStack(stack_allocation));
            let ghost head = instructions_view(fixed@);
            let mut i: usize = 0;
            assert(source.take(0) =~= Seq::<InstructionView>::empty());
            assert(head =~= head + fix_all(source.take(0)));
            while i < function.instructions.len()
                invariant
                    i <= function.instructions.len(),
                    source == instructions_view(function.instructions@),
                    instructions_view(fixed@) == head + fix_all(source.take(i as int)),
                decreases function.instructions.len() - i,
            {
                let more = fix_instruction_of(&function.instructions[i]);
                append_instructions(&mut fixed, more);
                proof {
                    assert(source.take(i + 1).drop_last() =~= source.take(i as int));
                    assert(instructions_view(fixed@) =~= head + fix_all(source.take(i + 1)));
                }
                i += 1;
            }
            assert(source.take(i as int) =~= source);
            function.instructions = fixed;
        },
    }
}

} // verus!
