//! What the machine instructions do to the machine: the effect of an
//! instruction on the registers, on the stack and on the flags. Where
//! control goes after an instruction is not part of it.
//!
//! Legalization keeps that effect: what it writes for an instruction does
//! to every register but the reserved ones, to the stack and to the flags
//! what the instruction does.

use vstd::prelude::*;
use crate::asm_ast::{BinaryOp, CondCode, InstructionView, OperandView, Register, UnaryOp};
use crate::code_gen::{
    assign_instruction, assign_instructions, assign_operand, fix_all, fix_instruction, forbidden,
    select_instruction, select_instructions,
};
use crate::irc;

verus! {

/// The state of the machine: the five registers, the stack slots by their
/// offsets below the frame pointer, and the two values that were compared
/// last.
pub struct Machine {
    pub ax: i32,
    pub dx: i32,
    pub cx: i32,
    pub r10: i32,
    pub r11: i32,
    pub stack: spec_fn(nat) -> i32,
    pub compared: (i32, i32),
}

/// What a register holds.
pub open spec fn register(machine: Machine, register: Register) -> i32 {
    match register {
        Register::AX => machine.ax,
        Register::DX => machine.dx,
        Register::CX => machine.cx,
        Register::R10 => machine.r10,
        Register::R11 => machine.r11,
    }
}

/// What a stack slot holds.
pub open spec fn slot(machine: Machine, offset: nat) -> i32 {
    (machine.stack)(offset)
}

/// What an operand holds. A pseudo-register is no place of the machine, and
/// holds nothing.
pub open spec fn read(machine: Machine, operand: OperandView) -> i32 {
    match operand {
        OperandView::Imm(value) => value,
        OperandView::Register(name) => register(machine, name),
        OperandView::Stack(offset) => slot(machine, offset),
        OperandView::Pseudo(_) => 0,
    }
}

/// The machine after a value is stored in an operand. Nothing can be stored
/// in an immediate, nor in a pseudo-register.
pub open spec fn write(machine: Machine, operand: OperandView, value: i32) -> Machine {
    match operand {
        OperandView::Register(name) => match name {
            Register::AX => Machine { ax: value, ..machine },
            Register::DX => Machine { dx: value, ..machine },
            Register::CX => Machine { cx: value, ..machine },
            Register::R10 => Machine { r10: value, ..machine },
            Register::R11 => Machine { r11: value, ..machine },
        },
        OperandView::Stack(offset) => Machine {
            stack: |other: nat|
                if other == offset {
                    value
                } else {
                    slot(machine, other)
                },
            ..machine
        },
        _ => machine,
    }
}

/// The result of a unary operation, in 32 bits.
pub open spec fn unary_result(operator: UnaryOp, value: i32) -> i32 {
    match operator {
        UnaryOp::Neg => (-value) as i32,
        UnaryOp::Not => (-value - 1) as i32,
    }
}

/// The result of a binary operation on a destination and a source, in 32
/// bits. A shift takes its count from the low five bits of the source; a
/// shift to the right keeps the sign.
pub open spec fn binary_result(operator: BinaryOp, source: i32, destination: i32) -> i32 {
    match operator {
        BinaryOp::Add => (destination + source) as i32,
        BinaryOp::Sub => (destination - source) as i32,
        BinaryOp::Mult => (destination * source) as i32,
        BinaryOp::And => destination & source,
        BinaryOp::Or => destination | source,
        BinaryOp::Xor => destination ^ source,
        BinaryOp::Shl => destination << (source & 31),
        BinaryOp::Shr => destination >> (source & 31),
    }
}

/// Whether a condition holds of the two values that were compared last.
pub open spec fn holds(cond_code: CondCode, compared: (i32, i32)) -> bool {
    match cond_code {
        CondCode::E => compared.0 == compared.1,
        CondCode::NE => compared.0 != compared.1,
        CondCode::L => compared.0 < compared.1,
        CondCode::LE => compared.0 <= compared.1,
        CondCode::G => compared.0 > compared.1,
        CondCode::GE => compared.0 >= compared.1,
    }
}

/// The quotient of a division that truncates toward zero.
pub open spec fn truncated_quotient(dividend: int, divisor: int) -> int {
    if dividend >= 0 && divisor > 0 {
        dividend / divisor
    } else if dividend >= 0 {
        -(dividend / (-divisor))
    } else if divisor > 0 {
        -((-dividend) / divisor)
    } else {
        (-dividend) / (-divisor)
    }
}

/// The 64-bit number that `DX` and `AX` hold together.
pub open spec fn dividend(machine: Machine) -> int {
    machine.dx * 0x1_0000_0000 + (if machine.ax < 0 {
        machine.ax + 0x1_0000_0000
    } else {
        machine.ax as int
    })
}

/// The effect of one instruction on the machine.
pub open spec fn effect(machine: Machine, instruction: InstructionView) -> Machine {
    match instruction {
        InstructionView::Mov { src, dst } => write(machine, dst, read(machine, src)),
        InstructionView::Unary { operator, operand } => write(
            machine,
            operand,
            unary_result(operator, read(machine, operand)),
        ),
        InstructionView::Binary { operator, operand1, operand2 } => write(
            machine,
            operand2,
            binary_result(operator, read(machine, operand1), read(machine, operand2)),
        ),
        // `cmp a, b` compares b with a.
        InstructionView::Cmp { operand1, operand2 } => Machine {
            compared: (read(machine, operand2), read(machine, operand1)),
            ..machine
        },
        // Only the low byte of the operand is set.
        InstructionView::SetCC { cond_code, operand } => write(
            machine,
            operand,
            (read(machine, operand) & -256i32) | (if holds(cond_code, machine.compared) {
                1i32
            } else {
                0i32
            }),
        ),
        InstructionView::Idiv(operand) => {
            let divisor = read(machine, operand) as int;
            let quotient = truncated_quotient(dividend(machine), divisor);
            Machine {
                ax: quotient as i32,
                dx: (dividend(machine) - divisor * quotient) as i32,
                ..machine
            }
        },
        InstructionView::Cdq => Machine {
            dx: if machine.ax < 0 {
                -1i32
            } else {
                0i32
            },
            ..machine
        },
        _ => machine,
    }
}

/// The effect of a sequence of instructions, one after the other.
pub open spec fn effects(machine: Machine, instructions: Seq<InstructionView>) -> Machine
    decreases instructions.len(),
{
    if instructions.len() == 0 {
        machine
    } else {
        effect(effects(machine, instructions.drop_last()), instructions.last())
    }
}

/// Whether an operand is one of the registers that are reserved for
/// legalization: `R10`, `R11` and `CX`.
pub open spec fn is_reserved(operand: OperandView) -> bool {
    operand == OperandView::Register(Register::R10) || operand == OperandView::Register(
        Register::R11,
    ) || operand == OperandView::Register(Register::CX)
}

/// Whether an instruction has a reserved register among its operands.
pub open spec fn uses_reserved(instruction: InstructionView) -> bool {
    match instruction {
        InstructionView::Mov { src, dst } => is_reserved(src) || is_reserved(dst),
        InstructionView::Unary { operand, .. } => is_reserved(operand),
        InstructionView::Binary { operand1, operand2, .. } => is_reserved(operand1)
            || is_reserved(operand2),
        InstructionView::Cmp { operand1, operand2 } => is_reserved(operand1) || is_reserved(
            operand2,
        ),
        InstructionView::SetCC { operand, .. } => is_reserved(operand),
        InstructionView::Idiv(operand) => is_reserved(operand),
        _ => false,
    }
}

/// Whether two machines are the same but for the reserved registers.
pub open spec fn agree(a: Machine, b: Machine) -> bool {
    &&& a.ax == b.ax
    &&& a.dx == b.dx
    &&& a.compared == b.compared
    &&& forall|offset: nat| #[trigger] slot(a, offset) == slot(b, offset)
}

/// An operand that is no reserved register holds the same in two machines
/// that agree.
proof fn lemma_read_agrees(a: Machine, b: Machine, operand: OperandView)
    requires
        agree(a, b),
        !is_reserved(operand),
    ensures
        read(a, operand) == read(b, operand),
{
    if let OperandView::Stack(offset) = operand {
        assert(slot(a, offset) == slot(b, offset));
    }
}

/// Storing the same value in the same operand keeps two machines in
/// agreement.
proof fn lemma_write_agrees(a: Machine, b: Machine, operand: OperandView, value: i32)
    requires
        agree(a, b),
    ensures
        agree(write(a, operand, value), write(b, operand, value)),
{
    let left = write(a, operand, value);
    let right = write(b, operand, value);
    assert forall|offset: nat| #[trigger] slot(left, offset) == slot(right, offset) by {
        assert(slot(a, offset) == slot(b, offset));
    }
}

/// Storing a value in a reserved register leaves a machine in agreement
/// with what it agreed with.
proof fn lemma_write_reserved(a: Machine, b: Machine, operand: OperandView, value: i32)
    requires
        agree(a, b),
        is_reserved(operand),
    ensures
        agree(write(a, operand, value), b),
        read(write(a, operand, value), operand) == value,
        forall|other: OperandView|
            other != operand ==> #[trigger] read(write(a, operand, value), other) == read(
                a,
                other,
            ),
{
    let left = write(a, operand, value);
    assert forall|offset: nat| #[trigger] slot(left, offset) == slot(b, offset) by {
        assert(slot(a, offset) == slot(b, offset));
    }
}

/// A machine agrees with itself.
proof fn lemma_agree_itself(a: Machine)
    ensures
        agree(a, a),
{
}

/// Agreement goes on from machine to machine.
proof fn lemma_agree_chain(a: Machine, b: Machine, c: Machine)
    requires
        agree(a, b),
        agree(b, c),
    ensures
        agree(a, c),
{
    assert forall|offset: nat| #[trigger] slot(a, offset) == slot(c, offset) by {
        assert(slot(a, offset) == slot(b, offset));
        assert(slot(b, offset) == slot(c, offset));
    }
}

/// An instruction that names no reserved register keeps two machines in
/// agreement.
pub proof fn lemma_effect_agrees(a: Machine, b: Machine, instruction: InstructionView)
    requires
        agree(a, b),
        !uses_reserved(instruction),
    ensures
        agree(effect(a, instruction), effect(b, instruction)),
{
    match instruction {
        InstructionView::Mov { src, dst } => {
            lemma_read_agrees(a, b, src);
            lemma_write_agrees(a, b, dst, read(a, src));
        },
        InstructionView::Unary { operator, operand } => {
            lemma_read_agrees(a, b, operand);
            lemma_write_agrees(a, b, operand, unary_result(operator, read(a, operand)));
        },
        InstructionView::Binary { operator, operand1, operand2 } => {
            lemma_read_agrees(a, b, operand1);
            lemma_read_agrees(a, b, operand2);
            lemma_write_agrees(
                a,
                b,
                operand2,
                binary_result(operator, read(a, operand1), read(a, operand2)),
            );
        },
        InstructionView::Cmp { operand1, operand2 } => {
            lemma_read_agrees(a, b, operand1);
            lemma_read_agrees(a, b, operand2);
            let left = effect(a, instruction);
            let right = effect(b, instruction);
            assert forall|offset: nat| #[trigger] slot(left, offset) == slot(right, offset) by {
                assert(slot(a, offset) == slot(b, offset));
            }
        },
        InstructionView::SetCC { cond_code, operand } => {
            lemma_read_agrees(a, b, operand);
            lemma_write_agrees(
                a,
                b,
                operand,
                (read(a, operand) & -256i32) | (if holds(cond_code, a.compared) {
                    1i32
                } else {
                    0i32
                }),
            );
        },
        InstructionView::Idiv(operand) => {
            lemma_read_agrees(a, b, operand);
            let left = effect(a, instruction);
            let right = effect(b, instruction);
            assert forall|offset: nat| #[trigger] slot(left, offset) == slot(right, offset) by {
                assert(slot(a, offset) == slot(b, offset));
            }
        },
        InstructionView::Cdq => {
            let left = effect(a, instruction);
            let right = effect(b, instruction);
            assert forall|offset: nat| #[trigger] slot(left, offset) == slot(right, offset) by {
                assert(slot(a, offset) == slot(b, offset));
            }
        },
        _ => {},
    }
}

/// The effect of a sequence of one, two and three instructions.
proof fn lemma_effects_few(
    machine: Machine,
    first: InstructionView,
    second: InstructionView,
    third: InstructionView,
)
    ensures
        effects(machine, seq![first]) == effect(machine, first),
        effects(machine, seq![first, second]) == effect(effect(machine, first), second),
        effects(machine, seq![first, second, third]) == effect(
            effect(effect(machine, first), second),
            third,
        ),
{
    reveal_with_fuel(effects, 4);
    assert(seq![first].drop_last() =~= Seq::<InstructionView>::empty());
    assert(seq![first, second].drop_last() =~= seq![first]);
    assert(seq![first, second, third].drop_last() =~= seq![first, second]);
}

/// Staging an operand through a reserved register: after the move, the
/// register holds what the operand held, every other operand holds what it
/// held, and the machine agrees with the one before.
proof fn lemma_staged(machine: Machine, operand: OperandView, scratch: Register)
    requires
        scratch == Register::R10 || scratch == Register::R11 || scratch == Register::CX,
    ensures
        agree(
            effect(
                machine,
                InstructionView::Mov { src: operand, dst: OperandView::Register(scratch) },
            ),
            machine,
        ),
        read(
            effect(
                machine,
                InstructionView::Mov { src: operand, dst: OperandView::Register(scratch) },
            ),
            OperandView::Register(scratch),
        ) == read(machine, operand),
        forall|other: OperandView|
            other != OperandView::Register(scratch) ==> #[trigger] read(
                effect(
                    machine,
                    InstructionView::Mov { src: operand, dst: OperandView::Register(scratch) },
                ),
                other,
            ) == read(machine, other),
{
    lemma_agree_itself(machine);
    lemma_write_reserved(machine, machine, OperandView::Register(scratch), read(machine, operand));
}

/// What legalization writes for a move has the effect of the move.
proof fn lemma_fix_move(machine: Machine, instruction: InstructionView)
    requires
        instruction is Mov,
        forbidden(instruction),
        !uses_reserved(instruction),
    ensures
        agree(effects(machine, fix_instruction(instruction)), effect(machine, instruction)),
{
    if let InstructionView::Mov { src, dst } = instruction {
        let fixed = fix_instruction(instruction);
        lemma_effects_few(machine, fixed[0], fixed[1], fixed[1]);
        lemma_staged(machine, src, Register::R10);
        lemma_write_agrees(effect(machine, fixed[0]), machine, dst, read(machine, src));
    }
}

/// What legalization writes for a division has the effect of the division.
proof fn lemma_fix_division(machine: Machine, instruction: InstructionView)
    requires
        instruction is Idiv,
        forbidden(instruction),
        !uses_reserved(instruction),
    ensures
        agree(effects(machine, fix_instruction(instruction)), effect(machine, instruction)),
{
    if let InstructionView::Idiv(operand) = instruction {
        let fixed = fix_instruction(instruction);
        let direct = effect(machine, instruction);
        lemma_effects_few(machine, fixed[0], fixed[1], fixed[1]);
        lemma_staged(machine, operand, Register::R10);
        let staged = effect(machine, fixed[0]);
        let left = effect(staged, fixed[1]);
        assert forall|offset: nat| #[trigger] slot(left, offset) == slot(direct, offset) by {
            assert(slot(staged, offset) == slot(machine, offset));
        }
    }
}

/// What legalization writes for a multiplication has the effect of the
/// multiplication.
proof fn lemma_fix_multiplication(machine: Machine, instruction: InstructionView)
    requires
        instruction is Binary,
        instruction->Binary_operator == BinaryOp::Mult,
        forbidden(instruction),
        !uses_reserved(instruction),
    ensures
        agree(effects(machine, fix_instruction(instruction)), effect(machine, instruction)),
{
    if let InstructionView::Binary { operator, operand1, operand2 } = instruction {
        let fixed = fix_instruction(instruction);
        let r11 = OperandView::Register(Register::R11);
        lemma_effects_few(machine, fixed[0], fixed[1], fixed[2]);
        lemma_staged(machine, operand2, Register::R11);
        let staged = effect(machine, fixed[0]);
        let product = binary_result(operator, read(machine, operand1), read(machine, operand2));
        assert(read(staged, operand1) == read(machine, operand1));
        let computed = effect(staged, fixed[1]);
        lemma_write_reserved(staged, machine, r11, product);
        assert(read(computed, r11) == product);
        lemma_write_agrees(computed, machine, operand2, product);
    }
}

/// What legalization writes for another binary operation has the effect of
/// the operation.
proof fn lemma_fix_binary(machine: Machine, instruction: InstructionView)
    requires
        instruction is Binary,
        instruction->Binary_operator != BinaryOp::Mult,
        forbidden(instruction),
        !uses_reserved(instruction),
    ensures
        agree(effects(machine, fix_instruction(instruction)), effect(machine, instruction)),
{
    if let InstructionView::Binary { operator, operand1, operand2 } = instruction {
        let fixed = fix_instruction(instruction);
        let scratch = if operator == BinaryOp::Shl || operator == BinaryOp::Shr {
            Register::CX
        } else {
            Register::R10
        };
        lemma_effects_few(machine, fixed[0], fixed[1], fixed[1]);
        lemma_staged(machine, operand1, scratch);
        let staged = effect(machine, fixed[0]);
        assert(read(staged, operand2) == read(machine, operand2));
        lemma_write_agrees(
            staged,
            machine,
            operand2,
            binary_result(operator, read(machine, operand1), read(machine, operand2)),
        );
    }
}

/// What legalization writes for a comparison has the effect of the
/// comparison.
proof fn lemma_fix_comparison(machine: Machine, instruction: InstructionView)
    requires
        instruction is Cmp,
        forbidden(instruction),
        !uses_reserved(instruction),
    ensures
        agree(effects(machine, fix_instruction(instruction)), effect(machine, instruction)),
{
    if let InstructionView::Cmp { operand1, operand2 } = instruction {
        let fixed = fix_instruction(instruction);
        let direct = effect(machine, instruction);
        lemma_effects_few(machine, fixed[0], fixed[1], fixed[1]);
        if operand2 is Imm {
            lemma_staged(machine, operand2, Register::R11);
            let staged = effect(machine, fixed[0]);
            assert(read(staged, operand1) == read(machine, operand1));
            let left = effect(staged, fixed[1]);
            assert forall|offset: nat| #[trigger] slot(left, offset) == slot(direct, offset) by {
                assert(slot(staged, offset) == slot(machine, offset));
            }
        } else {
            lemma_staged(machine, operand1, Register::R10);
            let staged = effect(machine, fixed[0]);
            assert(read(staged, operand2) == read(machine, operand2));
            let left = effect(staged, fixed[1]);
            assert forall|offset: nat| #[trigger] slot(left, offset) == slot(direct, offset) by {
                assert(slot(staged, offset) == slot(machine, offset));
            }
        }
    }
}

/// What legalization writes for an instruction that names no reserved
/// register has the effect of the instruction, but on the reserved
/// registers.
pub proof fn lemma_fix_instruction_keeps_effect(machine: Machine, instruction: InstructionView)
    requires
        !uses_reserved(instruction),
    ensures
        agree(effects(machine, fix_instruction(instruction)), effect(machine, instruction)),
{
    if !forbidden(instruction) {
        lemma_agree_itself(effect(machine, instruction));
        lemma_effects_few(machine, instruction, instruction, instruction);
    } else {
        match instruction {
            InstructionView::Mov { .. } => {
                lemma_fix_move(machine, instruction);
            },
            InstructionView::Idiv(_) => {
                lemma_fix_division(machine, instruction);
            },
            InstructionView::Binary { operator, .. } => {
                if operator == BinaryOp::Mult {
                    lemma_fix_multiplication(machine, instruction);
                } else {
                    lemma_fix_binary(machine, instruction);
                }
            },
            InstructionView::Cmp { .. } => {
                lemma_fix_comparison(machine, instruction);
            },
            _ => {},
        }
    }
}

/// The effect of two sequences, one after the other, is the effect of the
/// second on what the first leaves.
pub proof fn lemma_effects_append(
    machine: Machine,
    first: Seq<InstructionView>,
    second: Seq<InstructionView>,
)
    ensures
        effects(machine, first + second) == effects(effects(machine, first), second),
    decreases second.len(),
{
    if second.len() == 0 {
        assert(first + second =~= first);
    } else {
        lemma_effects_append(machine, first, second.drop_last());
        assert((first + second).drop_last() =~= first + second.drop_last());
        assert((first + second).last() == second.last());
    }
}

/// Whether no instruction of a sequence names a reserved register.
pub open spec fn none_reserved(instructions: Seq<InstructionView>) -> bool {
    forall|i: int| 0 <= i < instructions.len() ==> !uses_reserved(#[trigger] instructions[i])
}

/// Legalization keeps the effect of a sequence of instructions that name
/// no reserved register: run from machines that agree, the legalized
/// sequence and the sequence itself leave machines that agree.
pub proof fn lemma_fix_all_keeps_effect(a: Machine, b: Machine, instructions: Seq<InstructionView>)
    requires
        agree(a, b),
        none_reserved(instructions),
    ensures
        agree(effects(a, fix_all(instructions)), effects(b, instructions)),
    decreases instructions.len(),
{
    if instructions.len() > 0 {
        let before = instructions.drop_last();
        let last = instructions.last();
        assert(none_reserved(before)) by {
            assert forall|i: int| 0 <= i < before.len() implies !uses_reserved(
                #[trigger] before[i],
            ) by {
                assert(before[i] == instructions[i]);
            }
        }
        lemma_fix_all_keeps_effect(a, b, before);
        let left = effects(a, fix_all(before));
        let right = effects(b, before);
        lemma_effects_append(a, fix_all(before), fix_instruction(last));
        lemma_fix_instruction_keeps_effect(left, last);
        lemma_effect_agrees(left, right, last);
        lemma_agree_chain(
            effects(left, fix_instruction(last)),
            effect(left, last),
            effect(right, last),
        );
    }
}

/// What instruction selection writes names no reserved register.
pub proof fn lemma_selected_none_reserved(instructions: Seq<irc::InstructionView>)
    ensures
        none_reserved(select_instructions(instructions)),
    decreases instructions.len(),
{
    if instructions.len() > 0 {
        let before = select_instructions(instructions.drop_last());
        let last = select_instruction(instructions.last());
        lemma_selected_none_reserved(instructions.drop_last());
        assert(none_reserved(last));
        assert forall|i: int| 0 <= i < (before + last).len() implies !uses_reserved(
            #[trigger] (before + last)[i],
        ) by {
            if i < before.len() {
                assert((before + last)[i] == before[i]);
            } else {
                assert((before + last)[i] == last[i - before.len()]);
            }
        }
    }
}

/// The assignment of stack slots brings no reserved register into an
/// instruction.
proof fn lemma_assigned_instruction(instruction: InstructionView, names: Seq<Seq<char>>)
    requires
        !uses_reserved(instruction),
    ensures
        !uses_reserved(assign_instruction(instruction, names).0),
{
    match instruction {
        InstructionView::Mov { src, dst } => {
            let after = assign_operand(src, names).1;
            assert(!is_reserved(assign_operand(src, names).0));
            assert(!is_reserved(assign_operand(dst, after).0));
        },
        InstructionView::Binary { operator, operand1, operand2 } => {
            let after = assign_operand(operand1, names).1;
            assert(!is_reserved(assign_operand(operand1, names).0));
            assert(!is_reserved(assign_operand(operand2, after).0));
        },
        InstructionView::Cmp { operand1, operand2 } => {
            let after = assign_operand(operand1, names).1;
            assert(!is_reserved(assign_operand(operand1, names).0));
            assert(!is_reserved(assign_operand(operand2, after).0));
        },
        _ => {},
    }
}

/// The assignment of stack slots brings no reserved register into a
/// program.
pub proof fn lemma_assigned_none_reserved(instructions: Seq<InstructionView>)
    requires
        none_reserved(instructions),
    ensures
        none_reserved(assign_instructions(instructions).0),
    decreases instructions.len(),
{
    if instructions.len() > 0 {
        let before = instructions.drop_last();
        assert(none_reserved(before)) by {
            assert forall|i: int| 0 <= i < before.len() implies !uses_reserved(
                #[trigger] before[i],
            ) by {
                assert(before[i] == instructions[i]);
            }
        }
        lemma_assigned_none_reserved(before);
        let (assigned, names) = assign_instructions(before);
        lemma_assigned_instruction(instructions.last(), names);
        let last = assign_instruction(instructions.last(), names).0;
        assert forall|i: int| 0 <= i < assigned.push(last).len() implies !uses_reserved(
            #[trigger] assigned.push(last)[i],
        ) by {
            if i < assigned.len() {
                assert(assigned.push(last)[i] == assigned[i]);
            }
        }
    }
}

} // verus!
