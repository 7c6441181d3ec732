//! The machine instructions: an abstract form of the x86-64 assembly that
//! the compiler emits.

use vstd::prelude::*;

verus! {

#[derive(Debug, Clone, Copy, PartialEq, Eq, Structural)]
pub enum Register {
    AX,
    DX,
    CX,
    R10,
    R11,
}

#[derive(Debug, Clone, Copy, PartialEq, Eq, Structural)]
pub enum UnaryOp {
    Neg,
    Not,
}

#[derive(Debug, Clone, Copy, PartialEq, Eq, Structural)]
pub enum BinaryOp {
    Add,
    Sub,
    Mult,
    And,
    Or,
    Xor,
    Shl,
    Shr,
}

#[derive(Debug, Clone, Copy, PartialEq, Eq, Structural)]
pub enum CondCode {
    E,
    NE,
    G,
    GE,
    L,
    LE,
}

/// The width at which a register is named: its low byte, or its low four
/// bytes.
#[derive(Debug, Clone, Copy, PartialEq, Eq, Structural)]
pub enum RegisterSize {
    One,
    Four,
}

/// An operand of a machine instruction. `Stack(k)` is the slot `-k(%rbp)`.
#[derive(Debug, Clone, PartialEq, Eq)]
pub enum Operand {
    Imm(i32),
    Register(Register),
    Pseudo(String),
    Stack(usize),
}

#[derive(Debug, Clone, PartialEq, Eq)]
#[allow(inconsistent_fields)]
pub enum Instruction {
    Mov { src: Operand, dst: Operand },
    Return,
    Unary { operator: UnaryOp, operand: Operand },
    Binary { operator: BinaryOp, operand1: Operand, operand2: Operand },
    Cmp { operand1: Operand, operand2: Operand },
    Jmp(String),
    JumpCC { cond_code: CondCode, target: String },
    SetCC { cond_code: CondCode, operand: Operand },
    Label(String),
    Idiv(Operand),
    Cdq,
    AllocateStack(usize),
}

#[derive(Debug, Clone, PartialEq, Eq)]
pub struct Function<'a> {
    pub name: &'a str,
    pub instructions: Vec<Instruction>,
}

#[derive(Debug, Clone, PartialEq, Eq)]
pub enum Program<'a> {
    Function(Function<'a>),
}

/// The value of an [`Operand`].
pub enum OperandView {
    Imm(i32),
    Register(Register),
    Pseudo(Seq<char>),
    Stack(nat),
}

/// The value of an [`Instruction`].
#[allow(inconsistent_fields)]
pub enum InstructionView {
    Mov { src: OperandView, dst: OperandView },
    Return,
    Unary { operator: UnaryOp, operand: OperandView },
    Binary { operator: BinaryOp, operand1: OperandView, operand2: OperandView },
    Cmp { operand1: OperandView, operand2: OperandView },
    Jmp(Seq<char>),
    JumpCC { cond_code: CondCode, target: Seq<char> },
    SetCC { cond_code: CondCode, operand: OperandView },
    Label(Seq<char>),
    Idiv(OperandView),
    Cdq,
    AllocateStack(nat),
}

/// The value of a [`Function`], and of the [`Program`] that holds it.
pub struct FunctionView {
    pub name: Seq<char>,
    pub instructions: Seq<InstructionView>,
}

impl View for Operand {
    type V = OperandView;

    open spec fn view(&self) -> OperandView {
        match self {
            Operand::Imm(value) => OperandView::Imm(*value),
            Operand::Register(register) => OperandView::Register(*register),
            Operand::Pseudo(name) => OperandView::Pseudo(name@),
            Operand::Stack(offset) => OperandView::Stack(*offset as nat),
        }
    }
}

impl View for Instruction {
    type V = InstructionView;

    open spec fn view(&self) -> InstructionView {
        match self {
            Instruction::Mov { src, dst } => InstructionView::Mov { src: src@, dst: dst@ },
            Instruction::Return => InstructionView::Return,
            Instruction::Unary { operator, operand } => InstructionView::Unary {
                operator: *operator,
                operand: operand@,
            },
            Instruction::Binary { operator, operand1, operand2 } => InstructionView::Binary {
                operator: *operator,
                operand1: operand1@,
                operand2: operand2@,
            },
            Instruction::Cmp { operand1, operand2 } => InstructionView::Cmp {
                operand1: operand1@,
                operand2: operand2@,
            },
            Instruction::Jmp(target) => InstructionView::Jmp(target@),
            Instruction::JumpCC { cond_code, target } => InstructionView::JumpCC {
                cond_code: *cond_code,
                target: target@,
            },
            Instruction::SetCC { cond_code, operand } => InstructionView::SetCC {
                cond_code: *cond_code,
                operand: operand@,
            },
            Instruction::Label(label) => InstructionView::Label(label@),
            Instruction::Idiv(operand) => InstructionView::Idiv(operand@),
            Instruction::Cdq => InstructionView::Cdq,
            Instruction::AllocateStack(bytes) => InstructionView::AllocateStack(*bytes as nat),
        }
    }
}

/// The views of a sequence of instructions, in order.
pub open spec fn instructions_view(instructions: Seq<Instruction>) -> Seq<InstructionView> {
    instructions.map_values(|instruction: Instruction| instruction@)
}

impl<'a> View for Function<'a> {
    type V = FunctionView;

    open spec fn view(&self) -> FunctionView {
        FunctionView { name: self.name@, instructions: instructions_view(self.instructions@) }
    }
}

impl<'a> View for Program<'a> {
    type V = FunctionView;

    open spec fn view(&self) -> FunctionView {
        match self {
            Program::Function(function) => function@,
        }
    }
}

impl Operand {
    /// A copy of this operand.
    pub fn duplicate(&self) -> (copy: Operand)
        ensures
            copy@ == self@,
    {
        match self {
            Operand::Imm(value) => Operand::Imm(*value),
            Operand::Register(register) => Operand::Register(*register),
            Operand::Pseudo(name) => Operand::Pseudo(name.clone()),
            Operand::Stack(offset) => Operand::Stack(*offset),
        }
    }
}

impl Instruction {
    /// A copy of this instruction.
    pub fn duplicate(&self) -> (copy: Instruction)
        ensures
            copy@ == self@,
    {
        match self {
            Instruction::Mov { src, dst } => Instruction::Mov {
                src: src.duplicate(),
                dst: dst.duplicate(),
            },
            Instruction::Return => Instruction::Return,
            Instruction::Unary { operator, operand } => Instruction::Unary {
                operator: *operator,
                operand: operand.duplicate(),
            },
            Instruction::Binary { operator, operand1, operand2 } => Instruction::Binary {
                operator: *operator,
                operand1: operand1.duplicate(),
                operand2: operand2.duplicate(),
            },
            Instruction::Cmp { operand1, operand2 } => Instruction::Cmp {
                operand1: operand1.duplicate(),
                operand2: operand2.duplicate(),
            },
            Instruction::Jmp(target) => Instruction::Jmp(target.clone()),
            Instruction::JumpCC { cond_code, target } => Instruction::JumpCC {
                cond_code: *cond_code,
                target: target.clone(),
            },
            Instruction::SetCC { cond_code, operand } => Instruction::SetCC {
                cond_code: *cond_code,
                operand: operand.duplicate(),
            },
            Instruction::Label(label) => Instruction::Label(label.clone()),
            Instruction::Idiv(operand) => Instruction::Idiv(operand.duplicate()),
            Instruction::Cdq => Instruction::Cdq,
            Instruction::AllocateStack(bytes) => Instruction::AllocateStack(*bytes),
        }
    }
}

/// Whether an instruction has a pseudo-register among its operands.
pub open spec fn has_pseudo(instruction: InstructionView) -> bool {
    match instruction {
        InstructionView::Mov { src, dst } => src is Pseudo || dst is Pseudo,
        InstructionView::Unary { operand, .. } => operand is Pseudo,
        InstructionView::Binary { operand1, operand2, .. } => operand1 is Pseudo
            || operand2 is Pseudo,
        InstructionView::Cmp { operand1, operand2 } => operand1 is Pseudo || operand2 is Pseudo,
        InstructionView::SetCC { operand, .. } => operand is Pseudo,
        InstructionView::Idiv(operand) => operand is Pseudo,
        _ => false,
    }
}

/// Whether no instruction of a sequence has a pseudo-register among its
/// operands.
pub open spec fn no_pseudo(instructions: Seq<InstructionView>) -> bool {
    forall|i: int| 0 <= i < instructions.len() ==> !has_pseudo(#[trigger] instructions[i])
}

} // verus!
