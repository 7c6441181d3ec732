//! The three-address code: the intermediate representation between the
//! syntax tree and the machine instructions.

use vstd::prelude::*;

verus! {

/// An operand: a constant, or a variable with a globally unique name.
#[derive(Debug, Clone, PartialEq, Eq)]
pub enum Value {
    Constant(i32),
    Var(String),
}

#[derive(Debug, Clone, Copy, PartialEq, Eq, Structural)]
pub enum UnaryOp {
    Complement,
    Negate,
    Not,
}

#[derive(Debug, Clone, Copy, PartialEq, Eq, Structural)]
pub enum BinaryOp {
    Add,
    Subtract,
    Multiply,
    Divide,
    Remainder,
    LeftShift,
    RightShift,
    BitAnd,
    Xor,
    BitOr,
    Equal,
    NotEqual,
    LessThan,
    LessOrEqual,
    GreaterThan,
    GreaterOrEqual,
}

#[derive(Debug, Clone, PartialEq, Eq)]
#[allow(inconsistent_fields)]
pub enum Instruction {
    Ret(Value),
    Unary { operator: UnaryOp, src: Value, dst: String },
    Binary { operator: BinaryOp, src1: Value, src2: Value, dst: String },
    Copy { src: Value, dst: String },
    Jump { target: String },
    JumpIfZero { condition: Value, target: String },
    JumpIfNotZero { condition: Value, target: String },
    Label(String),
}

#[derive(Debug, Clone, PartialEq, Eq)]
pub struct Function<'a> {
    pub name: &'a str,
    pub instructions: Vec<Instruction>,
}

#[derive(Debug, Clone, PartialEq, Eq)]
pub enum Program<'a> {
    Function(Function<'a>),
}

/// The value of a [`Value`].
pub enum ValueView {
    Constant(i32),
    Var(Seq<char>),
}

/// The value of an [`Instruction`].
#[allow(inconsistent_fields)]
pub enum InstructionView {
    Ret(ValueView),
    Unary { operator: UnaryOp, src: ValueView, dst: Seq<char> },
    Binary { operator: BinaryOp, src1: ValueView, src2: ValueView, dst: Seq<char> },
    Copy { src: ValueView, dst: Seq<char> },
    Jump { target: Seq<char> },
    JumpIfZero { condition: ValueView, target: Seq<char> },
    JumpIfNotZero { condition: ValueView, target: Seq<char> },
    Label(Seq<char>),
}

/// The value of a [`Function`], and of the [`Program`] that holds it.
pub struct FunctionView {
    pub name: Seq<char>,
    pub instructions: Seq<InstructionView>,
}

impl View for Value {
    type V = ValueView;

    open spec fn view(&self) -> ValueView {
        match self {
            Value::Constant(value) => ValueView::Constant(*value),
            Value::Var(name) => ValueView::Var(name@),
        }
    }
}

impl View for Instruction {
    type V = InstructionView;

    open spec fn view(&self) -> InstructionView {
        match self {
            Instruction::Ret(value) => InstructionView::Ret(value@),
            Instruction::Unary { operator, src, dst } => InstructionView::Unary {
                operator: *operator,
                src: src@,
                dst: dst@,
            },
            Instruction::Binary { operator, src1, src2, dst } => InstructionView::Binary {
                operator: *operator,
                src1: src1@,
                src2: src2@,
                dst: dst@,
            },
            Instruction::Copy { src, dst } => InstructionView::Copy { src: src@, dst: dst@ },
            Instruction::Jump { target } => InstructionView::Jump { target: target@ },
            Instruction::JumpIfZero { condition, target } => InstructionView::JumpIfZero {
                condition: condition@,
                target: target@,
            },
            Instruction::JumpIfNotZero { condition, target } => InstructionView::JumpIfNotZero {
                condition: condition@,
                target: target@,
            },
            Instruction::Label(label) => InstructionView::Label(label@),
        }
    }
}

/// The views of a sequence of instructions, in order.
pub open spec fn instructions_view(instructions: Seq<Instruction>) -> Seq<InstructionView> {
    instructions.map_values(|instruction: Instruction| instruction@)
}

impl<'a> View for Function<'a> {
    type V = FunctionView;

    open spec fn view(&self) -> FunctionView {
        FunctionView { name: self.name@, instructions: instructions_view(self.instructions@) }
    }
}

impl<'a> View for Program<'a> {
    type V = FunctionView;

    open spec fn view(&self) -> FunctionView {
        match self {
            Program::Function(function) => function@,
        }
    }
}

impl Value {
    /// A copy of this value.
    pub fn duplicate(&self) -> (copy: Value)
        ensures
            copy@ == self@,
    {
        match self {
            Value::Constant(value) => Value::Constant(*value),
            Value::Var(name) => Value::Var(name.clone()),
        }
    }
}

} // verus!
