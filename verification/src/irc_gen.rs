//! Lowering: from the syntax tree to the three-address code.
//!
//! An expression is lowered to the instructions that compute it and to the
//! value that holds its result; a statement is lowered to its instructions.
//! The names of temporaries and labels are minted from one counter, in the
//! order that the functions of this module lay down.

use vstd::prelude::*;
use vstd::string::*;
use crate::ast;
use crate::ast::{
    checked_item, checked_items, checked_statement, lemma_items_view,
    optional_targets_are_variables, targets_are_variables,
};
use crate::irc::{
    BinaryOp, Function, FunctionView, Instruction, InstructionView, Program, UnaryOp, Value,
    ValueView, instructions_view,
};
use crate::text::{make_unique_name, unique_name};

verus! {

/// The instructions that compute an expression, and the value that holds
/// its result after them.
pub struct Lowered {
    pub code: Seq<InstructionView>,
    pub value: ValueView,
}

/// The operator of the three-address code for a unary operator that
/// computes a value from its operand; none for those that change it.
pub open spec fn lower_unary(operator: ast::UnaryOp) -> Option<UnaryOp> {
    match operator {
        ast::UnaryOp::Complement => Some(UnaryOp::Complement),
        ast::UnaryOp::Negate => Some(UnaryOp::Negate),
        ast::UnaryOp::Not => Some(UnaryOp::Not),
        _ => None,
    }
}

/// The operator of the three-address code for a binary operator that
/// evaluates both its operands; none for `&&` and `||`, which become
/// branches.
pub open spec fn lower_binary(operator: ast::BinaryOp) -> Option<BinaryOp> {
    match operator {
        ast::BinaryOp::Add => Some(BinaryOp::Add),
        ast::BinaryOp::Subtract => Some(BinaryOp::Subtract),
        ast::BinaryOp::Multiply => Some(BinaryOp::Multiply),
        ast::BinaryOp::Divide => Some(BinaryOp::Divide),
        ast::BinaryOp::Remainder => Some(BinaryOp::Remainder),
        ast::BinaryOp::LeftShift => Some(BinaryOp::LeftShift),
        ast::BinaryOp::RightShift => Some(BinaryOp::RightShift),
        ast::BinaryOp::BitAnd => Some(BinaryOp::BitAnd),
        ast::BinaryOp::Xor => Some(BinaryOp::Xor),
        ast::BinaryOp::BitOr => Some(BinaryOp::BitOr),
        ast::BinaryOp::Equal => Some(BinaryOp::Equal),
        ast::BinaryOp::NotEqual => Some(BinaryOp::NotEqual),
        ast::BinaryOp::LessThan => Some(BinaryOp::LessThan),
        ast::BinaryOp::LessOrEqual => Some(BinaryOp::LessOrEqual),
        ast::BinaryOp::GreaterThan => Some(BinaryOp::GreaterThan),
        ast::BinaryOp::GreaterOrEqual => Some(BinaryOp::GreaterOrEqual),
        ast::BinaryOp::And | ast::BinaryOp::Or => None,
    }
}

/// The operator that a compound assignment applies; none for the plain
/// assignment.
pub open spec fn lower_assignment(operator: ast::AssignmentOp) -> Option<BinaryOp> {
    match operator {
        ast::AssignmentOp::Equal => None,
        ast::AssignmentOp::PlusEqual => Some(BinaryOp::Add),
        ast::AssignmentOp::SubtractEqual => Some(BinaryOp::Subtract),
        ast::AssignmentOp::MultipleEqual => Some(BinaryOp::Multiply),
        ast::AssignmentOp::DivideEqual => Some(BinaryOp::Divide),
        ast::AssignmentOp::RemainderEqual => Some(BinaryOp::Remainder),
        ast::AssignmentOp::BitAndEqual => Some(BinaryOp::BitAnd),
        ast::AssignmentOp::BitOrEqual => Some(BinaryOp::BitOr),
        ast::AssignmentOp::XorEqual => Some(BinaryOp::Xor),
        ast::AssignmentOp::RightShiftEqual => Some(BinaryOp::RightShift),
        ast::AssignmentOp::LeftShiftEqual => Some(BinaryOp::LeftShift),
    }
}

/// The name of the variable that is the target of an assignment, an
/// increment or a decrement.
pub open spec fn target_name(expr: ast::ExprView) -> Seq<char> {
    match expr {
        ast::ExprView::Var(name) => name,
        _ => Seq::empty(),
    }
}

/// The label that a loop, a `break` or a `continue` carries.
pub open spec fn carried_label(label: Option<Seq<char>>) -> Seq<char> {
    match label {
        Some(label) => label,
        None => Seq::empty(),
    }
}

/// The temporary that is minted from the given number.
pub open spec fn temp(counter: nat) -> Seq<char> {
    unique_name("temp"@, counter)
}

/// The label at which the loop with the given label starts over.
pub open spec fn start_label(label: Seq<char>) -> Seq<char> {
    "start."@ + label
}

/// The label to which a `continue` in the loop with the given label jumps.
pub open spec fn continue_label(label: Seq<char>) -> Seq<char> {
    "continue."@ + label
}

/// The label to which a `break` in the loop with the given label jumps.
pub open spec fn break_label(label: Seq<char>) -> Seq<char> {
    "break."@ + label
}

/// The number of names that the lowering of an expression mints.
pub open spec fn expr_names(expr: ast::ExprView) -> nat
    decreases expr,
{
    match expr {
        ast::ExprView::Constant(_) => 0,
        ast::ExprView::Var(_) => 0,
        ast::ExprView::Unary { operator, right } => match operator {
            ast::UnaryOp::PrefixInc | ast::UnaryOp::PrefixDec => 0,
            ast::UnaryOp::PostFixInc | ast::UnaryOp::PostFixDec => 1,
            _ => expr_names(*right) + 1,
        },
        ast::ExprView::Binary { operator, left, right } => match operator {
            ast::BinaryOp::And | ast::BinaryOp::Or => 3 + expr_names(*left) + expr_names(*right),
            _ => expr_names(*left) + expr_names(*right) + 1,
        },
        ast::ExprView::Assignment { right, .. } => expr_names(*right),
        ast::ExprView::Conditional { condition, then_branch, else_branch } => 3 + expr_names(
            *condition,
        ) + expr_names(*then_branch) + expr_names(*else_branch),
    }
}

/// `x++`, `x--`, `++x`, `--x`: one is added to the variable or subtracted
/// from it. The value of the postfix forms is a temporary that holds what
/// the variable held before; that of the prefix forms is the variable.
pub open spec fn lower_step(operator: ast::UnaryOp, name: Seq<char>, counter: nat) -> Lowered {
    let step = InstructionView::Binary {
        operator: if operator == ast::UnaryOp::PrefixInc || operator == ast::UnaryOp::PostFixInc {
            BinaryOp::Add
        } else {
            BinaryOp::Subtract
        },
        src1: ValueView::Var(name),
        src2: ValueView::Constant(1),
        dst: name,
    };
    if operator == ast::UnaryOp::PostFixInc || operator == ast::UnaryOp::PostFixDec {
        Lowered {
            code: seq![
                InstructionView::Copy { src: ValueView::Var(name), dst: temp(counter) },
                step,
            ],
            value: ValueView::Var(temp(counter)),
        }
    } else {
        Lowered { code: seq![step], value: ValueView::Var(name) }
    }
}

/// An expression, lowered, with the names in it minted from `counter` on.
pub open spec fn lower_expr(expr: ast::ExprView, counter: nat) -> Lowered
    decreases expr,
{
    match expr {
        ast::ExprView::Constant(value) => Lowered {
            code: Seq::empty(),
            value: ValueView::Constant(value),
        },
        ast::ExprView::Var(name) => Lowered { code: Seq::empty(), value: ValueView::Var(name) },
        ast::ExprView::Unary { operator, right } => match lower_unary(operator) {
            // The operand, then the operation into a new temporary.
            Some(ir_operator) => {
                let operand = lower_expr(*right, counter);
                let dst = temp(counter + expr_names(*right));
                Lowered {
                    code: operand.code.push(
                        InstructionView::Unary { operator: ir_operator, src: operand.value, dst },
                    ),
                    value: ValueView::Var(dst),
                }
            },
            None => lower_step(operator, target_name(*right), counter),
        },
        ast::ExprView::Binary { operator, left, right } => match lower_binary(operator) {
            // Both operands, left then right, then the operation into a
            // new temporary.
            Some(ir_operator) => {
                let v1 = lower_expr(*left, counter);
                let v2 = lower_expr(*right, counter + expr_names(*left));
                let dst = temp(counter + expr_names(*left) + expr_names(*right));
                Lowered {
                    code: (v1.code + v2.code).push(
                        InstructionView::Binary {
                            operator: ir_operator,
                            src1: v1.value,
                            src2: v2.value,
                            dst,
                        },
                    ),
                    value: ValueView::Var(dst),
                }
            },
            None => lower_short_circuit(
                operator == ast::BinaryOp::And,
                lower_expr(*left, counter + 1),
                counter + 1 + expr_names(*left),
                lower_expr(*right, counter + 3 + expr_names(*left)),
                counter,
            ),
        },
        ast::ExprView::Assignment { operator, left, right } => {
            // The right side, then the copy or the operation into the
            // variable, which is the value.
            let name = target_name(*left);
            let rhs = lower_expr(*right, counter);
            Lowered {
                code: rhs.code.push(
                    match lower_assignment(operator) {
                        Some(ir_operator) => InstructionView::Binary {
                            operator: ir_operator,
                            src1: ValueView::Var(name),
                            src2: rhs.value,
                            dst: name,
                        },
                        None => InstructionView::Copy { src: rhs.value, dst: name },
                    },
                ),
                value: ValueView::Var(name),
            }
        },
        ast::ExprView::Conditional { condition, then_branch, else_branch } => lower_conditional(
            lower_expr(*condition, counter + 3),
            lower_expr(*then_branch, counter + 3 + expr_names(*condition)),
            lower_expr(
                *else_branch,
                counter + 3 + expr_names(*condition) + expr_names(*then_branch),
            ),
            counter,
        ),
    }
}

/// `left && right` and `left || right`, from their lowered operands: the
/// right operand is evaluated only where the left one does not decide. The
/// result is a temporary, minted from `counter`, that is set to 1 or to 0;
/// the two labels are minted from `after_left`, the number that the
/// lowering of the left operand has reached.
pub open spec fn lower_short_circuit(
    and: bool,
    v1: Lowered,
    after_left: nat,
    v2: Lowered,
    counter: nat,
) -> Lowered {
    let result = temp(counter);
    let decided = unique_name(if and { "and_false"@ } else { "or_true"@ }, after_left);
    let end = unique_name(if and { "and_end"@ } else { "or_end"@ }, after_left + 1);
    Lowered {
        code: (v1.code.push(jump_unless(and, v1.value, decided)) + v2.code).push(
            jump_unless(and, v2.value, decided),
        ).push(
            InstructionView::Copy {
                src: ValueView::Constant(if and { 1i32 } else { 0i32 }),
                dst: result,
            },
        ).push(InstructionView::Jump { target: end }).push(InstructionView::Label(decided)).push(
            InstructionView::Copy {
                src: ValueView::Constant(if and { 0i32 } else { 1i32 }),
                dst: result,
            },
        ).push(InstructionView::Label(end)),
        value: ValueView::Var(result),
    }
}

/// The jump that decides `&&` where the condition is zero, and `||` where
/// it is not.
pub open spec fn jump_unless(and: bool, condition: ValueView, target: Seq<char>)
    -> InstructionView {
    if and {
        InstructionView::JumpIfZero { condition, target }
    } else {
        InstructionView::JumpIfNotZero { condition, target }
    }
}

/// `condition ? then_branch : else_branch`, from its lowered operands: only
/// the branch that the condition selects is evaluated. The result is a
/// temporary that either branch sets; it and the two labels are minted
/// from `counter`.
pub open spec fn lower_conditional(c: Lowered, v1: Lowered, v2: Lowered, counter: nat)
    -> Lowered {
    let result = temp(counter);
    let end = unique_name("ter_end"@, counter + 1);
    let otherwise = unique_name("ter_else"@, counter + 2);
    Lowered {
        code: ((c.code.push(InstructionView::JumpIfZero { condition: c.value, target: otherwise })
            + v1.code).push(InstructionView::Copy { src: v1.value, dst: result }).push(
            InstructionView::Jump { target: end },
        ).push(InstructionView::Label(otherwise)) + v2.code).push(
            InstructionView::Copy { src: v2.value, dst: result },
        ).push(InstructionView::Label(end)),
        value: ValueView::Var(result),
    }
}

/// The number of names that the lowering of an expression that may be left
/// out mints.
pub open spec fn optional_names(expr: Option<ast::ExprView>) -> nat {
    match expr {
        Some(expr) => expr_names(expr),
        None => 0,
    }
}

/// The number of names that the lowering of the initializer of a `for`
/// loop mints.
pub open spec fn for_init_names(init: ast::ForInitView) -> nat {
    match init {
        ast::ForInitView::InitDecl(decl) => optional_names(decl.init),
        ast::ForInitView::InitExp(expr) => optional_names(expr),
    }
}

/// The number of names that the lowering of a statement mints.
pub open spec fn statement_names(stmt: ast::StmtView) -> nat
    decreases stmt, 0nat,
{
    match stmt {
        ast::StmtView::Return(expr) => expr_names(expr),
        ast::StmtView::Expression(expr) => expr_names(expr),
        ast::StmtView::If { condition, then_branch, else_branch } => match else_branch {
            None => 1 + expr_names(condition) + statement_names(*then_branch),
            Some(else_branch) => 2 + expr_names(condition) + statement_names(*then_branch)
                + statement_names(*else_branch),
        },
        ast::StmtView::Label(_, stmt) => statement_names(*stmt),
        ast::StmtView::While { condition, body, .. } => expr_names(condition) + statement_names(
            *body,
        ),
        ast::StmtView::DoWhile { body, condition, .. } => statement_names(*body) + expr_names(
            condition,
        ),
        ast::StmtView::For { init, condition, post, body, .. } => for_init_names(init)
            + optional_names(condition) + statement_names(*body) + optional_names(post),
        ast::StmtView::Compound(items) => items_names(items, 0),
        _ => 0,
    }
}

/// The number of names that the lowering of a block item mints.
pub open spec fn item_names(item: ast::BlockItemView) -> nat
    decreases item, 0nat,
{
    match item {
        ast::BlockItemView::Statement(stmt) => statement_names(stmt),
        ast::BlockItemView::Decleration(decl) => optional_names(decl.init),
    }
}

/// The number of names that the lowering of the items of a block mints,
/// from index `from` on.
pub open spec fn items_names(items: Seq<ast::BlockItemView>, from: nat) -> nat
    decreases items, items.len() - from,
{
    if from >= items.len() {
        0
    } else {
        item_names(items[from as int]) + items_names(items, from + 1)
    }
}

/// The instructions of an expression whose value is not used, where the
/// expression is there.
pub open spec fn lower_optional(expr: Option<ast::ExprView>, counter: nat) -> Seq<
    InstructionView,
> {
    match expr {
        Some(expr) => lower_expr(expr, counter).code,
        None => Seq::empty(),
    }
}

/// A declaration, lowered: where it has an initializer, the initializer and
/// the copy of its value into the variable.
pub open spec fn lower_declaration(decl: ast::DeclView, counter: nat) -> Seq<InstructionView> {
    match decl.init {
        Some(init) => {
            let value = lower_expr(init, counter);
            value.code.push(InstructionView::Copy { src: value.value, dst: decl.name })
        },
        None => Seq::empty(),
    }
}

/// The initializer of a `for` loop, lowered.
pub open spec fn lower_for_init(init: ast::ForInitView, counter: nat) -> Seq<InstructionView> {
    match init {
        ast::ForInitView::InitDecl(decl) => lower_declaration(decl, counter),
        ast::ForInitView::InitExp(expr) => lower_optional(expr, counter),
    }
}

/// The test at the head of a `for` loop: where the loop has a condition,
/// the condition and the jump out of the loop where it is zero.
pub open spec fn lower_for_condition(
    condition: Option<ast::ExprView>,
    label: Seq<char>,
    counter: nat,
) -> Seq<InstructionView> {
    match condition {
        Some(condition) => {
            let test = lower_expr(condition, counter);
            test.code.push(
                InstructionView::JumpIfZero { condition: test.value, target: break_label(label) },
            )
        },
        None => Seq::empty(),
    }
}

/// A statement, lowered, with the names in it minted from `counter` on.
pub open spec fn lower_statement(stmt: ast::StmtView, counter: nat) -> Seq<InstructionView>
    decreases stmt, 0nat,
{
    match stmt {
        ast::StmtView::Return(expr) => {
            let value = lower_expr(expr, counter);
            value.code.push(InstructionView::Ret(value.value))
        },
        ast::StmtView::Expression(expr) => lower_expr(expr, counter).code,
        ast::StmtView::Null => Seq::empty(),
        ast::StmtView::If { condition, then_branch, else_branch } => match else_branch {
            None => {
                let end = unique_name("if_end"@, counter);
                let test = lower_expr(condition, counter + 1);
                (test.code.push(InstructionView::JumpIfZero { condition: test.value, target: end })
                    + lower_statement(*then_branch, counter + 1 + expr_names(condition))).push(
                    InstructionView::Label(end),
                )
            },
            Some(else_branch) => {
                let end = unique_name("if_end"@, counter);
                let otherwise = unique_name("if_else"@, counter + 1);
                let test = lower_expr(condition, counter + 2);
                let after_test = counter + 2 + expr_names(condition);
                ((test.code.push(
                    InstructionView::JumpIfZero { condition: test.value, target: otherwise },
                ) + lower_statement(*then_branch, after_test)).push(
                    InstructionView::Jump { target: end },
                ).push(InstructionView::Label(otherwise)) + lower_statement(
                    *else_branch,
                    after_test + statement_names(*then_branch),
                )).push(InstructionView::Label(end))
            },
        },
        ast::StmtView::Goto(label) => seq![InstructionView::Jump { target: label }],
        ast::StmtView::Label(label, stmt) => seq![InstructionView::Label(label)] + lower_statement(
            *stmt,
            counter,
        ),
        ast::StmtView::Break { label } => seq![
            InstructionView::Jump { target: break_label(carried_label(label)) },
        ],
        ast::StmtView::Continue { label } => seq![
            InstructionView::Jump { target: continue_label(carried_label(label)) },
        ],
        // The loop starts over at the test, and so does a `continue`.
        ast::StmtView::While { condition, body, label } => {
            let label = carried_label(label);
            let test = lower_expr(condition, counter);
            ((seq![InstructionView::Label(continue_label(label))] + test.code).push(
                InstructionView::JumpIfZero { condition: test.value, target: break_label(label) },
            ) + lower_statement(*body, counter + expr_names(condition))).push(
                InstructionView::Jump { target: continue_label(label) },
            ).push(InstructionView::Label(break_label(label)))
        },
        // The loop starts over at the body; a `continue` jumps to the test.
        ast::StmtView::DoWhile { body, condition, label } => {
            let label = carried_label(label);
            let test = lower_expr(condition, counter + statement_names(*body));
            ((seq![InstructionView::Label(start_label(label))] + lower_statement(*body, counter))
                .push(InstructionView::Label(continue_label(label))) + test.code).push(
                InstructionView::JumpIfNotZero {
                    condition: test.value,
                    target: start_label(label),
                },
            ).push(InstructionView::Label(break_label(label)))
        },
        // The loop starts over at the test; a `continue` jumps to the step.
        ast::StmtView::For { init, condition, post, body, label } => {
            let label = carried_label(label);
            let after_init = counter + for_init_names(init);
            let after_test = after_init + optional_names(condition);
            let after_body = after_test + statement_names(*body);
            ((lower_for_init(init, counter).push(InstructionView::Label(start_label(label)))
                + lower_for_condition(condition, label, after_init) + lower_statement(
                *body,
                after_test,
            )).push(InstructionView::Label(continue_label(label))) + lower_optional(
                post,
                after_body,
            )).push(InstructionView::Jump { target: start_label(label) }).push(
                InstructionView::Label(break_label(label)),
            )
        },
        ast::StmtView::Compound(items) => lower_items(items, 0, counter),
    }
}

/// A block item, lowered.
pub open spec fn lower_item(item: ast::BlockItemView, counter: nat) -> Seq<InstructionView>
    decreases item, 1nat,
{
    match item {
        ast::BlockItemView::Statement(stmt) => lower_statement(stmt, counter),
        ast::BlockItemView::Decleration(decl) => lower_declaration(decl, counter),
    }
}

/// The items of a block from index `from` on, lowered one after the other.
pub open spec fn lower_items(items: Seq<ast::BlockItemView>, from: nat, counter: nat) -> Seq<
    InstructionView,
>
    decreases items, items.len() - from,
{
    if from >= items.len() {
        Seq::empty()
    } else {
        lower_item(items[from as int], counter) + lower_items(
            items,
            from + 1,
            counter + item_names(items[from as int]),
        )
    }
}

/// A program, lowered: the instructions of its body, and a `return 0` for
/// the case that control reaches the end of the body.
pub open spec fn lower_program(program: ast::FunctionView, counter: nat) -> FunctionView {
    FunctionView {
        name: program.name,
        instructions: lower_items(program.body, 0, counter).push(
            InstructionView::Ret(ValueView::Constant(0)),
        ),
    }
}

/// Appends one instruction.
fn emit(instructions: &mut Vec<Instruction>, instruction: Instruction)
    ensures
        instructions_view(final(instructions)@) == instructions_view(old(instructions)@).push(
            instruction@,
        ),
{
    instructions.push(instruction);
    assert(instructions_view(instructions@) =~= instructions_view(old(instructions)@).push(
        instruction@,
    ));
}

/// Appends one instruction to what was appended since `before`.
fn emit_after(
    instructions: &mut Vec<Instruction>,
    instruction: Instruction,
    Ghost(before): Ghost<Seq<InstructionView>>,
    Ghost(since): Ghost<Seq<InstructionView>>,
)
    requires
        instructions_view(old(instructions)@) == before + since,
    ensures
        instructions_view(final(instructions)@) == before + since.push(instruction@),
{
    instructions.push(instruction);
    assert(instructions_view(instructions@) =~= instructions_view(old(instructions)@).push(
        instruction@,
    ));
    assert((before + since).push(instruction@) =~= before + since.push(instruction@));
}

/// Appends one instruction, the first since `before`.
fn emit_first(instructions: &mut Vec<Instruction>, instruction: Instruction)
    ensures
        instructions_view(final(instructions)@) == instructions_view(old(instructions)@)
            + seq![instruction@],
{
    instructions.push(instruction);
    assert(instructions_view(instructions@) =~= instructions_view(old(instructions)@)
        + seq![instruction@]);
}

/// What is appended after a sequence that was appended is appended as one
/// with it.
proof fn lemma_appended(
    before: Seq<InstructionView>,
    since: Seq<InstructionView>,
    more: Seq<InstructionView>,
)
    ensures
        (before + since) + more == before + (since + more),
{
    assert((before + since) + more =~= before + (since + more));
}

/// The name of the variable that is the target of an assignment, an
/// increment or a decrement.
fn target_of(expr: &ast::Expr) -> (name: String)
    ensures
        name@ == target_name(expr@),
{
    match expr {
        ast::Expr::Var(name) => name.clone(),
        _ => String::new(),
    }
}

/// The label that a loop, a `break` or a `continue` carries.
fn label_of(label: &Option<String>) -> (name: String)
    ensures
        name@ == carried_label(ast::name_view(*label)),
{
    match label {
        Some(label) => label.clone(),
        None => String::new(),
    }
}

/// A name made of a prefix and a label.
fn prefixed(prefix: &str, label: &String) -> (name: String)
    ensures
        name@ == prefix@ + label@,
{
    let mut name = String::from_str(prefix);
    name.append(label.as_str());
    name
}

/// The lowering pass. It holds the counter from which temporaries and
/// labels are minted.
pub struct IrcGenerator {
    pub counter: usize,
}

impl Default for IrcGenerator {
    fn default() -> (generator: Self)
        ensures
            generator.counter == 0,
    {
        Self { counter: 0 }
    }
}

impl IrcGenerator {
    /// Lowers a program that has passed semantic analysis, minting names
    /// from `counter` on, and returns the three-address program with the
    /// counter after it.
    pub fn gen_program<'a>(program: ast::Program<'a>, counter: usize) -> (lowered: (
        Program<'a>,
        usize,
    ))
        requires
            checked_items(program@.body, true),
            counter + items_names(program@.body, 0) <= usize::MAX,
        ensures
            lowered.0@ == lower_program(program@, counter as nat),
            lowered.1 == counter + items_names(program@.body, 0),
    {
        let mut irc_generator = Self { counter };
        match program {
            ast::Program::Function(function) => {
                let function = irc_generator.gen_function(function);
                (Program::Function(function), irc_generator.counter)
            },
        }
    }

    fn gen_function<'a>(&mut self, function: ast::Function<'a>) -> (lowered: Function<'a>)
        requires
            checked_items(function@.body, true),
            old(self).counter + items_names(function@.body, 0) <= usize::MAX,
        ensures
            lowered@ == lower_program(function@, old(self).counter as nat),
            final(self).counter == old(self).counter + items_names(function@.body, 0),
    {
        let mut instructions: Vec<Instruction> = Vec::new();
        assert(instructions_view(instructions@) =~= Seq::empty());
        self.gen_block(&function.body, &mut instructions);
        assert(instructions_view(instructions@) =~= lower_items(
            function@.body,
            0,
            old(self).counter as nat,
        ));
        emit(&mut instructions, Instruction::Ret(Value::Constant(0)));
        Function { name: function.name, instructions }
    }

    fn gen_block(&mut self, block: &ast::Block, instructions: &mut Vec<Instruction>)
        requires
            checked_items(block@, true),
            old(self).counter + items_names(block@, 0) <= usize::MAX,
        ensures
            final(self).counter == old(self).counter + items_names(block@, 0),
            instructions_view(final(instructions)@) == instructions_view(old(instructions)@)
                + lower_items(block@, 0, old(self).counter as nat),
        decreases block,
    {
        let ghost source = block@;
        let mut i: usize = 0;
        proof {
            lemma_items_view(block.items@);
        }
        while i < block.items.len()
            invariant
                i <= block.items.len(),
                source == block@,
                source.len() == block.items.len(),
                forall|j: int| 0 <= j < source.len() ==> #[trigger] source[j] == block.items@[j]@,
                checked_items(source, true),
                old(self).counter + items_names(source, 0) <= usize::MAX,
                self.counter + items_names(source, i as nat) == old(self).counter + items_names(
                    source,
                    0,
                ),
                instructions_view(instructions@) + lower_items(
                    source,
                    i as nat,
                    self.counter as nat,
                ) == instructions_view(old(instructions)@) + lower_items(
                    source,
                    0,
                    old(self).counter as nat,
                ),
            decreases block.items.len() - i,
        {
            let ghost before = instructions_view(instructions@);
            let ghost counter = self.counter as nat;
            assert(checked_item(source[i as int], true));
            self.gen_block_item(&block.items[i], instructions);
            proof {
                let item = lower_item(source[i as int], counter);
                let rest = lower_items(source, (i + 1) as nat, self.counter as nat);
                assert(before + (item + rest) =~= (before + item) + rest);
            }
            i += 1;
        }
        assert(instructions_view(instructions@) + lower_items(
            source,
            i as nat,
            self.counter as nat,
        ) =~= instructions_view(instructions@));
    }

    fn gen_block_item(&mut self, block_item: &ast::BlockItem, instructions: &mut Vec<Instruction>)
        requires
            checked_item(block_item@, true),
            old(self).counter + item_names(block_item@) <= usize::MAX,
        ensures
            final(self).counter == old(self).counter + item_names(block_item@),
            instructions_view(final(instructions)@) == instructions_view(old(instructions)@)
                + lower_item(block_item@, old(self).counter as nat),
        decreases block_item,
    {
        match block_item {
            ast::BlockItem::Statement(stmt) => self.gen_stmt(stmt, instructions),
            ast::BlockItem::Decleration(decleration) => self.gen_decleration(
                decleration,
                instructions,
            ),
        }
    }

    fn gen_decleration(
        &mut self,
        decleration: &ast::Decleration,
        instructions: &mut Vec<Instruction>,
    )
        requires
            optional_targets_are_variables(decleration@.init),
            old(self).counter + optional_names(decleration@.init) <= usize::MAX,
        ensures
            final(self).counter == old(self).counter + optional_names(decleration@.init),
            instructions_view(final(instructions)@) == instructions_view(old(instructions)@)
                + lower_declaration(decleration@, old(self).counter as nat),
    {
        match decleration {
            ast::Decleration::Decleration { name, init } => {
                match init {
                    Some(init) => {
                        let value = self.gen_expr(init, instructions);
                        emit(instructions, Instruction::Copy { src: value, dst: name.clone() });
                    },
                    None => {},
                }
            },
        }
        assert(instructions_view(instructions@) =~= instructions_view(old(instructions)@)
            + lower_declaration(decleration@, old(self).counter as nat));
    }

    /// Lowers an expression whose value is not used, where it is there.
    fn gen_optional(&mut self, expr: &Option<ast::Expr>, instructions: &mut Vec<Instruction>)
        requires
            optional_targets_are_variables(ast::opt_expr_view(*expr)),
            old(self).counter + optional_names(ast::opt_expr_view(*expr)) <= usize::MAX,
        ensures
            final(self).counter == old(self).counter + optional_names(ast::opt_expr_view(*expr)),
            instructions_view(final(instructions)@) == instructions_view(old(instructions)@)
                + lower_optional(ast::opt_expr_view(*expr), old(self).counter as nat),
    {
        match expr {
            Some(expr) => {
                let _ = self.gen_expr(expr, instructions);
            },
            None => {},
        }
        assert(instructions_view(instructions@) =~= instructions_view(old(instructions)@)
            + lower_optional(ast::opt_expr_view(*expr), old(self).counter as nat));
    }

    /// Lowers an expression: appends the instructions that compute it, and
    /// returns the value that holds its result.
    fn gen_expr(&mut self, expr: &ast::Expr, instructions: &mut Vec<Instruction>) -> (value: Value)
        requires
            targets_are_variables(expr@),
            old(self).counter + expr_names(expr@) <= usize::MAX,
        ensures
            final(self).counter == old(self).counter + expr_names(expr@),
            instructions_view(final(instructions)@) == instructions_view(old(instructions)@)
                + lower_expr(expr@, old(self).counter as nat).code,
            value@ == lower_expr(expr@, old(self).counter as nat).value,
        decreases expr, 1nat,
    {
        match expr {
            ast::Expr::Constant(value) => {
                assert(instructions_view(instructions@) =~= instructions_view(instructions@)
                    + Seq::empty());
                Value::Constant(*value)
            },
            ast::Expr::Var(name) => {
                assert(instructions_view(instructions@) =~= instructions_view(instructions@)
                    + Seq::empty());
                Value::Var(name.clone())
            },
            ast::Expr::Unary { operator, right } => {
                match Self::gen_unary(*operator) {
                    Some(irc_operator) => self.gen_unary_expr(
                        irc_operator,
                        right,
                        instructions,
                        Ghost(*expr),
                    ),
                    None => self.gen_step(*operator, target_of(right), instructions),
                }
            },
            ast::Expr::Binary { operator, left, right } => {
                match Self::gen_binary(*operator) {
                    Some(irc_operator) => self.gen_binary_expr(
                        irc_operator,
                        left,
                        right,
                        instructions,
                        Ghost(*expr),
                    ),
                    None => {
                        let and = match operator {
                            ast::BinaryOp::And => true,
                            _ => false,
                        };
                        self.gen_short_circuit(and, left, right, instructions, Ghost(*expr))
                    },
                }
            },
            ast::Expr::Assignment { left, right, operator } => self.gen_assignment(
                *operator,
                target_of(left),
                right,
                instructions,
                Ghost(*expr),
            ),
            ast::Expr::Conditional { condition, then_branch, else_branch } => self.gen_conditional(
                condition,
                then_branch,
                else_branch,
                instructions,
                Ghost(*expr),
            ),
        }
    }

    /// Lowers a unary operation that computes a value from its operand.
    fn gen_unary_expr(
        &mut self,
        operator: UnaryOp,
        right: &ast::Expr,
        instructions: &mut Vec<Instruction>,
        Ghost(parent): Ghost<ast::Expr>,
    ) -> (value: Value)
        requires
            decreases_to!(parent => right),
            targets_are_variables(right@),
            old(self).counter + expr_names(right@) + 1 <= usize::MAX,
        ensures
            final(self).counter == old(self).counter + expr_names(right@) + 1,
            instructions_view(final(instructions)@) == instructions_view(old(instructions)@)
                + lower_expr(right@, old(self).counter as nat).code.push(
                InstructionView::Unary {
                    operator,
                    src: lower_expr(right@, old(self).counter as nat).value,
                    dst: temp((old(self).counter + expr_names(right@)) as nat),
                },
            ),
            value@ == ValueView::Var(temp((old(self).counter + expr_names(right@)) as nat)),
        decreases parent, 0nat,
    {
        let ghost before = instructions_view(instructions@);
        let src = self.gen_expr(right, instructions);
        let dst_var = self.gen_temp();
        let dst = Value::Var(dst_var.clone());
        emit(instructions, Instruction::Unary { operator, src, dst: dst_var });
        assert(instructions_view(instructions@) =~= before + lower_expr(
            right@,
            old(self).counter as nat,
        ).code.push(
            InstructionView::Unary {
                operator,
                src: lower_expr(right@, old(self).counter as nat).value,
                dst: temp((old(self).counter + expr_names(right@)) as nat),
            },
        ));
        dst
    }

    /// Lowers a binary operation that evaluates both its operands.
    fn gen_binary_expr(
        &mut self,
        operator: BinaryOp,
        left: &ast::Expr,
        right: &ast::Expr,
        instructions: &mut Vec<Instruction>,
        Ghost(parent): Ghost<ast::Expr>,
    ) -> (value: Value)
        requires
            decreases_to!(parent => left),
            decreases_to!(parent => right),
            targets_are_variables(left@),
            targets_are_variables(right@),
            old(self).counter + expr_names(left@) + expr_names(right@) + 1 <= usize::MAX,
        ensures
            final(self).counter == old(self).counter + expr_names(left@) + expr_names(right@) + 1,
            instructions_view(final(instructions)@) == instructions_view(old(instructions)@) + (
            lower_expr(left@, old(self).counter as nat).code + lower_expr(
                right@,
                (old(self).counter + expr_names(left@)) as nat,
            ).code).push(
                InstructionView::Binary {
                    operator,
                    src1: lower_expr(left@, old(self).counter as nat).value,
                    src2: lower_expr(
                        right@,
                        (old(self).counter + expr_names(left@)) as nat,
                    ).value,
                    dst: temp((old(self).counter + expr_names(left@) + expr_names(right@)) as nat),
                },
            ),
            value@ == ValueView::Var(
                temp((old(self).counter + expr_names(left@) + expr_names(right@)) as nat),
            ),
        decreases parent, 0nat,
    {
        let ghost before = instructions_view(instructions@);
        let ghost counter = self.counter as nat;
        let v1 = self.gen_expr(left, instructions);
        let v2 = self.gen_expr(right, instructions);
        let dst_var = self.gen_temp();
        let dst = Value::Var(dst_var.clone());
        emit(instructions, Instruction::Binary { operator, src1: v1, src2: v2, dst: dst_var });
        assert(instructions_view(instructions@) =~= before + (lower_expr(left@, counter).code
            + lower_expr(right@, counter + expr_names(left@)).code).push(
            InstructionView::Binary {
                operator,
                src1: lower_expr(left@, counter).value,
                src2: lower_expr(right@, counter + expr_names(left@)).value,
                dst: temp(counter + expr_names(left@) + expr_names(right@)),
            },
        ));
        dst
    }

    /// Lowers `left && right` or `left || right`.
    fn gen_short_circuit(
        &mut self,
        and: bool,
        left: &ast::Expr,
        right: &ast::Expr,
        instructions: &mut Vec<Instruction>,
        Ghost(parent): Ghost<ast::Expr>,
    ) -> (value: Value)
        requires
            decreases_to!(parent => left),
            decreases_to!(parent => right),
            targets_are_variables(left@),
            targets_are_variables(right@),
            old(self).counter + 3 + expr_names(left@) + expr_names(right@) <= usize::MAX,
        ensures
            final(self).counter == old(self).counter + 3 + expr_names(left@) + expr_names(right@),
            instructions_view(final(instructions)@) == instructions_view(old(instructions)@)
                + lower_short_circuit(
                and,
                lower_expr(left@, (old(self).counter + 1) as nat),
                (old(self).counter + 1 + expr_names(left@)) as nat,
                lower_expr(right@, (old(self).counter + 3 + expr_names(left@)) as nat),
                old(self).counter as nat,
            ).code,
            value@ == ValueView::Var(temp(old(self).counter as nat)),
        decreases parent, 0nat,
    {
        let ghost before = instructions_view(instructions@);
        let ghost counter = self.counter as nat;
        let ghost v1 = lower_expr(left@, counter + 1);
        let ghost v2 = lower_expr(right@, counter + 3 + expr_names(left@));
        let result_var = self.gen_temp();
        let result = Value::Var(result_var.clone());
        let value1 = self.gen_expr(left, instructions);
        let decided = self.gen_label(if and { "and_false" } else { "or_true" });
        let end_label = self.gen_label(if and { "and_end" } else { "or_end" });
        let ghost since = v1.code;
        emit_after(
            instructions,
            Self::gen_jump_unless(and, value1, decided.clone()),
            Ghost(before),
            Ghost(since),
        );
        let ghost since = since.push(jump_unless(and, v1.value, decided@));
        let value2 = self.gen_expr(right, instructions);
        proof {
            lemma_appended(before, since, v2.code);
        }
        let ghost since = since + v2.code;
        emit_after(
            instructions,
            Self::gen_jump_unless(and, value2, decided.clone()),
            Ghost(before),
            Ghost(since),
        );
        let ghost since = since.push(jump_unless(and, v2.value, decided@));
        let set = Instruction::Copy {
            src: Value::Constant(if and { 1 } else { 0 }),
            dst: result_var.clone(),
        };
        let ghost since_set = since.push(set@);
        emit_after(instructions, set, Ghost(before), Ghost(since));
        let jump = Instruction::Jump { target: end_label.clone() };
        let ghost since_jump = since_set.push(jump@);
        emit_after(instructions, jump, Ghost(before), Ghost(since_set));
        let ghost since_label = since_jump.push(InstructionView::Label(decided@));
        emit_after(instructions, Instruction::Label(decided), Ghost(before), Ghost(since_jump));
        let reset = Instruction::Copy {
            src: Value::Constant(if and { 0 } else { 1 }),
            dst: result_var,
        };
        let ghost since_reset = since_label.push(reset@);
        emit_after(instructions, reset, Ghost(before), Ghost(since_label));
        emit_after(instructions, Instruction::Label(end_label), Ghost(before), Ghost(since_reset));
        result
    }

    /// Lowers an assignment to the variable `name`.
    fn gen_assignment(
        &mut self,
        operator: ast::AssignmentOp,
        name: String,
        right: &ast::Expr,
        instructions: &mut Vec<Instruction>,
        Ghost(parent): Ghost<ast::Expr>,
    ) -> (value: Value)
        requires
            decreases_to!(parent => right),
            targets_are_variables(right@),
            old(self).counter + expr_names(right@) <= usize::MAX,
        ensures
            final(self).counter == old(self).counter + expr_names(right@),
            instructions_view(final(instructions)@) == instructions_view(old(instructions)@)
                + lower_expr(right@, old(self).counter as nat).code.push(
                match lower_assignment(operator) {
                    Some(ir_operator) => InstructionView::Binary {
                        operator: ir_operator,
                        src1: ValueView::Var(name@),
                        src2: lower_expr(right@, old(self).counter as nat).value,
                        dst: name@,
                    },
                    None => InstructionView::Copy {
                        src: lower_expr(right@, old(self).counter as nat).value,
                        dst: name@,
                    },
                },
            ),
            value@ == ValueView::Var(name@),
        decreases parent, 0nat,
    {
        let ghost before = instructions_view(instructions@);
        let ghost rhs = lower_expr(right@, self.counter as nat);
        let right = self.gen_expr(right, instructions);
        match Self::gen_compound_assignment_operator(operator) {
            Some(operator) => {
                emit(
                    instructions,
                    Instruction::Binary {
                        operator,
                        src1: Value::Var(name.clone()),
                        src2: right,
                        dst: name.clone(),
                    },
                );
                assert(instructions_view(instructions@) =~= before + rhs.code.push(
                    InstructionView::Binary {
                        operator,
                        src1: ValueView::Var(name@),
                        src2: rhs.value,
                        dst: name@,
                    },
                ));
            },
            None => {
                emit(instructions, Instruction::Copy { src: right, dst: name.clone() });
                assert(instructions_view(instructions@) =~= before + rhs.code.push(
                    InstructionView::Copy { src: rhs.value, dst: name@ },
                ));
            },
        }
        Value::Var(name)
    }

    /// Lowers `condition ? then_branch : else_branch`.
    fn gen_conditional(
        &mut self,
        condition: &ast::Expr,
        then_branch: &ast::Expr,
        else_branch: &ast::Expr,
        instructions: &mut Vec<Instruction>,
        Ghost(parent): Ghost<ast::Expr>,
    ) -> (value: Value)
        requires
            decreases_to!(parent => condition),
            decreases_to!(parent => then_branch),
            decreases_to!(parent => else_branch),
            targets_are_variables(condition@),
            targets_are_variables(then_branch@),
            targets_are_variables(else_branch@),
            old(self).counter + 3 + expr_names(condition@) + expr_names(then_branch@)
                + expr_names(else_branch@) <= usize::MAX,
        ensures
            final(self).counter == old(self).counter + 3 + expr_names(condition@) + expr_names(
                then_branch@,
            ) + expr_names(else_branch@),
            instructions_view(final(instructions)@) == instructions_view(old(instructions)@)
                + lower_conditional(
                lower_expr(condition@, (old(self).counter + 3) as nat),
                lower_expr(
                    then_branch@,
                    (old(self).counter + 3 + expr_names(condition@)) as nat,
                ),
                lower_expr(
                    else_branch@,
                    (old(self).counter + 3 + expr_names(condition@) + expr_names(
                        then_branch@,
                    )) as nat,
                ),
                old(self).counter as nat,
            ).code,
            value@ == ValueView::Var(temp(old(self).counter as nat)),
        decreases parent, 0nat,
    {
        let ghost before = instructions_view(instructions@);
        let ghost counter = self.counter as nat;
        let ghost c = lower_expr(condition@, counter + 3);
        let ghost v1 = lower_expr(then_branch@, counter + 3 + expr_names(condition@));
        let ghost v2 = lower_expr(
            else_branch@,
            counter + 3 + expr_names(condition@) + expr_names(then_branch@),
        );
        let condition_result = self.gen_temp();
        let end_label = self.gen_label("ter_end");
        let else_label = self.gen_label("ter_else");
        let condition_value = self.gen_expr(condition, instructions);
        let test = Instruction::JumpIfZero {
            condition: condition_value,
            target: else_label.clone(),
        };
        let ghost since = c.code.push(test@);
        emit_after(instructions, test, Ghost(before), Ghost(c.code));
        let value1 = self.gen_expr(then_branch, instructions);
        proof {
            lemma_appended(before, since, v1.code);
        }
        let ghost since = since + v1.code;
        let set = Instruction::Copy { src: value1, dst: condition_result.clone() };
        let ghost since_set = since.push(set@);
        emit_after(instructions, set, Ghost(before), Ghost(since));
        let jump = Instruction::Jump { target: end_label.clone() };
        let ghost since_jump = since_set.push(jump@);
        emit_after(instructions, jump, Ghost(before), Ghost(since_set));
        let ghost since_label = since_jump.push(InstructionView::Label(else_label@));
        emit_after(instructions, Instruction::Label(else_label), Ghost(before), Ghost(since_jump));
        let value2 = self.gen_expr(else_branch, instructions);
        proof {
            lemma_appended(before, since_label, v2.code);
        }
        let ghost since = since_label + v2.code;
        let reset = Instruction::Copy { src: value2, dst: condition_result.clone() };
        let ghost since_reset = since.push(reset@);
        emit_after(instructions, reset, Ghost(before), Ghost(since));
        emit_after(instructions, Instruction::Label(end_label), Ghost(before), Ghost(since_reset));
        Value::Var(condition_result)
    }

    /// Lowers an increment or a decrement of the variable `name`.
    fn gen_step(&mut self, operator: ast::UnaryOp, name: String, instructions: &mut Vec<Instruction>)
        -> (value: Value)
        requires
            lower_unary(operator) is None,
            old(self).counter + 1 <= usize::MAX || operator == ast::UnaryOp::PrefixInc || operator
                == ast::UnaryOp::PrefixDec,
        ensures
            final(self).counter == old(self).counter + (if operator == ast::UnaryOp::PostFixInc
                || operator == ast::UnaryOp::PostFixDec {
                1nat
            } else {
                0nat
            }),
            instructions_view(final(instructions)@) == instructions_view(old(instructions)@)
                + lower_step(operator, name@, old(self).counter as nat).code,
            value@ == lower_step(operator, name@, old(self).counter as nat).value,
    {
        let ghost before = instructions_view(instructions@);
        let step_operator = match operator {
            ast::UnaryOp::PrefixInc | ast::UnaryOp::PostFixInc => BinaryOp::Add,
            _ => BinaryOp::Subtract,
        };
        let value = match operator {
            ast::UnaryOp::PostFixInc | ast::UnaryOp::PostFixDec => {
                let dst_var = self.gen_temp();
                let dst = Value::Var(dst_var.clone());
                emit(
                    instructions,
                    Instruction::Copy { src: Value::Var(name.clone()), dst: dst_var },
                );
                dst
            },
            _ => Value::Var(name.clone()),
        };
        emit(
            instructions,
            Instruction::Binary {
                operator: step_operator,
                src1: Value::Var(name.clone()),
                src2: Value::Constant(1),
                dst: name,
            },
        );
        assert(instructions_view(instructions@) =~= before + lower_step(
            operator,
            name@,
            old(self).counter as nat,
        ).code);
        value
    }

    /// The jump that decides `&&` or `||`.
    fn gen_jump_unless(and: bool, condition: Value, target: String) -> (instruction: Instruction)
        ensures
            instruction@ == jump_unless(and, condition@, target@),
    {
        if and {
            Instruction::JumpIfZero { condition, target }
        } else {
            Instruction::JumpIfNotZero { condition, target }
        }
    }

    /// Lowers a statement: appends its instructions.
    fn gen_stmt(&mut self, stmt: &ast::Stmt, instructions: &mut Vec<Instruction>)
        requires
            checked_statement(stmt@, true),
            old(self).counter + statement_names(stmt@) <= usize::MAX,
        ensures
            final(self).counter == old(self).counter + statement_names(stmt@),
            instructions_view(final(instructions)@) == instructions_view(old(instructions)@)
                + lower_statement(stmt@, old(self).counter as nat),
        decreases stmt, 1nat,
    {
        let ghost before = instructions_view(instructions@);
        let ghost counter = self.counter as nat;
        match stmt {
            ast::Stmt::Return(expr) => {
                let value = self.gen_expr(expr, instructions);
                emit_after(
                    instructions,
                    Instruction::Ret(value),
                    Ghost(before),
                    Ghost(lower_expr(expr@, counter).code),
                );
            },
            ast::Stmt::Expression(expr) => {
                let _ = self.gen_expr(expr, instructions);
            },
            ast::Stmt::Null => {
                assert(before + Seq::empty() =~= before);
            },
            ast::Stmt::If { condition, then_branch, else_branch } => {
                match else_branch {
                    None => self.gen_if(condition, then_branch, instructions, Ghost(*stmt)),
                    Some(else_branch) => self.gen_if_else(
                        condition,
                        then_branch,
                        else_branch,
                        instructions,
                        Ghost(*stmt),
                    ),
                }
            },
            ast::Stmt::Goto(label) => {
                emit_first(instructions, Instruction::Jump { target: label.clone() });
            },
            ast::Stmt::Label(label, stmt) => {
                emit_first(instructions, Instruction::Label(label.clone()));
                self.gen_stmt(stmt, instructions);
                proof {
                    lemma_appended(
                        before,
                        seq![InstructionView::Label(label@)],
                        lower_statement(stmt@, counter),
                    );
                }
            },
            ast::Stmt::Compound(block) => {
                self.gen_block(block, instructions);
            },
            ast::Stmt::Break { label } => {
                emit_first(
                    instructions,
                    Instruction::Jump { target: prefixed("break.", &label_of(label)) },
                );
            },
            ast::Stmt::Continue { label } => {
                emit_first(
                    instructions,
                    Instruction::Jump { target: prefixed("continue.", &label_of(label)) },
                );
            },
            ast::Stmt::While { condition, body, label } => self.gen_while(
                condition,
                body,
                label_of(label),
                instructions,
                Ghost(*stmt),
            ),
            ast::Stmt::DoWhile { body, condition, label } => self.gen_do_while(
                body,
                condition,
                label_of(label),
                instructions,
                Ghost(*stmt),
            ),
            ast::Stmt::For { init, condition, post, body, label } => self.gen_for(
                init,
                condition,
                post,
                body,
                label_of(label),
                instructions,
                Ghost(*stmt),
            ),
        }
    }

    /// Lowers an `if` without an `else`.
    fn gen_if(
        &mut self,
        condition: &ast::Expr,
        then_branch: &ast::Stmt,
        instructions: &mut Vec<Instruction>,
        Ghost(parent): Ghost<ast::Stmt>,
    )
        requires
            decreases_to!(parent => then_branch),
            targets_are_variables(condition@),
            checked_statement(then_branch@, true),
            old(self).counter + 1 + expr_names(condition@) + statement_names(then_branch@)
                <= usize::MAX,
        ensures
            final(self).counter == old(self).counter + 1 + expr_names(condition@)
                + statement_names(then_branch@),
            instructions_view(final(instructions)@) == instructions_view(old(instructions)@)
                + lower_statement(
                ast::StmtView::If {
                    condition: condition@,
                    then_branch: Box::new(then_branch@),
                    else_branch: None,
                },
                old(self).counter as nat,
            ),
        decreases parent, 0nat,
    {
        let ghost before = instructions_view(instructions@);
        let ghost counter = self.counter as nat;
        let ghost test = lower_expr(condition@, counter + 1);
        let end_label = self.gen_label("if_end");
        let condition_value = self.gen_expr(condition, instructions);
        let jump = Instruction::JumpIfZero { condition: condition_value, target: end_label.clone() };
        let ghost since = test.code.push(jump@);
        emit_after(instructions, jump, Ghost(before), Ghost(test.code));
        self.gen_stmt(then_branch, instructions);
        let ghost then_code = lower_statement(then_branch@, counter + 1 + expr_names(condition@));
        proof {
            lemma_appended(before, since, then_code);
        }
        emit_after(
            instructions,
            Instruction::Label(end_label),
            Ghost(before),
            Ghost(since + then_code),
        );
    }

    /// Lowers an `if` with an `else`.
    fn gen_if_else(
        &mut self,
        condition: &ast::Expr,
        then_branch: &ast::Stmt,
        else_branch: &ast::Stmt,
        instructions: &mut Vec<Instruction>,
        Ghost(parent): Ghost<ast::Stmt>,
    )
        requires
            decreases_to!(parent => then_branch),
            decreases_to!(parent => else_branch),
            targets_are_variables(condition@),
            checked_statement(then_branch@, true),
            checked_statement(else_branch@, true),
            old(self).counter + 2 + expr_names(condition@) + statement_names(then_branch@)
                + statement_names(else_branch@) <= usize::MAX,
        ensures
            final(self).counter == old(self).counter + 2 + expr_names(condition@)
                + statement_names(then_branch@) + statement_names(else_branch@),
            instructions_view(final(instructions)@) == instructions_view(old(instructions)@)
                + lower_statement(
                ast::StmtView::If {
                    condition: condition@,
                    then_branch: Box::new(then_branch@),
                    else_branch: Some(Box::new(else_branch@)),
                },
                old(self).counter as nat,
            ),
        decreases parent, 0nat,
    {
        let ghost before = instructions_view(instructions@);
        let ghost counter = self.counter as nat;
        let ghost test = lower_expr(condition@, counter + 2);
        let ghost after_test = counter + 2 + expr_names(condition@);
        let end_label = self.gen_label("if_end");
        let else_label = self.gen_label("if_else");
        let condition_value = self.gen_expr(condition, instructions);
        let jump = Instruction::JumpIfZero {
            condition: condition_value,
            target: else_label.clone(),
        };
        let ghost since = test.code.push(jump@);
        emit_after(instructions, jump, Ghost(before), Ghost(test.code));
        self.gen_stmt(then_branch, instructions);
        let ghost then_code = lower_statement(then_branch@, after_test);
        proof {
            lemma_appended(before, since, then_code);
        }
        let ghost since = since + then_code;
        let skip = Instruction::Jump { target: end_label.clone() };
        let ghost since_skip = since.push(skip@);
        emit_after(instructions, skip, Ghost(before), Ghost(since));
        let ghost since_else = since_skip.push(InstructionView::Label(else_label@));
        emit_after(instructions, Instruction::Label(else_label), Ghost(before), Ghost(since_skip));
        self.gen_stmt(else_branch, instructions);
        let ghost else_code = lower_statement(
            else_branch@,
            after_test + statement_names(then_branch@),
        );
        proof {
            lemma_appended(before, since_else, else_code);
        }
        emit_after(
            instructions,
            Instruction::Label(end_label),
            Ghost(before),
            Ghost(since_else + else_code),
        );
    }

    /// Lowers a `while` loop with the given label.
    fn gen_while(
        &mut self,
        condition: &ast::Expr,
        body: &ast::Stmt,
        label: String,
        instructions: &mut Vec<Instruction>,
        Ghost(parent): Ghost<ast::Stmt>,
    )
        requires
            decreases_to!(parent => body),
            targets_are_variables(condition@),
            checked_statement(body@, true),
            old(self).counter + expr_names(condition@) + statement_names(body@) <= usize::MAX,
        ensures
            final(self).counter == old(self).counter + expr_names(condition@) + statement_names(
                body@,
            ),
            instructions_view(final(instructions)@) == instructions_view(old(instructions)@)
                + lower_statement(
                ast::StmtView::While {
                    condition: condition@,
                    body: Box::new(body@),
                    label: Some(label@),
                },
                old(self).counter as nat,
            ),
        decreases parent, 0nat,
    {
        let ghost before = instructions_view(instructions@);
        let ghost counter = self.counter as nat;
        let ghost test = lower_expr(condition@, counter);
        let head = Instruction::Label(prefixed("continue.", &label));
        let ghost since = seq![head@];
        emit_first(instructions, head);
        let condition_value = self.gen_expr(condition, instructions);
        proof {
            lemma_appended(before, since, test.code);
        }
        let ghost since = since + test.code;
        let leave = Instruction::JumpIfZero {
            condition: condition_value,
            target: prefixed("break.", &label),
        };
        let ghost since_leave = since.push(leave@);
        emit_after(instructions, leave, Ghost(before), Ghost(since));
        self.gen_stmt(body, instructions);
        let ghost body_code = lower_statement(body@, counter + expr_names(condition@));
        proof {
            lemma_appended(before, since_leave, body_code);
        }
        let ghost since = since_leave + body_code;
        let again = Instruction::Jump { target: prefixed("continue.", &label) };
        let ghost since_again = since.push(again@);
        emit_after(instructions, again, Ghost(before), Ghost(since));
        emit_after(
            instructions,
            Instruction::Label(prefixed("break.", &label)),
            Ghost(before),
            Ghost(since_again),
        );
    }

    /// Lowers a `do` loop with the given label.
    fn gen_do_while(
        &mut self,
        body: &ast::Stmt,
        condition: &ast::Expr,
        label: String,
        instructions: &mut Vec<Instruction>,
        Ghost(parent): Ghost<ast::Stmt>,
    )
        requires
            decreases_to!(parent => body),
            targets_are_variables(condition@),
            checked_statement(body@, true),
            old(self).counter + statement_names(body@) + expr_names(condition@) <= usize::MAX,
        ensures
            final(self).counter == old(self).counter + statement_names(body@) + expr_names(
                condition@,
            ),
            instructions_view(final(instructions)@) == instructions_view(old(instructions)@)
                + lower_statement(
                ast::StmtView::DoWhile {
                    body: Box::new(body@),
                    condition: condition@,
                    label: Some(label@),
                },
                old(self).counter as nat,
            ),
        decreases parent, 0nat,
    {
        let ghost before = instructions_view(instructions@);
        let ghost counter = self.counter as nat;
        let ghost test = lower_expr(condition@, counter + statement_names(body@));
        let head = Instruction::Label(prefixed("start.", &label));
        let ghost since = seq![head@];
        emit_first(instructions, head);
        self.gen_stmt(body, instructions);
        let ghost body_code = lower_statement(body@, counter);
        proof {
            lemma_appended(before, since, body_code);
        }
        let ghost since = since + body_code;
        let next = Instruction::Label(prefixed("continue.", &label));
        let ghost since_next = since.push(next@);
        emit_after(instructions, next, Ghost(before), Ghost(since));
        let condition_value = self.gen_expr(condition, instructions);
        proof {
            lemma_appended(before, since_next, test.code);
        }
        let ghost since = since_next + test.code;
        let again = Instruction::JumpIfNotZero {
            condition: condition_value,
            target: prefixed("start.", &label),
        };
        let ghost since_again = since.push(again@);
        emit_after(instructions, again, Ghost(before), Ghost(since));
        emit_after(
            instructions,
            Instruction::Label(prefixed("break.", &label)),
            Ghost(before),
            Ghost(since_again),
        );
    }

    /// Lowers a `for` loop with the given label.
    fn gen_for(
        &mut self,
        init: &ast::ForInit,
        condition: &Option<ast::Expr>,
        post: &Option<ast::Expr>,
        body: &ast::Stmt,
        label: String,
        instructions: &mut Vec<Instruction>,
        Ghost(parent): Ghost<ast::Stmt>,
    )
        requires
            decreases_to!(parent => body),
            match init@ {
                ast::ForInitView::InitDecl(decl) => optional_targets_are_variables(decl.init),
                ast::ForInitView::InitExp(expr) => optional_targets_are_variables(expr),
            },
            optional_targets_are_variables(ast::opt_expr_view(*condition)),
            optional_targets_are_variables(ast::opt_expr_view(*post)),
            checked_statement(body@, true),
            old(self).counter + for_init_names(init@) + optional_names(
                ast::opt_expr_view(*condition),
            ) + statement_names(body@) + optional_names(ast::opt_expr_view(*post)) <= usize::MAX,
        ensures
            final(self).counter == old(self).counter + for_init_names(init@) + optional_names(
                ast::opt_expr_view(*condition),
            ) + statement_names(body@) + optional_names(ast::opt_expr_view(*post)),
            instructions_view(final(instructions)@) == instructions_view(old(instructions)@)
                + lower_statement(
                ast::StmtView::For {
                    init: init@,
                    condition: ast::opt_expr_view(*condition),
                    post: ast::opt_expr_view(*post),
                    body: Box::new(body@),
                    label: Some(label@),
                },
                old(self).counter as nat,
            ),
        decreases parent, 0nat,
    {
        let ghost before = instructions_view(instructions@);
        let ghost counter = self.counter as nat;
        let ghost after_init = counter + for_init_names(init@);
        let ghost after_test = after_init + optional_names(ast::opt_expr_view(*condition));
        let ghost after_body = after_test + statement_names(body@);
        match init {
            ast::ForInit::InitDecl(decleration) => self.gen_decleration(decleration, instructions),
            ast::ForInit::InitExp(expr) => self.gen_optional(expr, instructions),
        }
        let ghost since = lower_for_init(init@, counter);
        let start = Instruction::Label(prefixed("start.", &label));
        let ghost since_start = since.push(start@);
        emit_after(instructions, start, Ghost(before), Ghost(since));
        let ghost head = instructions_view(instructions@);
        match condition {
            Some(condition) => {
                let condition_value = self.gen_expr(condition, instructions);
                emit(
                    instructions,
                    Instruction::JumpIfZero {
                        condition: condition_value,
                        target: prefixed("break.", &label),
                    },
                );
                assert(instructions_view(instructions@) =~= head + lower_for_condition(
                    ast::opt_expr_view(Some(*condition)),
                    label@,
                    after_init,
                ));
            },
            None => {
                assert(instructions_view(instructions@) =~= head + lower_for_condition(
                    None,
                    label@,
                    after_init,
                ));
            },
        }
        let ghost test = lower_for_condition(ast::opt_expr_view(*condition), label@, after_init);
        proof {
            lemma_appended(before, since_start, test);
        }
        let ghost since_test = since_start + test;
        self.gen_stmt(body, instructions);
        proof {
            lemma_appended(before, since_test, lower_statement(body@, after_test));
        }
        let ghost since_body = since_test + lower_statement(body@, after_test);
        let next = Instruction::Label(prefixed("continue.", &label));
        let ghost since_next = since_body.push(next@);
        emit_after(instructions, next, Ghost(before), Ghost(since_body));
        self.gen_optional(post, instructions);
        proof {
            lemma_appended(
                before,
                since_next,
                lower_optional(ast::opt_expr_view(*post), after_body),
            );
        }
        let ghost since_post = since_next + lower_optional(ast::opt_expr_view(*post), after_body);
        let again = Instruction::Jump { target: prefixed("start.", &label) };
        let ghost since_again = since_post.push(again@);
        emit_after(instructions, again, Ghost(before), Ghost(since_post));
        emit_after(
            instructions,
            Instruction::Label(prefixed("break.", &label)),
            Ghost(before),
            Ghost(since_again),
        );
    }

    /// Mints a temporary.
    fn gen_temp(&mut self) -> (name: String)
        requires
            old(self).counter < usize::MAX,
        ensures
            name@ == temp(old(self).counter as nat),
            final(self).counter == old(self).counter + 1,
    {
        let temp = make_unique_name("temp", self.counter);
        self.counter += 1;
        temp
    }

    /// Mints a label with the given prefix.
    fn gen_label(&mut self, prefix: &str) -> (name: String)
        requires
            old(self).counter < usize::MAX,
        ensures
            name@ == unique_name(prefix@, old(self).counter as nat),
            final(self).counter == old(self).counter + 1,
    {
        let label = make_unique_name(prefix, self.counter);
        self.counter += 1;
        label
    }

    fn gen_compound_assignment_operator(operator: ast::AssignmentOp) -> (irc_operator: Option<
        BinaryOp,
    >)
        ensures
            irc_operator == lower_assignment(operator),
    {
        match operator {
            ast::AssignmentOp::Equal => None,
            ast::AssignmentOp::PlusEqual => Some(BinaryOp::Add),
            ast::AssignmentOp::SubtractEqual => Some(BinaryOp::Subtract),
            ast::AssignmentOp::MultipleEqual => Some(BinaryOp::Multiply),
            ast::AssignmentOp::DivideEqual => Some(BinaryOp::Divide),
            ast::AssignmentOp::RemainderEqual => Some(BinaryOp::Remainder),
            ast::AssignmentOp::BitAndEqual => Some(BinaryOp::BitAnd),
            ast::AssignmentOp::BitOrEqual => Some(BinaryOp::BitOr),
            ast::AssignmentOp::XorEqual => Some(BinaryOp::Xor),
            ast::AssignmentOp::RightShiftEqual => Some(BinaryOp::RightShift),
            ast::AssignmentOp::LeftShiftEqual => Some(BinaryOp::LeftShift),
        }
    }

    fn gen_unary(operator: ast::UnaryOp) -> (irc_operator: Option<UnaryOp>)
        ensures
            irc_operator == lower_unary(operator),
    {
        match operator {
            ast::UnaryOp::Complement => Some(UnaryOp::Complement),
            ast::UnaryOp::Negate => Some(UnaryOp::Negate),
            ast::UnaryOp::Not => Some(UnaryOp::Not),
            ast::UnaryOp::PrefixInc
            | ast::UnaryOp::PrefixDec
            | ast::UnaryOp::PostFixInc
            | ast::UnaryOp::PostFixDec => None,
        }
    }

    fn gen_binary(operator: ast::BinaryOp) -> (irc_operator: Option<BinaryOp>)
        ensures
            irc_operator == lower_binary(operator),
    {
        match operator {
            ast::BinaryOp::Add => Some(BinaryOp::Add),
            ast::BinaryOp::Subtract => Some(BinaryOp::Subtract),
            ast::BinaryOp::Multiply => Some(BinaryOp::Multiply),
            ast::BinaryOp::Divide => Some(BinaryOp::Divide),
            ast::BinaryOp::Remainder => Some(BinaryOp::Remainder),
            ast::BinaryOp::LeftShift => Some(BinaryOp::LeftShift),
            ast::BinaryOp::RightShift => Some(BinaryOp::RightShift),
            ast::BinaryOp::BitAnd => Some(BinaryOp::BitAnd),
            ast::BinaryOp::Xor => Some(BinaryOp::Xor),
            ast::BinaryOp::BitOr => Some(BinaryOp::BitOr),
            ast::BinaryOp::Equal => Some(BinaryOp::Equal),
            ast::BinaryOp::NotEqual => Some(BinaryOp::NotEqual),
            ast::BinaryOp::LessThan => Some(BinaryOp::LessThan),
            ast::BinaryOp::LessOrEqual => Some(BinaryOp::LessOrEqual),
            ast::BinaryOp::GreaterThan => Some(BinaryOp::GreaterThan),
            ast::BinaryOp::GreaterOrEqual => Some(BinaryOp::GreaterOrEqual),
            ast::BinaryOp::And | ast::BinaryOp::Or => None,
        }
    }
}

} // verus!
