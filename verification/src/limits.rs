//! How large what the passes build can get: the names they mint and the
//! instructions they write are bounded by the size of the syntax tree, and
//! so by the length of the source.

use vstd::prelude::*;
use crate::asm_ast;
use crate::ast::{
    BlockItemView, ExprView, ForInitView, FunctionView, StmtView, declaration_size, expr_size,
    for_init_size, item_size, items_size, optional_size, statement_size,
};
use crate::code_gen::{
    assign_instructions, assign_operand, frame_size, lemma_assign_operand, pseudo_names,
    select_instructions, select_program,
};
use crate::irc;
use crate::irc_gen::{
    expr_names, for_init_names, item_names, items_names, lower_conditional, lower_declaration,
    lower_expr, lower_for_condition, lower_for_init, lower_item, lower_items, lower_optional,
    lower_program, lower_short_circuit, lower_statement, optional_names, statement_names,
};
use crate::label_resolution::{item_loops, items_loops, statement_loops};
use crate::var_resolution::{item_declarations, items_declarations, statement_declarations};

verus! {

/// A statement has no more declarations and loops than it has nodes.
pub proof fn lemma_statement_counts(stmt: StmtView)
    ensures
        statement_declarations(stmt) + statement_loops(stmt) <= statement_size(stmt),
    decreases stmt, 0nat,
{
    match stmt {
        StmtView::If { condition, then_branch, else_branch } => {
            lemma_statement_counts(*then_branch);
            match else_branch {
                Some(else_branch) => {
                    lemma_statement_counts(*else_branch);
                },
                None => {},
            }
        },
        StmtView::Label(_, stmt) => {
            lemma_statement_counts(*stmt);
        },
        StmtView::While { body, .. } => {
            lemma_statement_counts(*body);
        },
        StmtView::DoWhile { body, .. } => {
            lemma_statement_counts(*body);
        },
        StmtView::For { body, .. } => {
            lemma_statement_counts(*body);
        },
        StmtView::Compound(items) => {
            lemma_items_counts(items, 0);
        },
        _ => {},
    }
}

/// The items of a block have no more declarations and loops than they have
/// nodes.
pub proof fn lemma_items_counts(items: Seq<BlockItemView>, from: nat)
    ensures
        items_declarations(items, from) + items_loops(items, from) <= items_size(items, from),
    decreases items, items.len() - from,
{
    if from < items.len() {
        let item = items[from as int];
        match item {
            BlockItemView::Statement(stmt) => {
                lemma_statement_counts(stmt);
            },
            BlockItemView::Decleration(_) => {},
        }
        assert(item_declarations(item) + item_loops(item) <= item_size(item));
        lemma_items_counts(items, from + 1);
        assert(items_declarations(items, from) == item_declarations(item) + items_declarations(
            items,
            from + 1,
        ));
        assert(items_loops(items, from) == item_loops(item) + items_loops(items, from + 1));
        assert(items_size(items, from) == item_size(item) + items_size(items, from + 1));
    }
}

/// The lowering of an expression mints at most three names for each node.
pub proof fn lemma_expr_names(expr: ExprView)
    ensures
        expr_names(expr) <= 3 * expr_size(expr),
    decreases expr,
{
    match expr {
        ExprView::Constant(_) => {},
        ExprView::Var(_) => {},
        ExprView::Unary { operator, right } => {
            lemma_expr_names(*right);
        },
        ExprView::Binary { operator, left, right } => {
            lemma_expr_names(*left);
            lemma_expr_names(*right);
        },
        ExprView::Assignment { operator, left, right } => {
            lemma_expr_names(*right);
        },
        ExprView::Conditional { condition, then_branch, else_branch } => {
            lemma_expr_names(*condition);
            lemma_expr_names(*then_branch);
            lemma_expr_names(*else_branch);
        },
    }
}

/// The lowering of an expression writes at most seven instructions for
/// each node.
pub proof fn lemma_expr_code(expr: ExprView, counter: nat)
    ensures
        lower_expr(expr, counter).code.len() <= 7 * expr_size(expr),
    decreases expr,
{
    match expr {
        ExprView::Constant(_) => {},
        ExprView::Var(_) => {},
        ExprView::Unary { operator, right } => {
            lemma_expr_code(*right, counter);
        },
        ExprView::Binary { operator, left, right } => {
            let plain_left = lower_expr(*left, counter);
            let plain_right = lower_expr(*right, counter + expr_names(*left));
            let v1 = lower_expr(*left, counter + 1);
            let v2 = lower_expr(*right, counter + 3 + expr_names(*left));
            lemma_expr_code(*left, counter);
            lemma_expr_code(*left, counter + 1);
            lemma_expr_code(*right, counter + expr_names(*left));
            lemma_expr_code(*right, counter + 3 + expr_names(*left));
            assert(lower_short_circuit(
                operator == crate::ast::BinaryOp::And,
                v1,
                counter + 1 + expr_names(*left),
                v2,
                counter,
            ).code.len() == v1.code.len() + v2.code.len() + 7);
            assert((plain_left.code + plain_right.code).len() == plain_left.code.len()
                + plain_right.code.len());
        },
        ExprView::Assignment { operator, left, right } => {
            lemma_expr_code(*right, counter);
        },
        ExprView::Conditional { condition, then_branch, else_branch } => {
            let c = lower_expr(*condition, counter + 3);
            let v1 = lower_expr(*then_branch, counter + 3 + expr_names(*condition));
            let v2 = lower_expr(
                *else_branch,
                counter + 3 + expr_names(*condition) + expr_names(*then_branch),
            );
            lemma_expr_code(*condition, counter + 3);
            lemma_expr_code(*then_branch, counter + 3 + expr_names(*condition));
            lemma_expr_code(
                *else_branch,
                counter + 3 + expr_names(*condition) + expr_names(*then_branch),
            );
            assert(lower_conditional(c, v1, v2, counter).code.len() == c.code.len()
                + v1.code.len() + v2.code.len() + 6);
        },
    }
}

/// The same of an expression that may be left out.
pub proof fn lemma_optional_bounds(expr: Option<ExprView>, counter: nat)
    ensures
        optional_names(expr) <= 3 * optional_size(expr),
        lower_optional(expr, counter).len() <= 7 * optional_size(expr),
{
    match expr {
        Some(expr) => {
            lemma_expr_names(expr);
            lemma_expr_code(expr, counter);
        },
        None => {},
    }
}

/// The same of a declaration.
pub proof fn lemma_declaration_bounds(decl: crate::ast::DeclView, counter: nat)
    ensures
        optional_names(decl.init) <= 3 * declaration_size(decl),
        lower_declaration(decl, counter).len() <= 7 * declaration_size(decl),
{
    lemma_optional_bounds(decl.init, counter);
}

/// The same of the initializer of a `for` loop.
pub proof fn lemma_for_init_bounds(init: ForInitView, counter: nat)
    ensures
        for_init_names(init) <= 3 * for_init_size(init),
        lower_for_init(init, counter).len() <= 7 * for_init_size(init),
{
    match init {
        ForInitView::InitDecl(decl) => {
            lemma_declaration_bounds(decl, counter);
        },
        ForInitView::InitExp(expr) => {
            lemma_optional_bounds(expr, counter);
        },
    }
}

/// The lowering of a statement mints at most three names for each node.
pub proof fn lemma_statement_names(stmt: StmtView)
    ensures
        statement_names(stmt) <= 3 * statement_size(stmt),
    decreases stmt, 0nat,
{
    match stmt {
        StmtView::Return(expr) => {
            lemma_expr_names(expr);
        },
        StmtView::Expression(expr) => {
            lemma_expr_names(expr);
        },
        StmtView::If { condition, then_branch, else_branch } => {
            lemma_expr_names(condition);
            lemma_statement_names(*then_branch);
            match else_branch {
                None => {},
                Some(else_branch) => {
                    lemma_statement_names(*else_branch);
                },
            }
        },
        StmtView::Label(_, stmt) => {
            lemma_statement_names(*stmt);
        },
        StmtView::While { condition, body, .. } => {
            lemma_expr_names(condition);
            lemma_statement_names(*body);
        },
        StmtView::DoWhile { body, condition, .. } => {
            lemma_statement_names(*body);
            lemma_expr_names(condition);
        },
        StmtView::For { init, condition, post, body, .. } => {
            lemma_for_init_bounds(init, 0);
            lemma_optional_bounds(condition, 0);
            lemma_optional_bounds(post, 0);
            lemma_statement_names(*body);
        },
        StmtView::Compound(items) => {
            lemma_items_names(items, 0);
        },
        _ => {},
    }
}

/// The same of the items of a block.
pub proof fn lemma_items_names(items: Seq<BlockItemView>, from: nat)
    ensures
        items_names(items, from) <= 3 * items_size(items, from),
    decreases items, items.len() - from,
{
    if from < items.len() {
        let item = items[from as int];
        match item {
            BlockItemView::Statement(stmt) => {
                lemma_statement_names(stmt);
            },
            BlockItemView::Decleration(decl) => {
                lemma_declaration_bounds(decl, 0);
            },
        }
        assert(item_names(item) <= 3 * item_size(item));
        lemma_items_names(items, from + 1);
        assert(items_names(items, from) == item_names(item) + items_names(items, from + 1));
        assert(items_size(items, from) == item_size(item) + items_size(items, from + 1));
    }
}

/// The lowering of a loop writes at most seven instructions for each node.
proof fn lemma_loop_code(stmt: StmtView, counter: nat)
    requires
        stmt is While || stmt is DoWhile || stmt is For,
    ensures
        lower_statement(stmt, counter).len() <= 7 * statement_size(stmt),
    decreases stmt, 0nat,
{
    match stmt {
        StmtView::While { condition, body, .. } => {
            lemma_expr_code(condition, counter);
            lemma_statement_code(*body, counter + expr_names(condition));
            assert(lower_statement(stmt, counter).len() == lower_expr(
                condition,
                counter,
            ).code.len() + lower_statement(*body, counter + expr_names(condition)).len() + 4);
        },
        StmtView::DoWhile { body, condition, .. } => {
            lemma_statement_code(*body, counter);
            lemma_expr_code(condition, counter + statement_names(*body));
            assert(lower_statement(stmt, counter).len() == lower_expr(
                condition,
                counter + statement_names(*body),
            ).code.len() + lower_statement(*body, counter).len() + 4);
        },
        StmtView::For { init, condition, post, body, label } => {
            let after_init = counter + for_init_names(init);
            let after_test = after_init + optional_names(condition);
            let after_body = after_test + statement_names(*body);
            lemma_for_init_bounds(init, counter);
            lemma_optional_bounds(condition, after_init);
            lemma_optional_bounds(post, after_body);
            lemma_statement_code(*body, after_test);
            let name = crate::irc_gen::carried_label(label);
            assert(lower_for_condition(condition, name, after_init).len() <= lower_optional(
                condition,
                after_init,
            ).len() + 1);
            assert(lower_statement(stmt, counter).len() == lower_for_init(init, counter).len()
                + lower_for_condition(condition, name, after_init).len() + lower_statement(
                *body,
                after_test,
            ).len() + lower_optional(post, after_body).len() + 4);
        },
        _ => {},
    }
}

/// The lowering of a statement writes at most seven instructions for each
/// node.
pub proof fn lemma_statement_code(stmt: StmtView, counter: nat)
    ensures
        lower_statement(stmt, counter).len() <= 7 * statement_size(stmt),
    decreases stmt, 1nat,
{
    match stmt {
        StmtView::Return(expr) => {
            lemma_expr_code(expr, counter);
        },
        StmtView::Expression(expr) => {
            lemma_expr_code(expr, counter);
        },
        StmtView::If { condition, then_branch, else_branch } => {
            match else_branch {
                None => {
                    lemma_expr_code(condition, counter + 1);
                    lemma_statement_code(*then_branch, counter + 1 + expr_names(condition));
                    assert(lower_statement(stmt, counter).len() == lower_expr(
                        condition,
                        counter + 1,
                    ).code.len() + lower_statement(
                        *then_branch,
                        counter + 1 + expr_names(condition),
                    ).len() + 2);
                },
                Some(else_branch) => {
                    lemma_expr_code(condition, counter + 2);
                    let after_test = counter + 2 + expr_names(condition);
                    lemma_statement_code(*then_branch, after_test);
                    lemma_statement_code(
                        *else_branch,
                        after_test + statement_names(*then_branch),
                    );
                    assert(lower_statement(stmt, counter).len() == lower_expr(
                        condition,
                        counter + 2,
                    ).code.len() + lower_statement(*then_branch, after_test).len()
                        + lower_statement(
                        *else_branch,
                        after_test + statement_names(*then_branch),
                    ).len() + 4);
                },
            }
        },
        StmtView::Label(_, inner) => {
            lemma_statement_code(*inner, counter);
        },
        StmtView::While { .. } => {
            lemma_loop_code(stmt, counter);
        },
        StmtView::DoWhile { .. } => {
            lemma_loop_code(stmt, counter);
        },
        StmtView::For { .. } => {
            lemma_loop_code(stmt, counter);
        },
        StmtView::Compound(items) => {
            lemma_items_code(items, 0, counter);
        },
        _ => {},
    }
}

/// The same of the items of a block.
pub proof fn lemma_items_code(items: Seq<BlockItemView>, from: nat, counter: nat)
    ensures
        lower_items(items, from, counter).len() <= 7 * items_size(items, from),
    decreases items, items.len() - from,
{
    if from < items.len() {
        let item = items[from as int];
        match item {
            BlockItemView::Statement(stmt) => {
                lemma_statement_code(stmt, counter);
            },
            BlockItemView::Decleration(decl) => {
                lemma_declaration_bounds(decl, counter);
            },
        }
        assert(lower_item(item, counter).len() <= 7 * item_size(item));
        lemma_items_code(items, from + 1, counter + item_names(item));
        assert(lower_items(items, from, counter).len() == lower_item(item, counter).len()
            + lower_items(items, from + 1, counter + item_names(item)).len());
        assert(items_size(items, from) == item_size(item) + items_size(items, from + 1));
    }
}

/// Instruction selection writes at most four machine instructions for each
/// instruction of the three-address code.
pub proof fn lemma_select_bound(instructions: Seq<irc::InstructionView>)
    ensures
        select_instructions(instructions).len() <= 4 * instructions.len(),
    decreases instructions.len(),
{
    if instructions.len() > 0 {
        lemma_select_bound(instructions.drop_last());
    }
}

/// A program has at most two pseudo-registers for each instruction.
pub proof fn lemma_pseudo_bound(instructions: Seq<asm_ast::InstructionView>)
    ensures
        assign_instructions(instructions).1.len() <= 2 * instructions.len(),
    decreases instructions.len(),
{
    if instructions.len() > 0 {
        lemma_pseudo_bound(instructions.drop_last());
        let names = assign_instructions(instructions.drop_last()).1;
        match instructions.last() {
            asm_ast::InstructionView::Mov { src, dst } => {
                lemma_assign_operand(src, names);
                lemma_assign_operand(dst, assign_operand(src, names).1);
            },
            asm_ast::InstructionView::Unary { operator, operand } => {
                lemma_assign_operand(operand, names);
            },
            asm_ast::InstructionView::Binary { operator, operand1, operand2 } => {
                lemma_assign_operand(operand1, names);
                lemma_assign_operand(operand2, assign_operand(operand1, names).1);
            },
            asm_ast::InstructionView::Cmp { operand1, operand2 } => {
                lemma_assign_operand(operand1, names);
                lemma_assign_operand(operand2, assign_operand(operand1, names).1);
            },
            asm_ast::InstructionView::SetCC { cond_code, operand } => {
                lemma_assign_operand(operand, names);
            },
            asm_ast::InstructionView::Idiv(operand) => {
                lemma_assign_operand(operand, names);
            },
            _ => {},
        }
    }
}

/// The frame of the machine program of a syntax tree is bounded by the size
/// of the tree.
pub proof fn lemma_frame_bound(program: FunctionView, counter: nat)
    ensures
        frame_size(pseudo_names(select_program(lower_program(program, counter))).len()) <= 224
            * items_size(program.body, 0) + 47,
{
    let lowered = lower_program(program, counter);
    let machine = select_program(lowered);
    lemma_items_code(program.body, 0, counter);
    lemma_select_bound(lowered.instructions);
    lemma_pseudo_bound(machine.instructions);
}

} // verus!
