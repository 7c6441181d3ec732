//! Variable resolution: every variable gets a name of its own, and every use
//! of a variable is bound to the declaration in scope.
//!
//! A scope maps the source name of a variable to its unique name and to
//! whether it was declared in the current block. Entering a block clears
//! the flags, so that a declaration in the block may shadow one from
//! outside, while one that repeats a declaration of the block itself is an
//! error. Leaving the block restores the scope as it was.

use vstd::prelude::*;
use vstd::string::*;
use crate::ast::{
    Block, BlockItem, BlockItemView, DeclView, Decleration, Expr, ExprView, ForInit, ForInitView,
    Function, FunctionView, Program, Stmt, StmtView, UnaryOp, changes_operand, checked_item,
    checked_items, checked_statement, declaration_size, expr_size, for_init_size, item_size,
    items_size, items_view, optional_size, statement_size, lemma_items_view, lemma_items_view_push,
    name_view, opt_expr_view, optional_targets_are_variables, targets_are_variables,
};
use crate::label_resolution::{item_loops, items_loops, statement_loops};
use crate::lexer::same_text;
use crate::resolution::ResolveError;
use crate::text::{lemma_unique_name_injective, make_unique_name, unique_name};
use crate::Error;

verus! {

/// What a scope knows of a variable: its unique name, and whether it was
/// declared in the current block.
pub struct Binding {
    pub unique: Seq<char>,
    pub here: bool,
}

/// A scope: the variables that can be named, by their source names.
pub type Bindings = Map<Seq<char>, Binding>;

/// The scope inside a block that is entered from `scope`: the same
/// variables, none of them declared in the block yet.
pub open spec fn enter_scope(scope: Bindings) -> Bindings {
    Map::new(
        |name: Seq<char>| scope.contains_key(name),
        |name: Seq<char>| Binding { unique: scope[name].unique, here: false },
    )
}

/// The expression with each variable replaced by its unique name. The
/// operands of a binary operator are resolved right to left, all others
/// left to right; the first error found is the result.
pub open spec fn resolve_expr(expr: ExprView, scope: Bindings) -> Result<ExprView, ResolveError>
    decreases expr,
{
    match expr {
        ExprView::Constant(value) => Ok(ExprView::Constant(value)),
        ExprView::Var(name) => {
            if scope.contains_key(name) {
                Ok(ExprView::Var(scope[name].unique))
            } else {
                Err(ResolveError::UndeclaredVariable)
            }
        },
        ExprView::Unary { operator, right } => {
            if changes_operand(operator) && !(*right is Var) {
                Err(ResolveError::InvalidLValue)
            } else {
                match resolve_expr(*right, scope) {
                    Err(error) => Err(error),
                    Ok(right) => Ok(ExprView::Unary { operator, right: Box::new(right) }),
                }
            }
        },
        ExprView::Binary { operator, left, right } => match resolve_expr(*right, scope) {
            Err(error) => Err(error),
            Ok(right) => match resolve_expr(*left, scope) {
                Err(error) => Err(error),
                Ok(left) => Ok(
                    ExprView::Binary { operator, left: Box::new(left), right: Box::new(right) },
                ),
            },
        },
        ExprView::Assignment { operator, left, right } => {
            if !(*left is Var) {
                Err(ResolveError::InvalidLValue)
            } else {
                match resolve_expr(*left, scope) {
                    Err(error) => Err(error),
                    Ok(left) => match resolve_expr(*right, scope) {
                        Err(error) => Err(error),
                        Ok(right) => Ok(
                            ExprView::Assignment {
                                operator,
                                left: Box::new(left),
                                right: Box::new(right),
                            },
                        ),
                    },
                }
            }
        },
        ExprView::Conditional { condition, then_branch, else_branch } => match resolve_expr(
            *condition,
            scope,
        ) {
            Err(error) => Err(error),
            Ok(condition) => match resolve_expr(*then_branch, scope) {
                Err(error) => Err(error),
                Ok(then_branch) => match resolve_expr(*else_branch, scope) {
                    Err(error) => Err(error),
                    Ok(else_branch) => Ok(
                        ExprView::Conditional {
                            condition: Box::new(condition),
                            then_branch: Box::new(then_branch),
                            else_branch: Box::new(else_branch),
                        },
                    ),
                },
            },
        },
    }
}

/// An expression that may be left out, resolved where it is there.
pub open spec fn resolve_optional(expr: Option<ExprView>, scope: Bindings) -> Result<
    Option<ExprView>,
    ResolveError,
> {
    match expr {
        None => Ok(None),
        Some(expr) => match resolve_expr(expr, scope) {
            Err(error) => Err(error),
            Ok(expr) => Ok(Some(expr)),
        },
    }
}

/// A declaration, resolved: the variable gets the unique name minted from
/// its source name and the counter, and the scope binds the source name to
/// it from the initializer on. A variable that the current block declares
/// already cannot be declared again.
pub open spec fn resolve_declaration(decl: DeclView, scope: Bindings, counter: nat) -> Result<
    (DeclView, Bindings),
    ResolveError,
> {
    if scope.contains_key(decl.name) && scope[decl.name].here {
        Err(ResolveError::DuplicateDeclaration)
    } else {
        let unique = unique_name(decl.name, counter);
        let scope = scope.insert(decl.name, Binding { unique, here: true });
        match resolve_optional(decl.init, scope) {
            Err(error) => Err(error),
            Ok(init) => Ok((DeclView { name: unique, init }, scope)),
        }
    }
}

/// The initializer of a `for` loop, resolved, with the scope after it.
pub open spec fn resolve_for_init(init: ForInitView, scope: Bindings, counter: nat) -> Result<
    (ForInitView, Bindings),
    ResolveError,
> {
    match init {
        ForInitView::InitDecl(decl) => match resolve_declaration(decl, scope, counter) {
            Err(error) => Err(error),
            Ok((decl, scope)) => Ok((ForInitView::InitDecl(decl), scope)),
        },
        ForInitView::InitExp(expr) => match resolve_optional(expr, scope) {
            Err(error) => Err(error),
            Ok(expr) => Ok((ForInitView::InitExp(expr), scope)),
        },
    }
}

/// The number of declarations in the initializer of a `for` loop.
pub open spec fn for_init_declarations(init: ForInitView) -> nat {
    match init {
        ForInitView::InitDecl(_) => 1,
        ForInitView::InitExp(_) => 0,
    }
}

/// The number of declarations in a statement.
pub open spec fn statement_declarations(stmt: StmtView) -> nat
    decreases stmt, 0nat,
{
    match stmt {
        StmtView::If { condition, then_branch, else_branch } => statement_declarations(
            *then_branch,
        ) + (match else_branch {
            Some(else_branch) => statement_declarations(*else_branch),
            None => 0,
        }),
        StmtView::Label(_, stmt) => statement_declarations(*stmt),
        StmtView::While { body, .. } => statement_declarations(*body),
        StmtView::DoWhile { body, .. } => statement_declarations(*body),
        StmtView::For { init, body, .. } => for_init_declarations(init) + statement_declarations(
            *body,
        ),
        StmtView::Compound(items) => items_declarations(items, 0),
        _ => 0,
    }
}

/// The number of declarations in a block item.
pub open spec fn item_declarations(item: BlockItemView) -> nat
    decreases item, 0nat,
{
    match item {
        BlockItemView::Statement(stmt) => statement_declarations(stmt),
        BlockItemView::Decleration(_) => 1,
    }
}

/// The number of declarations in the items of a block from index `from` on.
pub open spec fn items_declarations(items: Seq<BlockItemView>, from: nat) -> nat
    decreases items, items.len() - from,
{
    if from >= items.len() {
        0
    } else {
        item_declarations(items[from as int]) + items_declarations(items, from + 1)
    }
}

/// A statement, resolved in a scope, with the counter from which unique
/// names are minted. A block and a `for` loop are resolved in a scope of
/// their own.
pub open spec fn resolve_statement(stmt: StmtView, scope: Bindings, counter: nat) -> Result<
    StmtView,
    ResolveError,
>
    decreases stmt, 0nat,
{
    match stmt {
        StmtView::Return(expr) => match resolve_expr(expr, scope) {
            Err(error) => Err(error),
            Ok(expr) => Ok(StmtView::Return(expr)),
        },
        StmtView::Expression(expr) => match resolve_expr(expr, scope) {
            Err(error) => Err(error),
            Ok(expr) => Ok(StmtView::Expression(expr)),
        },
        StmtView::If { condition, then_branch, else_branch } => match resolve_expr(
            condition,
            scope,
        ) {
            Err(error) => Err(error),
            Ok(condition) => match resolve_statement(*then_branch, scope, counter) {
                Err(error) => Err(error),
                Ok(resolved_then) => match else_branch {
                    None => Ok(
                        StmtView::If {
                            condition,
                            then_branch: Box::new(resolved_then),
                            else_branch: None,
                        },
                    ),
                    Some(else_branch) => match resolve_statement(
                        *else_branch,
                        scope,
                        counter + statement_declarations(*then_branch),
                    ) {
                        Err(error) => Err(error),
                        Ok(resolved_else) => Ok(
                            StmtView::If {
                                condition,
                                then_branch: Box::new(resolved_then),
                                else_branch: Some(Box::new(resolved_else)),
                            },
                        ),
                    },
                },
            },
        },
        StmtView::Label(label, stmt) => match resolve_statement(*stmt, scope, counter) {
            Err(error) => Err(error),
            Ok(stmt) => Ok(StmtView::Label(label, Box::new(stmt))),
        },
        StmtView::While { condition, body, label } => match resolve_expr(condition, scope) {
            Err(error) => Err(error),
            Ok(condition) => match resolve_statement(*body, scope, counter) {
                Err(error) => Err(error),
                Ok(body) => Ok(StmtView::While { condition, body: Box::new(body), label }),
            },
        },
        StmtView::DoWhile { body, condition, label } => match resolve_statement(
            *body,
            scope,
            counter,
        ) {
            Err(error) => Err(error),
            Ok(body) => match resolve_expr(condition, scope) {
                Err(error) => Err(error),
                Ok(condition) => Ok(StmtView::DoWhile { body: Box::new(body), condition, label }),
            },
        },
        StmtView::For { init, condition, post, body, label } => match resolve_for_init(
            init,
            enter_scope(scope),
            counter,
        ) {
            Err(error) => Err(error),
            Ok((resolved_init, inner)) => match resolve_optional(condition, inner) {
                Err(error) => Err(error),
                Ok(condition) => match resolve_optional(post, inner) {
                    Err(error) => Err(error),
                    Ok(post) => match resolve_statement(
                        *body,
                        inner,
                        counter + for_init_declarations(init),
                    ) {
                        Err(error) => Err(error),
                        Ok(body) => Ok(
                            StmtView::For {
                                init: resolved_init,
                                condition,
                                post,
                                body: Box::new(body),
                                label,
                            },
                        ),
                    },
                },
            },
        },
        StmtView::Compound(items) => match resolve_items(items, 0, enter_scope(scope), counter) {
            Err(error) => Err(error),
            Ok(items) => Ok(StmtView::Compound(items)),
        },
        StmtView::Null => Ok(StmtView::Null),
        StmtView::Goto(label) => Ok(StmtView::Goto(label)),
        StmtView::Break { label } => Ok(StmtView::Break { label }),
        StmtView::Continue { label } => Ok(StmtView::Continue { label }),
    }
}

/// A block item, resolved, with the scope after it.
pub open spec fn resolve_item(item: BlockItemView, scope: Bindings, counter: nat) -> Result<
    (BlockItemView, Bindings),
    ResolveError,
>
    decreases item, 1nat,
{
    match item {
        BlockItemView::Statement(stmt) => match resolve_statement(stmt, scope, counter) {
            Err(error) => Err(error),
            Ok(stmt) => Ok((BlockItemView::Statement(stmt), scope)),
        },
        BlockItemView::Decleration(decl) => match resolve_declaration(decl, scope, counter) {
            Err(error) => Err(error),
            Ok((decl, scope)) => Ok((BlockItemView::Decleration(decl), scope)),
        },
    }
}

/// The items of a block from index `from` on, resolved one after the other.
pub open spec fn resolve_items(
    items: Seq<BlockItemView>,
    from: nat,
    scope: Bindings,
    counter: nat,
) -> Result<Seq<BlockItemView>, ResolveError>
    decreases items, items.len() - from,
{
    if from >= items.len() {
        Ok(Seq::empty())
    } else {
        match resolve_item(items[from as int], scope, counter) {
            Err(error) => Err(error),
            Ok((item, scope)) => match resolve_items(
                items,
                from + 1,
                scope,
                counter + item_declarations(items[from as int]),
            ) {
                Err(error) => Err(error),
                Ok(rest) => Ok(seq![item] + rest),
            },
        }
    }
}

/// A program, resolved: its body in an empty scope.
pub open spec fn resolve_program(program: FunctionView, counter: nat) -> Result<
    FunctionView,
    ResolveError,
> {
    match resolve_items(program.body, 0, Map::empty(), counter) {
        Err(error) => Err(error),
        Ok(body) => Ok(FunctionView { name: program.name, body }),
    }
}

/// The variables that the initializer of a `for` loop declares.
pub open spec fn for_init_variables(init: ForInitView) -> Seq<Seq<char>> {
    match init {
        ForInitView::InitDecl(decl) => seq![decl.name],
        ForInitView::InitExp(_) => Seq::empty(),
    }
}

/// The variables that a statement declares, by the names that their
/// declarations give them, in the order of the text.
pub open spec fn statement_variables(stmt: StmtView) -> Seq<Seq<char>>
    decreases stmt, 0nat,
{
    match stmt {
        StmtView::If { condition, then_branch, else_branch } => statement_variables(*then_branch)
            + (match else_branch {
            Some(else_branch) => statement_variables(*else_branch),
            None => Seq::empty(),
        }),
        StmtView::Label(_, stmt) => statement_variables(*stmt),
        StmtView::While { body, .. } => statement_variables(*body),
        StmtView::DoWhile { body, .. } => statement_variables(*body),
        StmtView::For { init, body, .. } => for_init_variables(init) + statement_variables(*body),
        StmtView::Compound(items) => items_variables(items, 0),
        _ => Seq::empty(),
    }
}

/// The variables that a block item declares.
pub open spec fn item_variables(item: BlockItemView) -> Seq<Seq<char>>
    decreases item, 0nat,
{
    match item {
        BlockItemView::Statement(stmt) => statement_variables(stmt),
        BlockItemView::Decleration(decl) => seq![decl.name],
    }
}

/// The variables that the items of a block declare from index `from` on.
pub open spec fn items_variables(items: Seq<BlockItemView>, from: nat) -> Seq<Seq<char>>
    decreases items, items.len() - from,
{
    if from >= items.len() {
        Seq::empty()
    } else {
        item_variables(items[from as int]) + items_variables(items, from + 1)
    }
}

/// The names that are minted for a sequence of variables, one after the
/// other, from `counter` on.
pub open spec fn minted(names: Seq<Seq<char>>, counter: nat) -> Seq<Seq<char>> {
    Seq::new(names.len(), |i: int| unique_name(names[i], (counter + i) as nat))
}

/// The names minted for two sequences of variables, one after the other.
proof fn lemma_minted_append(a: Seq<Seq<char>>, b: Seq<Seq<char>>, counter: nat)
    ensures
        minted(a + b, counter) == minted(a, counter) + minted(b, counter + a.len()),
{
    assert(minted(a + b, counter) =~= minted(a, counter) + minted(b, counter + a.len()));
}

/// No name is minted twice.
pub proof fn lemma_minted_distinct(names: Seq<Seq<char>>, counter: nat)
    ensures
        minted(names, counter).no_duplicates(),
{
    assert forall|i: int, j: int|
        0 <= i < names.len() && 0 <= j < names.len() && i != j implies minted(names, counter)[i]
        != minted(names, counter)[j] by {
        if minted(names, counter)[i] == minted(names, counter)[j] {
            lemma_unique_name_injective(
                names[i],
                (counter + i) as nat,
                names[j],
                (counter + j) as nat,
            );
        }
    }
}

/// The variables of a block that follows other items are those of the
/// block alone.
proof fn lemma_items_variables_shift(
    prefix: Seq<BlockItemView>,
    rest: Seq<BlockItemView>,
    from: nat,
)
    requires
        from <= rest.len(),
    ensures
        items_variables(prefix + rest, prefix.len() + from) == items_variables(rest, from),
    decreases rest.len() - from,
{
    if from < rest.len() {
        lemma_items_variables_shift(prefix, rest, from + 1);
        assert((prefix + rest)[prefix.len() + from as int] == rest[from as int]);
    }
}

/// The declaration of a variable is resolved to one that declares the name
/// minted for it.
proof fn lemma_declaration_variable(decl: DeclView, scope: Bindings, counter: nat)
    requires
        resolve_declaration(decl, scope, counter) is Ok,
    ensures
        resolve_declaration(decl, scope, counter)->Ok_0.0.name == unique_name(decl.name, counter),
{
}

/// Resolution gives the variables of a statement the names minted for
/// them, one for each declaration, from `counter` on.
pub proof fn lemma_statement_variables(stmt: StmtView, scope: Bindings, counter: nat)
    requires
        resolve_statement(stmt, scope, counter) is Ok,
    ensures
        statement_variables(resolve_statement(stmt, scope, counter)->Ok_0) == minted(
            statement_variables(stmt),
            counter,
        ),
        statement_variables(stmt).len() == statement_declarations(stmt),
    decreases stmt, 0nat,
{
    let resolved = resolve_statement(stmt, scope, counter)->Ok_0;
    match stmt {
        StmtView::If { condition, then_branch, else_branch } => {
            lemma_statement_variables(*then_branch, scope, counter);
            match else_branch {
                Some(else_branch) => {
                    lemma_statement_variables(
                        *else_branch,
                        scope,
                        counter + statement_declarations(*then_branch),
                    );
                    lemma_minted_append(
                        statement_variables(*then_branch),
                        statement_variables(*else_branch),
                        counter,
                    );
                },
                None => {
                    lemma_minted_append(
                        statement_variables(*then_branch),
                        Seq::empty(),
                        counter,
                    );
                    assert(minted(Seq::empty(), counter + statement_declarations(*then_branch))
                        =~= Seq::empty());
                },
            }
        },
        StmtView::Label(_, stmt) => {
            lemma_statement_variables(*stmt, scope, counter);
        },
        StmtView::While { condition, body, label } => {
            lemma_statement_variables(*body, scope, counter);
        },
        StmtView::DoWhile { body, condition, label } => {
            lemma_statement_variables(*body, scope, counter);
        },
        StmtView::For { init, condition, post, body, label } => {
            let inner = resolve_for_init(init, enter_scope(scope), counter)->Ok_0.1;
            lemma_statement_variables(*body, inner, counter + for_init_declarations(init));
            lemma_minted_append(for_init_variables(init), statement_variables(*body), counter);
            match init {
                ForInitView::InitDecl(decl) => {
                    lemma_declaration_variable(decl, enter_scope(scope), counter);
                    assert(minted(seq![decl.name], counter) =~= seq![
                        unique_name(decl.name, counter),
                    ]);
                },
                ForInitView::InitExp(_) => {
                    assert(minted(Seq::empty(), counter) =~= Seq::empty());
                },
            }
        },
        StmtView::Compound(items) => {
            lemma_items_variables(items, 0, enter_scope(scope), counter);
        },
        _ => {
            assert(minted(Seq::empty(), counter) =~= Seq::empty());
        },
    }
}

/// The same of a block item.
pub proof fn lemma_item_variables(item: BlockItemView, scope: Bindings, counter: nat)
    requires
        resolve_item(item, scope, counter) is Ok,
    ensures
        item_variables(resolve_item(item, scope, counter)->Ok_0.0) == minted(
            item_variables(item),
            counter,
        ),
        item_variables(item).len() == item_declarations(item),
    decreases item, 1nat,
{
    match item {
        BlockItemView::Statement(stmt) => {
            lemma_statement_variables(stmt, scope, counter);
        },
        BlockItemView::Decleration(decl) => {
            lemma_declaration_variable(decl, scope, counter);
            assert(minted(seq![decl.name], counter) =~= seq![unique_name(decl.name, counter)]);
        },
    }
}

/// The same of the items of a block from index `from` on.
pub proof fn lemma_items_variables(
    items: Seq<BlockItemView>,
    from: nat,
    scope: Bindings,
    counter: nat,
)
    requires
        resolve_items(items, from, scope, counter) is Ok,
    ensures
        items_variables(resolve_items(items, from, scope, counter)->Ok_0, 0) == minted(
            items_variables(items, from),
            counter,
        ),
        items_variables(items, from).len() == items_declarations(items, from),
    decreases items, items.len() - from,
{
    if from >= items.len() {
        assert(minted(Seq::empty(), counter) =~= Seq::empty());
    } else {
        let (item, inner) = resolve_item(items[from as int], scope, counter)->Ok_0;
        let after = counter + item_declarations(items[from as int]);
        let rest = resolve_items(items, from + 1, inner, after)->Ok_0;
        lemma_item_variables(items[from as int], scope, counter);
        lemma_items_variables(items, from + 1, inner, after);
        lemma_minted_append(
            item_variables(items[from as int]),
            items_variables(items, from + 1),
            counter,
        );
        lemma_items_variables_shift(seq![item], rest, 0);
        assert((seq![item] + rest)[0] == item);
    }
}

/// After the resolution of variables no two declarations of the program
/// bind the same name.
pub proof fn lemma_resolved_variables_distinct(program: FunctionView, counter: nat)
    requires
        resolve_program(program, counter) is Ok,
    ensures
        items_variables(resolve_program(program, counter)->Ok_0.body, 0).no_duplicates(),
{
    lemma_items_variables(program.body, 0, Map::empty(), counter);
    lemma_minted_distinct(items_variables(program.body, 0), counter);
}

/// The loops and the nodes of a block that follows other items are those
/// of the block alone.
pub proof fn lemma_items_counts_shift(
    prefix: Seq<BlockItemView>,
    rest: Seq<BlockItemView>,
    from: nat,
)
    requires
        from <= rest.len(),
    ensures
        items_loops(prefix + rest, prefix.len() + from) == items_loops(rest, from),
        items_size(prefix + rest, prefix.len() + from) == items_size(rest, from),
    decreases rest.len() - from,
{
    if from < rest.len() {
        lemma_items_counts_shift(prefix, rest, from + 1);
        assert((prefix + rest)[prefix.len() + from as int] == rest[from as int]);
    }
}

/// Resolution keeps the shape of an expression, and leaves a variable
/// wherever something is assigned to, incremented or decremented.
pub proof fn lemma_expr_keeps(expr: ExprView, scope: Bindings)
    requires
        resolve_expr(expr, scope) is Ok,
    ensures
        targets_are_variables(resolve_expr(expr, scope)->Ok_0),
        expr_size(resolve_expr(expr, scope)->Ok_0) == expr_size(expr),
        expr is Var ==> resolve_expr(expr, scope)->Ok_0 is Var,
    decreases expr,
{
    match expr {
        ExprView::Constant(_) => {},
        ExprView::Var(_) => {},
        ExprView::Unary { operator, right } => {
            lemma_expr_keeps(*right, scope);
        },
        ExprView::Binary { operator, left, right } => {
            lemma_expr_keeps(*right, scope);
            lemma_expr_keeps(*left, scope);
        },
        ExprView::Assignment { operator, left, right } => {
            lemma_expr_keeps(*left, scope);
            lemma_expr_keeps(*right, scope);
        },
        ExprView::Conditional { condition, then_branch, else_branch } => {
            lemma_expr_keeps(*condition, scope);
            lemma_expr_keeps(*then_branch, scope);
            lemma_expr_keeps(*else_branch, scope);
        },
    }
}

/// The same of an expression that may be left out.
pub proof fn lemma_optional_keeps(expr: Option<ExprView>, scope: Bindings)
    requires
        resolve_optional(expr, scope) is Ok,
    ensures
        optional_targets_are_variables(resolve_optional(expr, scope)->Ok_0),
        optional_size(resolve_optional(expr, scope)->Ok_0) == optional_size(expr),
{
    match expr {
        Some(expr) => {
            lemma_expr_keeps(expr, scope);
        },
        None => {},
    }
}

/// The same of a declaration.
pub proof fn lemma_declaration_keeps(decl: DeclView, scope: Bindings, counter: nat)
    requires
        resolve_declaration(decl, scope, counter) is Ok,
    ensures
        optional_targets_are_variables(resolve_declaration(decl, scope, counter)->Ok_0.0.init),
        declaration_size(resolve_declaration(decl, scope, counter)->Ok_0.0) == declaration_size(
            decl,
        ),
{
    let unique = unique_name(decl.name, counter);
    lemma_optional_keeps(decl.init, scope.insert(decl.name, Binding { unique, here: true }));
}

/// The same of the initializer of a `for` loop.
pub proof fn lemma_for_init_keeps(init: ForInitView, scope: Bindings, counter: nat)
    requires
        resolve_for_init(init, scope, counter) is Ok,
    ensures
        match resolve_for_init(init, scope, counter)->Ok_0.0 {
            ForInitView::InitDecl(decl) => optional_targets_are_variables(decl.init),
            ForInitView::InitExp(expr) => optional_targets_are_variables(expr),
        },
        for_init_size(resolve_for_init(init, scope, counter)->Ok_0.0) == for_init_size(init),
{
    match init {
        ForInitView::InitDecl(decl) => {
            lemma_declaration_keeps(decl, scope, counter);
        },
        ForInitView::InitExp(expr) => {
            lemma_optional_keeps(expr, scope);
        },
    }
}

/// Resolution keeps the shape of a statement: it has as many loops and as
/// many nodes as before, and wherever something is assigned to, incremented
/// or decremented in it, that is a variable.
pub proof fn lemma_statement_keeps(stmt: StmtView, scope: Bindings, counter: nat)
    requires
        resolve_statement(stmt, scope, counter) is Ok,
    ensures
        checked_statement(resolve_statement(stmt, scope, counter)->Ok_0, false),
        statement_loops(resolve_statement(stmt, scope, counter)->Ok_0) == statement_loops(stmt),
        statement_size(resolve_statement(stmt, scope, counter)->Ok_0) == statement_size(stmt),
    decreases stmt, 0nat,
{
    match stmt {
        StmtView::Return(expr) => {
            lemma_expr_keeps(expr, scope);
        },
        StmtView::Expression(expr) => {
            lemma_expr_keeps(expr, scope);
        },
        StmtView::If { condition, then_branch, else_branch } => {
            lemma_expr_keeps(condition, scope);
            lemma_statement_keeps(*then_branch, scope, counter);
            match else_branch {
                Some(else_branch) => {
                    lemma_statement_keeps(
                        *else_branch,
                        scope,
                        counter + statement_declarations(*then_branch),
                    );
                },
                None => {},
            }
        },
        StmtView::Label(_, inner) => {
            lemma_statement_keeps(*inner, scope, counter);
        },
        StmtView::While { condition, body, .. } => {
            lemma_expr_keeps(condition, scope);
            lemma_statement_keeps(*body, scope, counter);
        },
        StmtView::DoWhile { body, condition, .. } => {
            lemma_statement_keeps(*body, scope, counter);
            lemma_expr_keeps(condition, scope);
        },
        StmtView::For { init, condition, post, body, .. } => {
            lemma_for_init_keeps(init, enter_scope(scope), counter);
            let inner = resolve_for_init(init, enter_scope(scope), counter)->Ok_0.1;
            lemma_optional_keeps(condition, inner);
            lemma_optional_keeps(post, inner);
            lemma_statement_keeps(*body, inner, counter + for_init_declarations(init));
        },
        StmtView::Compound(items) => {
            lemma_items_keep(items, 0, enter_scope(scope), counter);
        },
        _ => {},
    }
}

/// The same of the items of a block from index `from` on.
pub proof fn lemma_items_keep(
    items: Seq<BlockItemView>,
    from: nat,
    scope: Bindings,
    counter: nat,
)
    requires
        resolve_items(items, from, scope, counter) is Ok,
    ensures
        checked_items(resolve_items(items, from, scope, counter)->Ok_0, false),
        items_loops(resolve_items(items, from, scope, counter)->Ok_0, 0) == items_loops(
            items,
            from,
        ),
        items_size(resolve_items(items, from, scope, counter)->Ok_0, 0) == items_size(
            items,
            from,
        ),
    decreases items, items.len() - from,
{
    if from < items.len() {
        let source = items[from as int];
        let (item, inner) = resolve_item(source, scope, counter)->Ok_0;
        let rest = resolve_items(items, from + 1, inner, counter + item_declarations(source))->Ok_0;
        match source {
            BlockItemView::Statement(stmt) => {
                lemma_statement_keeps(stmt, scope, counter);
            },
            BlockItemView::Decleration(decl) => {
                lemma_declaration_keeps(decl, scope, counter);
            },
        }
        lemma_items_keep(items, from + 1, inner, counter + item_declarations(source));
        lemma_items_counts_shift(seq![item], rest, 0);
        let all = seq![item] + rest;
        assert(all[0] == item);
        assert forall|i: int| 0 <= i < all.len() implies checked_item(#[trigger] all[i], false) by {
            if i > 0 {
                assert(all[i] == rest[i - 1]);
            }
        }
        assert(item_loops(item) == item_loops(source) && item_size(item) == item_size(source));
        assert(items_loops(all, 0) == item_loops(item) + items_loops(all, 1));
        assert(items_size(all, 0) == item_size(item) + items_size(all, 1));
        assert(items_loops(items, from) == item_loops(source) + items_loops(items, from + 1));
        assert(items_size(items, from) == item_size(source) + items_size(items, from + 1));
    }
}

/// An entry of a scope: a variable, its unique name, and whether it was
/// declared in the current block.
pub struct ScopeEntry {
    pub name: String,
    pub unique: String,
    pub here: bool,
}

/// The scope that a list of entries stands for. Where a name has several
/// entries, the last one counts.
pub open spec fn bindings_of(entries: Seq<ScopeEntry>) -> Bindings
    decreases entries.len(),
{
    if entries.len() == 0 {
        Map::empty()
    } else {
        bindings_of(entries.drop_last()).insert(
            entries.last().name@,
            Binding { unique: entries.last().unique@, here: entries.last().here },
        )
    }
}

/// The last entry of a name is the one that the scope holds.
proof fn lemma_bindings_lookup(entries: Seq<ScopeEntry>, name: Seq<char>, i: int)
    requires
        -1 <= i < entries.len(),
        i >= 0 ==> entries[i].name@ == name,
        forall|j: int| i < j < entries.len() ==> entries[j].name@ != name,
    ensures
        bindings_of(entries).contains_key(name) == (i >= 0),
        i >= 0 ==> bindings_of(entries)[name] == (Binding {
            unique: entries[i].unique@,
            here: entries[i].here,
        }),
    decreases entries.len(),
{
    if entries.len() > 0 {
        if i < entries.len() - 1 {
            lemma_bindings_lookup(entries.drop_last(), name, i);
        }
    }
}

/// The entry that binds `name`, if there is one.
fn lookup<'a>(scope: &'a Vec<ScopeEntry>, name: &str) -> (found: Option<&'a ScopeEntry>)
    ensures
        bindings_of(scope@).contains_key(name@) == found is Some,
        found is Some ==> bindings_of(scope@)[name@] == (Binding {
            unique: found->0.unique@,
            here: found->0.here,
        }),
{
    let mut i: usize = scope.len();
    while i > 0
        invariant
            i <= scope.len(),
            forall|j: int| i <= j < scope.len() ==> scope@[j].name@ != name@,
        decreases i,
    {
        i -= 1;
        if same_text(scope[i].name.as_str(), name) {
            proof {
                lemma_bindings_lookup(scope@, name@, i as int);
            }
            return Some(&scope[i]);
        }
    }
    proof {
        lemma_bindings_lookup(scope@, name@, -1);
    }
    None
}

/// The scope inside a block that is entered from `scope`.
fn create_new_scope(scope: &Vec<ScopeEntry>) -> (inner: Vec<ScopeEntry>)
    ensures
        bindings_of(inner@) == enter_scope(bindings_of(scope@)),
{
    let mut inner: Vec<ScopeEntry> = Vec::new();
    let mut i: usize = 0;
    assert(scope@.take(0) =~= Seq::<ScopeEntry>::empty());
    assert(bindings_of(inner@) =~= enter_scope(bindings_of(scope@.take(0))));
    while i < scope.len()
        invariant
            i <= scope.len(),
            bindings_of(inner@) == enter_scope(bindings_of(scope@.take(i as int))),
        decreases scope.len() - i,
    {
        let entry = &scope[i];
        let ghost before = inner@;
        inner.push(ScopeEntry { name: entry.name.clone(), unique: entry.unique.clone(), here: false });
        proof {
            assert(inner@.drop_last() =~= before);
            assert(scope@.take(i + 1).drop_last() =~= scope@.take(i as int));
            assert(bindings_of(inner@) =~= enter_scope(bindings_of(scope@.take(i + 1))));
        }
        i += 1;
    }
    assert(scope@.take(i as int) =~= scope@);
    inner
}

/// A copy of a label that may be absent.
pub fn clone_label(label: &Option<String>) -> (copy: Option<String>)
    ensures
        name_view(copy) == name_view(*label),
{
    match label {
        Some(name) => Some(name.clone()),
        None => None,
    }
}

fn is_var(expr: &Expr) -> (var: bool)
    ensures
        var == (expr@ is Var),
{
    match expr {
        Expr::Var(_) => true,
        _ => false,
    }
}

fn changes(operator: UnaryOp) -> (changes: bool)
    ensures
        changes == changes_operand(operator),
{
    match operator {
        UnaryOp::PrefixInc | UnaryOp::PrefixDec | UnaryOp::PostFixInc | UnaryOp::PostFixDec => true,
        _ => false,
    }
}

/// The pass that resolves variables. It holds the counter from which unique
/// names are minted.
pub struct VarResolver {
    pub counter: usize,
}

impl VarResolver {
    /// A resolver that mints its first name from `counter`.
    pub fn new(counter: usize) -> (resolver: Self)
        ensures
            resolver.counter == counter,
    {
        Self { counter }
    }

    /// Resolves the variables of the program. On an error the program and
    /// the resolver are left as they were.
    pub fn resolve_program(&mut self, program: &mut Program<'_>) -> (result: Result<(), Error>)
        requires
            old(self).counter + items_declarations(old(program)@.body, 0) <= usize::MAX,
        ensures
            match resolve_program(old(program)@, old(self).counter as nat) {
                Ok(resolved) => {
                    &&& result is Ok
                    &&& final(program)@ == resolved
                    &&& final(self).counter == old(self).counter + items_declarations(
                        old(program)@.body,
                        0,
                    )
                    &&& checked_items(resolved.body, false)
                    &&& items_loops(resolved.body, 0) == items_loops(old(program)@.body, 0)
                    &&& items_variables(resolved.body, 0).no_duplicates()
                    &&& items_size(resolved.body, 0) == items_size(old(program)@.body, 0)
                },
                Err(error) => {
                    &&& result == Err::<(), Error>(Error::Resolver(error))
                    &&& *final(program) == *old(program)
                    &&& *final(self) == *old(self)
                },
            },
    {
        proof {
            if resolve_program(program@, self.counter as nat) is Ok {
                lemma_resolved_variables_distinct(program@, self.counter as nat);
                lemma_items_keep(program@.body, 0, Map::empty(), self.counter as nat);
            }
        }
        let start = self.counter;
        match program {
            Program::Function(function) => match self.resolve_fun(function) {
                Ok(body) => {
                    function.body = body;
                    Ok(())
                },
                Err(error) => {
                    self.counter = start;
                    Err(Error::Resolver(error))
                },
            },
        }
    }

    /// Resolves the variables of the body of a function.
    pub(crate) fn resolve_fun(&mut self, function: &Function<'_>) -> (result: Result<Block, ResolveError>)
        requires
            old(self).counter + items_declarations(function@.body, 0) <= usize::MAX,
        ensures
            old(self).counter <= final(self).counter <= old(self).counter + items_declarations(
                function@.body,
                0,
            ),
            match resolve_items(function@.body, 0, Map::empty(), old(self).counter as nat) {
                Ok(resolved) => {
                    &&& result is Ok
                    &&& result->Ok_0@ == resolved
                    &&& final(self).counter == old(self).counter + items_declarations(
                        function@.body,
                        0,
                    )
                },
                Err(error) => result == Err::<Block, ResolveError>(error),
            },
    {
        let mut scope: Vec<ScopeEntry> = Vec::new();
        assert(bindings_of(scope@) =~= Map::empty());
        self.resolve_block(&function.body, &mut scope)
    }

    fn resolve_block(&mut self, block: &Block, scope: &mut Vec<ScopeEntry>) -> (result: Result<
        Block,
        ResolveError,
    >)
        requires
            old(self).counter + items_declarations(block@, 0) <= usize::MAX,
        ensures
            old(self).counter <= final(self).counter <= old(self).counter + items_declarations(
                block@,
                0,
            ),
            match resolve_items(
                block@,
                0,
                bindings_of(old(scope)@),
                old(self).counter as nat,
            ) {
                Ok(resolved) => {
                    &&& result is Ok
                    &&& result->Ok_0@ == resolved
                    &&& final(self).counter == old(self).counter + items_declarations(block@, 0)
                },
                Err(error) => result == Err::<Block, ResolveError>(error),
            },
        decreases block,
    {
        let ghost source = block@;
        let ghost first_scope = bindings_of(scope@);
        let mut items: Vec<BlockItem> = Vec::new();
        let mut i: usize = 0;
        proof {
            lemma_items_view(block.items@);
            assert(items_view(items@) =~= Seq::empty());
        }
        while i < block.items.len()
            invariant
                i <= block.items.len(),
                source == block@,
                first_scope == bindings_of(old(scope)@),
                source.len() == block.items.len(),
                forall|j: int| 0 <= j < source.len() ==> #[trigger] source[j] == block.items@[j]@,
                old(self).counter + items_declarations(source, 0) <= usize::MAX,
                old(self).counter <= self.counter,
                self.counter + items_declarations(source, i as nat) == old(self).counter
                    + items_declarations(source, 0),
                match resolve_items(source, i as nat, bindings_of(scope@), self.counter as nat) {
                    Ok(rest) => resolve_items(source, 0, first_scope, old(self).counter as nat)
                        == Ok::<Seq<BlockItemView>, ResolveError>(items_view(items@) + rest),
                    Err(error) => resolve_items(source, 0, first_scope, old(self).counter as nat)
                        == Err::<Seq<BlockItemView>, ResolveError>(error),
                },
            decreases block.items.len() - i,
        {
            let ghost seen = items_view(items@);
            let item = self.resolve_block_item(&block.items[i], scope)?;
            proof {
                lemma_items_view_push(items@, item);
                match resolve_items(source, (i + 1) as nat, bindings_of(scope@), self.counter as nat) {
                    Ok(rest) => {
                        assert(seen + (seq![item@] + rest) =~= seen.push(item@) + rest);
                    },
                    Err(_) => {},
                }
            }
            items.push(item);
            i += 1;
        }
        assert(items_view(items@) + Seq::empty() =~= items_view(items@));
        Ok(Block { items })
    }

    fn resolve_block_item(&mut self, block_item: &BlockItem, scope: &mut Vec<ScopeEntry>) -> (result:
        Result<BlockItem, ResolveError>)
        requires
            old(self).counter + item_declarations(block_item@) <= usize::MAX,
        ensures
            old(self).counter <= final(self).counter <= old(self).counter + item_declarations(
                block_item@,
            ),
            match resolve_item(block_item@, bindings_of(old(scope)@), old(self).counter as nat) {
                Ok((resolved, inner)) => {
                    &&& result is Ok
                    &&& result->Ok_0@ == resolved
                    &&& bindings_of(final(scope)@) == inner
                    &&& final(self).counter == old(self).counter + item_declarations(block_item@)
                },
                Err(error) => result == Err::<BlockItem, ResolveError>(error),
            },
        decreases block_item,
    {
        match block_item {
            BlockItem::Statement(stmt) => Ok(BlockItem::Statement(self.resolve_statement(stmt, scope)?)),
            BlockItem::Decleration(decleration) => Ok(
                BlockItem::Decleration(self.resolve_decleration(decleration, scope)?),
            ),
        }
    }

    fn resolve_decleration(&mut self, decleration: &Decleration, scope: &mut Vec<ScopeEntry>) -> (result:
        Result<Decleration, ResolveError>)
        requires
            old(self).counter + 1 <= usize::MAX,
        ensures
            old(self).counter <= final(self).counter <= old(self).counter + 1,
            match resolve_declaration(
                decleration@,
                bindings_of(old(scope)@),
                old(self).counter as nat,
            ) {
                Ok((resolved, inner)) => {
                    &&& result is Ok
                    &&& result->Ok_0@ == resolved
                    &&& bindings_of(final(scope)@) == inner
                    &&& final(self).counter == old(self).counter + 1
                },
                Err(error) => result == Err::<Decleration, ResolveError>(error),
            },
    {
        match decleration {
            Decleration::Decleration { name, init } => {
                if let Some(entry) = lookup(scope, name.as_str()) {
                    if entry.here {
                        return Err(ResolveError::DuplicateDeclaration);
                    }
                }
                let unique_name = self.make_temp(name.as_str());
                let ghost before = scope@;
                scope.push(
                    ScopeEntry { name: name.clone(), unique: unique_name.clone(), here: true },
                );
                assert(scope@.drop_last() =~= before);
                let init = resolve_optional_expr(init, scope)?;
                Ok(Decleration::Decleration { name: unique_name, init })
            },
        }
    }

    fn resolve_statement(&mut self, stmt: &Stmt, scope: &Vec<ScopeEntry>) -> (result: Result<
        Stmt,
        ResolveError,
    >)
        requires
            old(self).counter + statement_declarations(stmt@) <= usize::MAX,
        ensures
            old(self).counter <= final(self).counter <= old(self).counter
                + statement_declarations(stmt@),
            match resolve_statement(stmt@, bindings_of(scope@), old(self).counter as nat) {
                Ok(resolved) => {
                    &&& result is Ok
                    &&& result->Ok_0@ == resolved
                    &&& final(self).counter == old(self).counter + statement_declarations(stmt@)
                },
                Err(error) => result == Err::<Stmt, ResolveError>(error),
            },
        decreases stmt,
    {
        match stmt {
            Stmt::Return(expr) => Ok(Stmt::Return(resolve_expression(expr, scope)?)),
            Stmt::Expression(expr) => Ok(Stmt::Expression(resolve_expression(expr, scope)?)),
            Stmt::If { condition, then_branch, else_branch } => {
                let condition = resolve_expression(condition, scope)?;
                let then_branch = Box::new(self.resolve_statement(then_branch, scope)?);
                let else_branch = match else_branch {
                    Some(else_branch) => Some(Box::new(self.resolve_statement(else_branch, scope)?)),
                    None => None,
                };
                Ok(Stmt::If { condition, then_branch, else_branch })
            },
            Stmt::Label(label, stmt) => {
                let stmt = Box::new(self.resolve_statement(stmt, scope)?);
                Ok(Stmt::Label(label.clone(), stmt))
            },
            Stmt::Compound(block) => {
                let mut inner = create_new_scope(scope);
                Ok(Stmt::Compound(self.resolve_block(block, &mut inner)?))
            },
            Stmt::Goto(label) => Ok(Stmt::Goto(label.clone())),
            Stmt::Null => Ok(Stmt::Null),
            Stmt::Break { label } => Ok(Stmt::Break { label: clone_label(label) }),
            Stmt::Continue { label } => Ok(Stmt::Continue { label: clone_label(label) }),
            Stmt::While { condition, body, label } => {
                let condition = resolve_expression(condition, scope)?;
                let body = Box::new(self.resolve_statement(body, scope)?);
                Ok(Stmt::While { condition, body, label: clone_label(label) })
            },
            Stmt::DoWhile { body, condition, label } => {
                let body = Box::new(self.resolve_statement(body, scope)?);
                let condition = resolve_expression(condition, scope)?;
                Ok(Stmt::DoWhile { body, condition, label: clone_label(label) })
            },
            Stmt::For { init, condition, post, body, label } => {
                let mut inner = create_new_scope(scope);
                let init = match init {
                    ForInit::InitDecl(decleration) => ForInit::InitDecl(
                        self.resolve_decleration(decleration, &mut inner)?,
                    ),
                    ForInit::InitExp(expr) => ForInit::InitExp(resolve_optional_expr(expr, &inner)?),
                };
                let condition = resolve_optional_expr(condition, &inner)?;
                let post = resolve_optional_expr(post, &inner)?;
                let body = Box::new(self.resolve_statement(body, &inner)?);
                Ok(Stmt::For { init, condition, post, body, label: clone_label(label) })
            },
        }
    }

    /// Mints a unique name for the variable `name`.
    fn make_temp(&mut self, name: &str) -> (unique: String)
        requires
            old(self).counter < usize::MAX,
        ensures
            unique@ == unique_name(name@, old(self).counter as nat),
            final(self).counter == old(self).counter + 1,
    {
        let unique_name = make_unique_name(name, self.counter);
        self.counter += 1;
        unique_name
    }
}

/// Resolves the variables of an expression.
fn resolve_expression(expr: &Expr, scope: &Vec<ScopeEntry>) -> (result: Result<Expr, ResolveError>)
    ensures
        match resolve_expr(expr@, bindings_of(scope@)) {
            Ok(resolved) => {
                &&& result is Ok
                &&& result->Ok_0@ == resolved
            },
            Err(error) => result == Err::<Expr, ResolveError>(error),
        },
    decreases expr,
{
    match expr {
        Expr::Constant(value) => Ok(Expr::Constant(*value)),
        Expr::Unary { operator, right } => {
            if changes(*operator) && !is_var(right) {
                return Err(ResolveError::InvalidLValue);
            }
            let right = Box::new(resolve_expression(right, scope)?);
            Ok(Expr::Unary { operator: *operator, right })
        },
        Expr::Binary { operator, left, right } => {
            let right = Box::new(resolve_expression(right, scope)?);
            let left = Box::new(resolve_expression(left, scope)?);
            Ok(Expr::Binary { operator: *operator, left, right })
        },
        Expr::Var(name) => {
            match lookup(scope, name.as_str()) {
                Some(entry) => Ok(Expr::Var(entry.unique.clone())),
                None => Err(ResolveError::UndeclaredVariable),
            }
        },
        Expr::Assignment { operator, left, right } => {
            if !is_var(left) {
                return Err(ResolveError::InvalidLValue);
            }
            let left = Box::new(resolve_expression(left, scope)?);
            let right = Box::new(resolve_expression(right, scope)?);
            Ok(Expr::Assignment { operator: *operator, left, right })
        },
        Expr::Conditional { condition, then_branch, else_branch } => {
            let condition = Box::new(resolve_expression(condition, scope)?);
            let then_branch = Box::new(resolve_expression(then_branch, scope)?);
            let else_branch = Box::new(resolve_expression(else_branch, scope)?);
            Ok(Expr::Conditional { condition, then_branch, else_branch })
        },
    }
}

/// Resolves the variables of an expression that may be left out.
fn resolve_optional_expr(expr: &Option<Expr>, scope: &Vec<ScopeEntry>) -> (result: Result<
    Option<Expr>,
    ResolveError,
>)
    ensures
        match resolve_optional(opt_expr_view(*expr), bindings_of(scope@)) {
            Ok(resolved) => {
                &&& result is Ok
                &&& opt_expr_view(result->Ok_0) == resolved
            },
            Err(error) => result == Err::<Option<Expr>, ResolveError>(error),
        },
{
    match expr {
        Some(expr) => Ok(Some(resolve_expression(expr, scope)?)),
        None => Ok(None),
    }
}

} // verus!
