//! The abstract syntax tree of the source language, and its mathematical view.

use vstd::prelude::*;

verus! {

#[derive(Debug, Clone, Copy, PartialEq, Eq, Structural)]
pub enum AssignmentOp {
    Equal,
    PlusEqual,
    SubtractEqual,
    MultipleEqual,
    DivideEqual,
    RemainderEqual,
    BitAndEqual,
    BitOrEqual,
    XorEqual,
    RightShiftEqual,
    LeftShiftEqual,
}

#[derive(Debug, Clone, Copy, PartialEq, Eq, Structural)]
pub enum UnaryOp {
    Complement,
    Negate,
    Not,
    PrefixInc,
    PrefixDec,
    PostFixInc,
    PostFixDec,
}

#[derive(Debug, Clone, Copy, PartialEq, Eq, Structural)]
pub enum BinaryOp {
    Add,
    Subtract,
    Multiply,
    Divide,
    Remainder,
    LeftShift,
    RightShift,
    BitAnd,
    Xor,
    BitOr,
    And,
    Or,
    Equal,
    NotEqual,
    LessThan,
    LessOrEqual,
    GreaterThan,
    GreaterOrEqual,
}

#[derive(Debug, PartialEq, Eq)]
#[allow(inconsistent_fields)]
pub enum Expr {
    Constant(i32),
    Unary { operator: UnaryOp, right: Box<Expr> },
    Binary { operator: BinaryOp, left: Box<Expr>, right: Box<Expr> },
    Var(String),
    Assignment { operator: AssignmentOp, left: Box<Expr>, right: Box<Expr> },
    Conditional { condition: Box<Expr>, then_branch: Box<Expr>, else_branch: Box<Expr> },
}

#[derive(Debug, PartialEq, Eq)]
pub enum Decleration {
    Decleration { name: String, init: Option<Expr> },
}

#[derive(Debug, PartialEq, Eq)]
pub enum ForInit {
    InitDecl(Decleration),
    InitExp(Option<Expr>),
}

#[derive(Debug, PartialEq, Eq)]
#[allow(inconsistent_fields)]
pub enum Stmt {
    Return(Expr),
    Expression(Expr),
    If { condition: Expr, then_branch: Box<Stmt>, else_branch: Option<Box<Stmt>> },
    Null,
    Goto(String),
    Label(String, Box<Stmt>),
    Break { label: Option<String> },
    Continue { label: Option<String> },
    While { condition: Expr, body: Box<Stmt>, label: Option<String> },
    DoWhile { body: Box<Stmt>, condition: Expr, label: Option<String> },
    For {
        init: ForInit,
        condition: Option<Expr>,
        post: Option<Expr>,
        body: Box<Stmt>,
        label: Option<String>,
    },
    Compound(Block),
}

#[derive(Debug, PartialEq, Eq)]
pub enum BlockItem {
    Statement(Stmt),
    Decleration(Decleration),
}

#[derive(Debug, PartialEq, Eq)]
pub struct Block {
    pub items: Vec<BlockItem>,
}

#[derive(Debug, PartialEq, Eq)]
pub struct Function<'a> {
    pub name: &'a str,
    pub body: Block,
}

#[derive(Debug, PartialEq, Eq)]
pub enum Program<'a> {
    Function(Function<'a>),
}

/// The value of an [`Expr`]: the same tree, with names as character sequences.
#[allow(inconsistent_fields)]
pub enum ExprView {
    Constant(i32),
    Unary { operator: UnaryOp, right: Box<ExprView> },
    Binary { operator: BinaryOp, left: Box<ExprView>, right: Box<ExprView> },
    Var(Seq<char>),
    Assignment { operator: AssignmentOp, left: Box<ExprView>, right: Box<ExprView> },
    Conditional {
        condition: Box<ExprView>,
        then_branch: Box<ExprView>,
        else_branch: Box<ExprView>,
    },
}

/// The value of a [`Decleration`].
pub struct DeclView {
    pub name: Seq<char>,
    pub init: Option<ExprView>,
}

/// The value of a [`ForInit`].
pub enum ForInitView {
    InitDecl(DeclView),
    InitExp(Option<ExprView>),
}

/// The value of a [`Stmt`].
#[allow(inconsistent_fields)]
pub enum StmtView {
    Return(ExprView),
    Expression(ExprView),
    If { condition: ExprView, then_branch: Box<StmtView>, else_branch: Option<Box<StmtView>> },
    Null,
    Goto(Seq<char>),
    Label(Seq<char>, Box<StmtView>),
    Break { label: Option<Seq<char>> },
    Continue { label: Option<Seq<char>> },
    While { condition: ExprView, body: Box<StmtView>, label: Option<Seq<char>> },
    DoWhile { body: Box<StmtView>, condition: ExprView, label: Option<Seq<char>> },
    For {
        init: ForInitView,
        condition: Option<ExprView>,
        post: Option<ExprView>,
        body: Box<StmtView>,
        label: Option<Seq<char>>,
    },
    Compound(Seq<BlockItemView>),
}

/// The value of a [`BlockItem`].
pub enum BlockItemView {
    Statement(StmtView),
    Decleration(DeclView),
}

/// The value of a [`Function`], and of the [`Program`] that holds it.
pub struct FunctionView {
    pub name: Seq<char>,
    pub body: Seq<BlockItemView>,
}

/// The view of an optional name.
pub open spec fn name_view(name: Option<String>) -> Option<Seq<char>> {
    match name {
        Some(n) => Some(n@),
        None => None,
    }
}

/// The view of an optional expression.
pub open spec fn opt_expr_view(expr: Option<Expr>) -> Option<ExprView> {
    match expr {
        Some(e) => Some(e@),
        None => None,
    }
}

/// The view of an expression.
pub open spec fn expr_view(expr: Expr) -> ExprView
    decreases expr,
{
    match expr {
        Expr::Constant(value) => ExprView::Constant(value),
        Expr::Unary { operator, right } => ExprView::Unary {
            operator,
            right: Box::new(expr_view(*right)),
        },
        Expr::Binary { operator, left, right } => ExprView::Binary {
            operator,
            left: Box::new(expr_view(*left)),
            right: Box::new(expr_view(*right)),
        },
        Expr::Var(name) => ExprView::Var(name@),
        Expr::Assignment { operator, left, right } => ExprView::Assignment {
            operator,
            left: Box::new(expr_view(*left)),
            right: Box::new(expr_view(*right)),
        },
        Expr::Conditional { condition, then_branch, else_branch } => ExprView::Conditional {
            condition: Box::new(expr_view(*condition)),
            then_branch: Box::new(expr_view(*then_branch)),
            else_branch: Box::new(expr_view(*else_branch)),
        },
    }
}

impl View for Expr {
    type V = ExprView;

    open spec fn view(&self) -> ExprView {
        expr_view(*self)
    }
}

impl View for Decleration {
    type V = DeclView;

    open spec fn view(&self) -> DeclView {
        match self {
            Decleration::Decleration { name, init } => DeclView {
                name: name@,
                init: opt_expr_view(*init),
            },
        }
    }
}

impl View for ForInit {
    type V = ForInitView;

    open spec fn view(&self) -> ForInitView {
        match self {
            ForInit::InitDecl(decl) => ForInitView::InitDecl(decl@),
            ForInit::InitExp(expr) => ForInitView::InitExp(opt_expr_view(*expr)),
        }
    }
}

/// The views of a sequence of block items, in order.
pub open spec fn items_view(items: Seq<BlockItem>) -> Seq<BlockItemView>
    decreases items, 0nat,
{
    if items.len() == 0 {
        Seq::empty()
    } else {
        items_view(items.drop_last()).push(item_view(items.last()))
    }
}

/// The view of one block item.
pub open spec fn item_view(item: BlockItem) -> BlockItemView
    decreases item, 0nat,
{
    match item {
        BlockItem::Statement(stmt) => BlockItemView::Statement(stmt_view(stmt)),
        BlockItem::Decleration(decl) => BlockItemView::Decleration(decl@),
    }
}

/// The view of a statement.
pub open spec fn stmt_view(stmt: Stmt) -> StmtView
    decreases stmt, 0nat,
{
    match stmt {
        Stmt::Return(expr) => StmtView::Return(expr@),
        Stmt::Expression(expr) => StmtView::Expression(expr@),
        Stmt::If { condition, then_branch, else_branch } => StmtView::If {
            condition: condition@,
            then_branch: Box::new(stmt_view(*then_branch)),
            else_branch: match else_branch {
                Some(stmt) => Some(Box::new(stmt_view(*stmt))),
                None => None,
            },
        },
        Stmt::Null => StmtView::Null,
        Stmt::Goto(label) => StmtView::Goto(label@),
        Stmt::Label(label, stmt) => StmtView::Label(label@, Box::new(stmt_view(*stmt))),
        Stmt::Break { label } => StmtView::Break { label: name_view(label) },
        Stmt::Continue { label } => StmtView::Continue { label: name_view(label) },
        Stmt::While { condition, body, label } => StmtView::While {
            condition: condition@,
            body: Box::new(stmt_view(*body)),
            label: name_view(label),
        },
        Stmt::DoWhile { body, condition, label } => StmtView::DoWhile {
            body: Box::new(stmt_view(*body)),
            condition: condition@,
            label: name_view(label),
        },
        Stmt::For { init, condition, post, body, label } => StmtView::For {
            init: init@,
            condition: opt_expr_view(condition),
            post: opt_expr_view(post),
            body: Box::new(stmt_view(*body)),
            label: name_view(label),
        },
        Stmt::Compound(block) => StmtView::Compound(items_view(block.items@)),
    }
}

impl View for Stmt {
    type V = StmtView;

    open spec fn view(&self) -> StmtView {
        stmt_view(*self)
    }
}

impl View for BlockItem {
    type V = BlockItemView;

    open spec fn view(&self) -> BlockItemView {
        item_view(*self)
    }
}

impl View for Block {
    type V = Seq<BlockItemView>;

    open spec fn view(&self) -> Seq<BlockItemView> {
        items_view(self.items@)
    }
}

impl<'a> View for Function<'a> {
    type V = FunctionView;

    open spec fn view(&self) -> FunctionView {
        FunctionView { name: self.name@, body: self.body@ }
    }
}

impl<'a> View for Program<'a> {
    type V = FunctionView;

    open spec fn view(&self) -> FunctionView {
        match self {
            Program::Function(function) => function@,
        }
    }
}

/// Whether an operator changes its operand, which must then be a variable.
pub open spec fn changes_operand(operator: UnaryOp) -> bool {
    operator == UnaryOp::PrefixInc || operator == UnaryOp::PrefixDec || operator
        == UnaryOp::PostFixInc || operator == UnaryOp::PostFixDec
}

/// Whether every assignment, increment and decrement of an expression has a
/// variable as its target.
pub open spec fn targets_are_variables(expr: ExprView) -> bool
    decreases expr,
{
    match expr {
        ExprView::Constant(_) => true,
        ExprView::Var(_) => true,
        ExprView::Unary { operator, right } => (changes_operand(operator) ==> *right is Var)
            && targets_are_variables(*right),
        ExprView::Binary { left, right, .. } => targets_are_variables(*left)
            && targets_are_variables(*right),
        ExprView::Assignment { left, right, .. } => *left is Var && targets_are_variables(*right),
        ExprView::Conditional { condition, then_branch, else_branch } => targets_are_variables(
            *condition,
        ) && targets_are_variables(*then_branch) && targets_are_variables(*else_branch),
    }
}

/// The same of an expression that may be left out.
pub open spec fn optional_targets_are_variables(expr: Option<ExprView>) -> bool {
    match expr {
        Some(expr) => targets_are_variables(expr),
        None => true,
    }
}

/// Whether a statement has passed semantic analysis: every assignment,
/// increment and decrement in it has a variable as its target and, where
/// `labelled` is set, every loop, `break` and `continue` carries the label
/// of its loop.
pub open spec fn checked_statement(stmt: StmtView, labelled: bool) -> bool
    decreases stmt,
{
    match stmt {
        StmtView::Return(expr) => targets_are_variables(expr),
        StmtView::Expression(expr) => targets_are_variables(expr),
        StmtView::If { condition, then_branch, else_branch } => targets_are_variables(condition)
            && checked_statement(*then_branch, labelled) && (match else_branch {
            Some(else_branch) => checked_statement(*else_branch, labelled),
            None => true,
        }),
        StmtView::Null => true,
        StmtView::Goto(_) => true,
        StmtView::Label(_, stmt) => checked_statement(*stmt, labelled),
        StmtView::Break { label } => labelled ==> label is Some,
        StmtView::Continue { label } => labelled ==> label is Some,
        StmtView::While { condition, body, label } => targets_are_variables(condition)
            && checked_statement(*body, labelled) && (labelled ==> label is Some),
        StmtView::DoWhile { body, condition, label } => targets_are_variables(condition)
            && checked_statement(*body, labelled) && (labelled ==> label is Some),
        StmtView::For { init, condition, post, body, label } => (match init {
            ForInitView::InitDecl(decl) => optional_targets_are_variables(decl.init),
            ForInitView::InitExp(expr) => optional_targets_are_variables(expr),
        }) && optional_targets_are_variables(condition) && optional_targets_are_variables(post)
            && checked_statement(*body, labelled) && (labelled ==> label is Some),
        StmtView::Compound(items) => forall|i: int|
            0 <= i < items.len() ==> checked_item(#[trigger] items[i], labelled),
    }
}

/// Whether a block item has passed semantic analysis.
pub open spec fn checked_item(item: BlockItemView, labelled: bool) -> bool
    decreases item,
{
    match item {
        BlockItemView::Statement(stmt) => checked_statement(stmt, labelled),
        BlockItemView::Decleration(decl) => optional_targets_are_variables(decl.init),
    }
}

/// Whether the items of a block have passed semantic analysis.
pub open spec fn checked_items(items: Seq<BlockItemView>, labelled: bool) -> bool {
    forall|i: int| 0 <= i < items.len() ==> checked_item(#[trigger] items[i], labelled)
}

/// The number of nodes of an expression.
pub open spec fn expr_size(expr: ExprView) -> nat
    decreases expr,
{
    match expr {
        ExprView::Constant(_) => 1,
        ExprView::Var(_) => 1,
        ExprView::Unary { right, .. } => 1 + expr_size(*right),
        ExprView::Binary { left, right, .. } => 1 + expr_size(*left) + expr_size(*right),
        ExprView::Assignment { left, right, .. } => 1 + expr_size(*left) + expr_size(*right),
        ExprView::Conditional { condition, then_branch, else_branch } => 1 + expr_size(*condition)
            + expr_size(*then_branch) + expr_size(*else_branch),
    }
}

/// The number of nodes of an expression that may be left out.
pub open spec fn optional_size(expr: Option<ExprView>) -> nat {
    match expr {
        Some(expr) => expr_size(expr),
        None => 0,
    }
}

/// The number of nodes of a declaration.
pub open spec fn declaration_size(decl: DeclView) -> nat {
    1 + optional_size(decl.init)
}

/// The number of nodes of the initializer of a `for` loop.
pub open spec fn for_init_size(init: ForInitView) -> nat {
    match init {
        ForInitView::InitDecl(decl) => declaration_size(decl),
        ForInitView::InitExp(expr) => optional_size(expr),
    }
}

/// The number of nodes of a statement.
pub open spec fn statement_size(stmt: StmtView) -> nat
    decreases stmt, 0nat,
{
    match stmt {
        StmtView::Return(expr) => 1 + expr_size(expr),
        StmtView::Expression(expr) => 1 + expr_size(expr),
        StmtView::If { condition, then_branch, else_branch } => 1 + expr_size(condition)
            + statement_size(*then_branch) + (match else_branch {
            Some(else_branch) => statement_size(*else_branch),
            None => 0,
        }),
        StmtView::Label(_, stmt) => 1 + statement_size(*stmt),
        StmtView::While { condition, body, .. } => 1 + expr_size(condition) + statement_size(
            *body,
        ),
        StmtView::DoWhile { body, condition, .. } => 1 + statement_size(*body) + expr_size(
            condition,
        ),
        StmtView::For { init, condition, post, body, .. } => 1 + for_init_size(init)
            + optional_size(condition) + optional_size(post) + statement_size(*body),
        StmtView::Compound(items) => 1 + items_size(items, 0),
        _ => 1,
    }
}

/// The number of nodes of a block item.
pub open spec fn item_size(item: BlockItemView) -> nat
    decreases item, 0nat,
{
    match item {
        BlockItemView::Statement(stmt) => statement_size(stmt),
        BlockItemView::Decleration(decl) => declaration_size(decl),
    }
}

/// The number of nodes of the items of a block from index `from` on.
pub open spec fn items_size(items: Seq<BlockItemView>, from: nat) -> nat
    decreases items, items.len() - from,
{
    if from >= items.len() {
        0
    } else {
        item_size(items[from as int]) + items_size(items, from + 1)
    }
}

/// The nodes of a block with one more item are those of the block and
/// those of the item.
pub proof fn lemma_items_size_push(items: Seq<BlockItemView>, item: BlockItemView, from: nat)
    requires
        from <= items.len(),
    ensures
        items_size(items.push(item), from) == items_size(items, from) + item_size(item),
    decreases items.len() - from,
{
    if from < items.len() {
        lemma_items_size_push(items, item, from + 1);
        assert(items.push(item)[from as int] == items[from as int]);
    } else {
        assert(items_size(items.push(item), from + 1) == 0);
    }
}

/// The views of the items of a block line up with the items, one for one.
pub proof fn lemma_items_view(items: Seq<BlockItem>)
    ensures
        items_view(items).len() == items.len(),
        forall|i: int| 0 <= i < items.len() ==> #[trigger] items_view(items)[i] == items[i]@,
    decreases items.len(),
{
    if items.len() > 0 {
        lemma_items_view(items.drop_last());
    }
}

/// Pushing an item pushes its view.
pub proof fn lemma_items_view_push(items: Seq<BlockItem>, item: BlockItem)
    ensures
        items_view(items.push(item)) == items_view(items).push(item@),
{
    assert(items.push(item).drop_last() =~= items);
}

} // verus!
