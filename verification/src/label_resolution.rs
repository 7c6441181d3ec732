//! Label and loop resolution: every loop gets a label of its own, every
//! `break` and `continue` gets the label of the innermost loop around it,
//! and every `goto` is checked against the labels that the function
//! declares.

use vstd::prelude::*;
use vstd::string::*;
use crate::ast::{
    Block, BlockItem, BlockItemView, Decleration, Expr, ForInit, Function, FunctionView,
    Program, Stmt, StmtView, checked_item, checked_items, checked_statement, item_size,
    items_size, items_view, lemma_items_size_push, statement_size,
    lemma_items_view, lemma_items_view_push, name_view, opt_expr_view,
};
use crate::names::{find_name, has_duplicates, names_view};
use crate::resolution::ResolveError;
use crate::text::{make_unique_name, unique_name};
use crate::Error;

verus! {

/// The labels that a statement declares, in the order of the text.
pub open spec fn statement_labels(stmt: StmtView) -> Seq<Seq<char>>
    decreases stmt, 0nat,
{
    match stmt {
        StmtView::If { then_branch, else_branch, .. } => statement_labels(*then_branch) + (
        match else_branch {
            Some(else_branch) => statement_labels(*else_branch),
            None => Seq::empty(),
        }),
        StmtView::Label(label, stmt) => seq![label] + statement_labels(*stmt),
        StmtView::While { body, .. } => statement_labels(*body),
        StmtView::DoWhile { body, .. } => statement_labels(*body),
        StmtView::For { body, .. } => statement_labels(*body),
        StmtView::Compound(items) => items_labels(items, 0),
        _ => Seq::empty(),
    }
}

/// The labels that a block item declares.
pub open spec fn item_labels(item: BlockItemView) -> Seq<Seq<char>>
    decreases item, 0nat,
{
    match item {
        BlockItemView::Statement(stmt) => statement_labels(stmt),
        BlockItemView::Decleration(_) => Seq::empty(),
    }
}

/// The labels that the items of a block declare from index `from` on.
pub open spec fn items_labels(items: Seq<BlockItemView>, from: nat) -> Seq<Seq<char>>
    decreases items, items.len() - from,
{
    if from >= items.len() {
        Seq::empty()
    } else {
        item_labels(items[from as int]) + items_labels(items, from + 1)
    }
}

/// The number of loops in a statement.
pub open spec fn statement_loops(stmt: StmtView) -> nat
    decreases stmt, 0nat,
{
    match stmt {
        StmtView::If { then_branch, else_branch, .. } => statement_loops(*then_branch) + (
        match else_branch {
            Some(else_branch) => statement_loops(*else_branch),
            None => 0,
        }),
        StmtView::Label(_, stmt) => statement_loops(*stmt),
        StmtView::While { body, .. } => 1 + statement_loops(*body),
        StmtView::DoWhile { body, .. } => 1 + statement_loops(*body),
        StmtView::For { body, .. } => 1 + statement_loops(*body),
        StmtView::Compound(items) => items_loops(items, 0),
        _ => 0,
    }
}

/// The number of loops in a block item.
pub open spec fn item_loops(item: BlockItemView) -> nat
    decreases item, 0nat,
{
    match item {
        BlockItemView::Statement(stmt) => statement_loops(stmt),
        BlockItemView::Decleration(_) => 0,
    }
}

/// The number of loops in the items of a block from index `from` on.
pub open spec fn items_loops(items: Seq<BlockItemView>, from: nat) -> nat
    decreases items, items.len() - from,
{
    if from >= items.len() {
        0
    } else {
        item_loops(items[from as int]) + items_loops(items, from + 1)
    }
}

/// The loops of a block with one more item are those of the block and
/// those of the item.
pub proof fn lemma_items_loops_push(items: Seq<BlockItemView>, item: BlockItemView, from: nat)
    requires
        from <= items.len(),
    ensures
        items_loops(items.push(item), from) == items_loops(items, from) + item_loops(item),
    decreases items.len() - from,
{
    if from < items.len() {
        lemma_items_loops_push(items, item, from + 1);
        assert(items.push(item)[from as int] == items[from as int]);
    } else {
        assert(items_loops(items.push(item), from + 1) == 0);
    }
}

/// The label of the loop that is minted from the given number.
pub open spec fn loop_label(counter: nat) -> Seq<char> {
    unique_name("loop"@, counter)
}

/// A statement with its loops, its `break`s and its `continue`s labelled.
/// `labels` are the labels that the function declares, `current` is the
/// label of the innermost loop around the statement, and `counter` is the
/// number from which the labels of its own loops are minted.
pub open spec fn label_statement(
    stmt: StmtView,
    labels: Seq<Seq<char>>,
    current: Option<Seq<char>>,
    counter: nat,
) -> Result<StmtView, ResolveError>
    decreases stmt, 0nat,
{
    match stmt {
        StmtView::If { condition, then_branch, else_branch } => match label_statement(
            *then_branch,
            labels,
            current,
            counter,
        ) {
            Err(error) => Err(error),
            Ok(labelled_then) => match else_branch {
                None => Ok(
                    StmtView::If {
                        condition,
                        then_branch: Box::new(labelled_then),
                        else_branch: None,
                    },
                ),
                Some(else_branch) => match label_statement(
                    *else_branch,
                    labels,
                    current,
                    counter + statement_loops(*then_branch),
                ) {
                    Err(error) => Err(error),
                    Ok(labelled_else) => Ok(
                        StmtView::If {
                            condition,
                            then_branch: Box::new(labelled_then),
                            else_branch: Some(Box::new(labelled_else)),
                        },
                    ),
                },
            },
        },
        StmtView::Goto(label) => {
            if labels.contains(label) {
                Ok(StmtView::Goto(label))
            } else {
                Err(ResolveError::UndefinedLabel)
            }
        },
        StmtView::Label(label, stmt) => match label_statement(*stmt, labels, current, counter) {
            Err(error) => Err(error),
            Ok(stmt) => Ok(StmtView::Label(label, Box::new(stmt))),
        },
        StmtView::Break { .. } => match current {
            Some(label) => Ok(StmtView::Break { label: Some(label) }),
            None => Err(ResolveError::InvalidBreakOrContinue),
        },
        StmtView::Continue { .. } => match current {
            Some(label) => Ok(StmtView::Continue { label: Some(label) }),
            None => Err(ResolveError::InvalidBreakOrContinue),
        },
        StmtView::While { condition, body, .. } => match label_statement(
            *body,
            labels,
            Some(loop_label(counter)),
            counter + 1,
        ) {
            Err(error) => Err(error),
            Ok(body) => Ok(
                StmtView::While {
                    condition,
                    body: Box::new(body),
                    label: Some(loop_label(counter)),
                },
            ),
        },
        StmtView::DoWhile { body, condition, .. } => match label_statement(
            *body,
            labels,
            Some(loop_label(counter)),
            counter + 1,
        ) {
            Err(error) => Err(error),
            Ok(body) => Ok(
                StmtView::DoWhile {
                    body: Box::new(body),
                    condition,
                    label: Some(loop_label(counter)),
                },
            ),
        },
        StmtView::For { init, condition, post, body, .. } => match label_statement(
            *body,
            labels,
            Some(loop_label(counter)),
            counter + 1,
        ) {
            Err(error) => Err(error),
            Ok(body) => Ok(
                StmtView::For {
                    init,
                    condition,
                    post,
                    body: Box::new(body),
                    label: Some(loop_label(counter)),
                },
            ),
        },
        StmtView::Compound(items) => match label_items(items, 0, labels, current, counter) {
            Err(error) => Err(error),
            Ok(items) => Ok(StmtView::Compound(items)),
        },
        StmtView::Return(expr) => Ok(StmtView::Return(expr)),
        StmtView::Expression(expr) => Ok(StmtView::Expression(expr)),
        StmtView::Null => Ok(StmtView::Null),
    }
}

/// A block item with its statement labelled.
pub open spec fn label_item(
    item: BlockItemView,
    labels: Seq<Seq<char>>,
    current: Option<Seq<char>>,
    counter: nat,
) -> Result<BlockItemView, ResolveError>
    decreases item, 1nat,
{
    match item {
        BlockItemView::Statement(stmt) => match label_statement(stmt, labels, current, counter) {
            Err(error) => Err(error),
            Ok(stmt) => Ok(BlockItemView::Statement(stmt)),
        },
        BlockItemView::Decleration(decl) => Ok(BlockItemView::Decleration(decl)),
    }
}

/// The items of a block from index `from` on, labelled one after the other.
pub open spec fn label_items(
    items: Seq<BlockItemView>,
    from: nat,
    labels: Seq<Seq<char>>,
    current: Option<Seq<char>>,
    counter: nat,
) -> Result<Seq<BlockItemView>, ResolveError>
    decreases items, items.len() - from,
{
    if from >= items.len() {
        Ok(Seq::empty())
    } else {
        match label_item(items[from as int], labels, current, counter) {
            Err(error) => Err(error),
            Ok(item) => match label_items(
                items,
                from + 1,
                labels,
                current,
                counter + item_loops(items[from as int]),
            ) {
                Err(error) => Err(error),
                Ok(rest) => Ok(seq![item] + rest),
            },
        }
    }
}

/// A program with its loops labelled and its labels checked: no label may
/// be declared twice, and then every `goto` must name a declared label and
/// every `break` and `continue` must stand in a loop.
pub open spec fn label_program(program: FunctionView, counter: nat) -> Result<
    FunctionView,
    ResolveError,
> {
    let labels = items_labels(program.body, 0);
    if !labels.no_duplicates() {
        Err(ResolveError::DuplicateLabel)
    } else {
        match label_items(program.body, 0, labels, None, counter) {
            Err(error) => Err(error),
            Ok(body) => Ok(FunctionView { name: program.name, body }),
        }
    }
}

/// A copy of an expression.
pub fn clone_expr(expr: &Expr) -> (copy: Expr)
    ensures
        copy@ == expr@,
    decreases expr,
{
    match expr {
        Expr::Constant(value) => Expr::Constant(*value),
        Expr::Unary { operator, right } => Expr::Unary {
            operator: *operator,
            right: Box::new(clone_expr(right)),
        },
        Expr::Binary { operator, left, right } => Expr::Binary {
            operator: *operator,
            left: Box::new(clone_expr(left)),
            right: Box::new(clone_expr(right)),
        },
        Expr::Var(name) => Expr::Var(name.clone()),
        Expr::Assignment { operator, left, right } => Expr::Assignment {
            operator: *operator,
            left: Box::new(clone_expr(left)),
            right: Box::new(clone_expr(right)),
        },
        Expr::Conditional { condition, then_branch, else_branch } => Expr::Conditional {
            condition: Box::new(clone_expr(condition)),
            then_branch: Box::new(clone_expr(then_branch)),
            else_branch: Box::new(clone_expr(else_branch)),
        },
    }
}

/// A copy of an expression that may be left out.
pub fn clone_optional_expr(expr: &Option<Expr>) -> (copy: Option<Expr>)
    ensures
        opt_expr_view(copy) == opt_expr_view(*expr),
{
    match expr {
        Some(expr) => Some(clone_expr(expr)),
        None => None,
    }
}

/// A copy of a declaration.
pub fn clone_decleration(decleration: &Decleration) -> (copy: Decleration)
    ensures
        copy@ == decleration@,
{
    match decleration {
        Decleration::Decleration { name, init } => Decleration::Decleration {
            name: name.clone(),
            init: clone_optional_expr(init),
        },
    }
}

/// Appends the labels that a statement declares.
fn collect_labels(stmt: &Stmt, labels: &mut Vec<String>)
    ensures
        names_view(final(labels)@) == names_view(old(labels)@) + statement_labels(stmt@),
    decreases stmt,
{
    match stmt {
        Stmt::If { condition: _, then_branch, else_branch } => {
            collect_labels(then_branch, labels);
            match else_branch {
                Some(else_branch) => {
                    collect_labels(else_branch, labels);
                },
                None => {},
            }
            assert(names_view(labels@) =~= names_view(old(labels)@) + statement_labels(stmt@));
        },
        Stmt::Label(label, stmt) => {
            let ghost before = names_view(labels@);
            labels.push(label.clone());
            assert(names_view(labels@) =~= before + seq![label@]);
            collect_labels(stmt, labels);
            assert(names_view(labels@) =~= before + (seq![label@] + statement_labels(stmt@)));
        },
        Stmt::While { condition: _, body, label: _ } => collect_labels(body, labels),
        Stmt::DoWhile { body, condition: _, label: _ } => collect_labels(body, labels),
        Stmt::For { init: _, condition: _, post: _, body, label: _ } => collect_labels(body, labels),
        Stmt::Compound(block) => collect_block_labels(block, labels),
        _ => {
            assert(names_view(labels@) =~= names_view(old(labels)@) + statement_labels(stmt@));
        },
    }
}

/// Appends the labels that the items of a block declare.
fn collect_block_labels(block: &Block, labels: &mut Vec<String>)
    ensures
        names_view(final(labels)@) == names_view(old(labels)@) + items_labels(block@, 0),
    decreases block,
{
    let ghost source = block@;
    let mut i: usize = 0;
    proof {
        lemma_items_view(block.items@);
    }
    while i < block.items.len()
        invariant
            i <= block.items.len(),
            source == block@,
            source.len() == block.items.len(),
            forall|j: int| 0 <= j < source.len() ==> #[trigger] source[j] == block.items@[j]@,
            names_view(labels@) + items_labels(source, i as nat) == names_view(old(labels)@)
                + items_labels(source, 0),
        decreases block.items.len() - i,
    {
        let ghost before = names_view(labels@);
        match &block.items[i] {
            BlockItem::Statement(stmt) => {
                collect_labels(stmt, labels);
            },
            BlockItem::Decleration(_) => {
                assert(names_view(labels@) =~= before + item_labels(source[i as int]));
            },
        }
        proof {
            assert(before + (item_labels(source[i as int]) + items_labels(source, (i + 1) as nat))
                =~= (before + item_labels(source[i as int])) + items_labels(
                source,
                (i + 1) as nat,
            ));
        }
        i += 1;
    }
    assert(names_view(labels@) + items_labels(source, i as nat) =~= names_view(labels@));
}

/// The pass that resolves labels and loops. It holds the counter from which
/// the labels of loops are minted.
pub struct LabelResolver {
    pub counter: usize,
}

impl LabelResolver {
    /// A resolver that mints its first label from `counter`.
    pub fn new(counter: usize) -> (resolver: Self)
        ensures
            resolver.counter == counter,
    {
        Self { counter }
    }

    /// Labels the loops of the program and checks its labels. On an error
    /// the program and the resolver are left as they were.
    pub fn resolve_program(&mut self, program: &mut Program<'_>) -> (result: Result<(), Error>)
        requires
            old(self).counter + items_loops(old(program)@.body, 0) <= usize::MAX,
        ensures
            match label_program(old(program)@, old(self).counter as nat) {
                Ok(labelled) => {
                    &&& result is Ok
                    &&& final(program)@ == labelled
                    &&& final(self).counter == old(self).counter + items_loops(
                        old(program)@.body,
                        0,
                    )
                    &&& checked_items(old(program)@.body, false) ==> checked_items(
                        labelled.body,
                        true,
                    )
                    &&& items_size(labelled.body, 0) == items_size(old(program)@.body, 0)
                },
                Err(error) => {
                    &&& result == Err::<(), Error>(Error::Resolver(error))
                    &&& *final(program) == *old(program)
                    &&& *final(self) == *old(self)
                },
            },
    {
        let start = self.counter;
        match program {
            Program::Function(function) => match self.resolve_fun(function) {
                Ok(body) => {
                    function.body = body;
                    Ok(())
                },
                Err(error) => {
                    self.counter = start;
                    Err(Error::Resolver(error))
                },
            },
        }
    }

    /// Labels the loops of the body of a function and checks its labels.
    pub(crate) fn resolve_fun(&mut self, function: &Function<'_>) -> (result: Result<Block, ResolveError>)
        requires
            old(self).counter + items_loops(function@.body, 0) <= usize::MAX,
        ensures
            old(self).counter <= final(self).counter <= old(self).counter + items_loops(
                function@.body,
                0,
            ),
            match label_program(function@, old(self).counter as nat) {
                Ok(labelled) => {
                    &&& result is Ok
                    &&& result->Ok_0@ == labelled.body
                    &&& final(self).counter == old(self).counter + items_loops(function@.body, 0)
                    &&& checked_items(function@.body, false) ==> checked_items(
                        labelled.body,
                        true,
                    )
                    &&& items_size(labelled.body, 0) == items_size(function@.body, 0)
                },
                Err(error) => result == Err::<Block, ResolveError>(error),
            },
    {
        let mut labels: Vec<String> = Vec::new();
        assert(names_view(labels@) =~= Seq::<Seq<char>>::empty());
        collect_block_labels(&function.body, &mut labels);
        assert(names_view(labels@) =~= items_labels(function@.body, 0));
        if has_duplicates(&labels) {
            return Err(ResolveError::DuplicateLabel);
        }
        self.resolve_block(&function.body, &labels, &None)
    }

    fn resolve_block(&mut self, block: &Block, labels: &Vec<String>, current: &Option<String>)
        -> (result: Result<Block, ResolveError>)
        requires
            old(self).counter + items_loops(block@, 0) <= usize::MAX,
        ensures
            old(self).counter <= final(self).counter <= old(self).counter + items_loops(
                block@,
                0,
            ),
            match label_items(
                block@,
                0,
                names_view(labels@),
                name_view(*current),
                old(self).counter as nat,
            ) {
                Ok(labelled) => {
                    &&& result is Ok
                    &&& result->Ok_0@ == labelled
                    &&& final(self).counter == old(self).counter + items_loops(block@, 0)
                    &&& checked_items(block@, false) ==> checked_items(labelled, true)
                    &&& items_size(labelled, 0) == items_size(block@, 0)
                },
                Err(error) => result == Err::<Block, ResolveError>(error),
            },
        decreases block,
    {
        let ghost source = block@;
        let mut items: Vec<BlockItem> = Vec::new();
        let mut i: usize = 0;
        proof {
            lemma_items_view(block.items@);
            assert(items_view(items@) =~= Seq::empty());
        }
        while i < block.items.len()
            invariant
                i <= block.items.len(),
                source == block@,
                source.len() == block.items.len(),
                forall|j: int| 0 <= j < source.len() ==> #[trigger] source[j] == block.items@[j]@,
                old(self).counter + items_loops(source, 0) <= usize::MAX,
                old(self).counter <= self.counter,
                checked_items(source, false) ==> checked_items(items_view(items@), true),
                items_size(items_view(items@), 0) + items_size(source, i as nat) == items_size(
                    source,
                    0,
                ),
                self.counter + items_loops(source, i as nat) == old(self).counter + items_loops(
                    source,
                    0,
                ),
                match label_items(
                    source,
                    i as nat,
                    names_view(labels@),
                    name_view(*current),
                    self.counter as nat,
                ) {
                    Ok(rest) => label_items(
                        source,
                        0,
                        names_view(labels@),
                        name_view(*current),
                        old(self).counter as nat,
                    ) == Ok::<Seq<BlockItemView>, ResolveError>(items_view(items@) + rest),
                    Err(error) => label_items(
                        source,
                        0,
                        names_view(labels@),
                        name_view(*current),
                        old(self).counter as nat,
                    ) == Err::<Seq<BlockItemView>, ResolveError>(error),
                },
            decreases block.items.len() - i,
        {
            let ghost seen = items_view(items@);
            let item = self.resolve_block_item(&block.items[i], labels, current)?;
            proof {
                lemma_items_view_push(items@, item);
                lemma_items_size_push(items_view(items@), item@, 0);
                match label_items(
                    source,
                    (i + 1) as nat,
                    names_view(labels@),
                    name_view(*current),
                    self.counter as nat,
                ) {
                    Ok(rest) => {
                        assert(seen + (seq![item@] + rest) =~= seen.push(item@) + rest);
                    },
                    Err(_) => {},
                }
                if checked_items(source, false) {
                    assert(checked_item(source[i as int], false));
                }
            }
            items.push(item);
            i += 1;
        }
        assert(items_view(items@) + Seq::empty() =~= items_view(items@));
        Ok(Block { items })
    }

    fn resolve_block_item(
        &mut self,
        block_item: &BlockItem,
        labels: &Vec<String>,
        current: &Option<String>,
    ) -> (result: Result<BlockItem, ResolveError>)
        requires
            old(self).counter + item_loops(block_item@) <= usize::MAX,
        ensures
            old(self).counter <= final(self).counter <= old(self).counter + item_loops(
                block_item@,
            ),
            match label_item(
                block_item@,
                names_view(labels@),
                name_view(*current),
                old(self).counter as nat,
            ) {
                Ok(labelled) => {
                    &&& result is Ok
                    &&& result->Ok_0@ == labelled
                    &&& final(self).counter == old(self).counter + item_loops(block_item@)
                    &&& checked_item(block_item@, false) ==> checked_item(labelled, true)
                    &&& item_size(labelled) == item_size(block_item@)
                },
                Err(error) => result == Err::<BlockItem, ResolveError>(error),
            },
        decreases block_item,
    {
        match block_item {
            BlockItem::Statement(stmt) => Ok(
                BlockItem::Statement(self.resolve_statement(stmt, labels, current)?),
            ),
            BlockItem::Decleration(decleration) => Ok(
                BlockItem::Decleration(clone_decleration(decleration)),
            ),
        }
    }

    fn resolve_statement(&mut self, stmt: &Stmt, labels: &Vec<String>, current: &Option<String>)
        -> (result: Result<Stmt, ResolveError>)
        requires
            old(self).counter + statement_loops(stmt@) <= usize::MAX,
        ensures
            old(self).counter <= final(self).counter <= old(self).counter + statement_loops(
                stmt@,
            ),
            match label_statement(
                stmt@,
                names_view(labels@),
                name_view(*current),
                old(self).counter as nat,
            ) {
                Ok(labelled) => {
                    &&& result is Ok
                    &&& result->Ok_0@ == labelled
                    &&& final(self).counter == old(self).counter + statement_loops(stmt@)
                    &&& checked_statement(stmt@, false) ==> checked_statement(labelled, true)
                    &&& statement_size(labelled) == statement_size(stmt@)
                },
                Err(error) => result == Err::<Stmt, ResolveError>(error),
            },
        decreases stmt,
    {
        match stmt {
            Stmt::Return(expr) => Ok(Stmt::Return(clone_expr(expr))),
            Stmt::Expression(expr) => Ok(Stmt::Expression(clone_expr(expr))),
            Stmt::Null => Ok(Stmt::Null),
            Stmt::If { condition, then_branch, else_branch } => {
                let then_branch = Box::new(self.resolve_statement(then_branch, labels, current)?);
                let else_branch = match else_branch {
                    Some(else_branch) => Some(
                        Box::new(self.resolve_statement(else_branch, labels, current)?),
                    ),
                    None => None,
                };
                Ok(Stmt::If { condition: clone_expr(condition), then_branch, else_branch })
            },
            Stmt::Compound(block) => Ok(
                Stmt::Compound(self.resolve_block(block, labels, current)?),
            ),
            Stmt::Goto(label) => {
                if find_name(labels, label.as_str()) < labels.len() {
                    Ok(Stmt::Goto(label.clone()))
                } else {
                    Err(ResolveError::UndefinedLabel)
                }
            },
            Stmt::Label(label, stmt) => {
                let stmt = Box::new(self.resolve_statement(stmt, labels, current)?);
                Ok(Stmt::Label(label.clone(), stmt))
            },
            Stmt::Break { label: _ } => match current {
                Some(label) => Ok(Stmt::Break { label: Some(label.clone()) }),
                None => Err(ResolveError::InvalidBreakOrContinue),
            },
            Stmt::Continue { label: _ } => match current {
                Some(label) => Ok(Stmt::Continue { label: Some(label.clone()) }),
                None => Err(ResolveError::InvalidBreakOrContinue),
            },
            Stmt::While { condition, body, label: _ } => {
                let label = self._make_temp("loop");
                let inner = Some(label);
                let body = Box::new(self.resolve_statement(body, labels, &inner)?);
                Ok(Stmt::While { condition: clone_expr(condition), body, label: inner })
            },
            Stmt::DoWhile { body, condition, label: _ } => {
                let label = self._make_temp("loop");
                let inner = Some(label);
                let body = Box::new(self.resolve_statement(body, labels, &inner)?);
                Ok(Stmt::DoWhile { body, condition: clone_expr(condition), label: inner })
            },
            Stmt::For { init, condition, post, body, label: _ } => {
                let label = self._make_temp("loop");
                let inner = Some(label);
                let body = Box::new(self.resolve_statement(body, labels, &inner)?);
                let init = match init {
                    ForInit::InitDecl(decleration) => ForInit::InitDecl(
                        clone_decleration(decleration),
                    ),
                    ForInit::InitExp(expr) => ForInit::InitExp(clone_optional_expr(expr)),
                };
                Ok(
                    Stmt::For {
                        init,
                        condition: clone_optional_expr(condition),
                        post: clone_optional_expr(post),
                        body,
                        label: inner,
                    },
                )
            },
        }
    }

    /// Mints a label from the given base name.
    fn _make_temp(&mut self, name: &str) -> (unique: String)
        requires
            old(self).counter < usize::MAX,
        ensures
            unique@ == unique_name(name@, old(self).counter as nat),
            final(self).counter == old(self).counter + 1,
    {
        let unique_name = make_unique_name(name, self.counter);
        self.counter += 1;
        unique_name
    }
}

} // verus!
