//! Printing a syntax tree as tokens, and the law that ties the printer to
//! the lexer and the parser: what is printed, spelled as text, lexes and
//! parses back to the tree it was printed from.
//!
//! The printer puts every operand in parentheses, so that what it prints
//! does not depend on precedence.

use vstd::prelude::*;
use crate::ast::{
    AssignmentOp, BinaryOp, BlockItemView, DeclView, ExprView, ForInitView, FunctionView,
    StmtView, UnaryOp,
};
use crate::grammar::{
    all_digits, assignment_op, binary_op, constant_value, expect, kind_at, operator_at,
    parse_block, parse_block_item, parse_block_items, parse_condition, parse_declaration,
    parse_do_while, parse_expression, parse_expression_then, parse_factor, parse_for,
    parse_for_header, parse_for_init, parse_function, parse_goto, parse_if, parse_jump,
    parse_labeled, parse_operation, parse_operators, parse_optional_expression, parse_primary,
    parse_program, parse_return, parse_statement, parse_while, postfix_op, precedence, prefix_op,
};
use crate::lexer::{
    is_digit, is_ident_char, is_ident_start, keyword, lex, punctuator_kind, punctuator_len,
    punctuator_prefix,
};
use crate::spelling::{
    all_well_spelled, lemma_digit_run_is, lemma_ident_run_is, lemma_lex_well_spelled,
    lemma_well_spelled_append, spell, well_spelled,
};
use crate::parser::ParseError;
use crate::text::{decimal, lemma_decimal};
use crate::token::{TokenKind, TokenView};

verus! {

/// How a punctuator or a keyword is spelled. An identifier and a constant
/// have no spelling of their own.
pub open spec fn spelling(kind: TokenKind) -> Seq<char> {
    match kind {
        TokenKind::LeftParen => seq!['('],
        TokenKind::RightParen => seq![')'],
        TokenKind::LeftBrace => seq!['{'],
        TokenKind::RightBrace => seq!['}'],
        TokenKind::Semicolon => seq![';'],
        TokenKind::Comma => seq![','],
        TokenKind::Tilde => seq!['~'],
        TokenKind::Hyphen => seq!['-'],
        TokenKind::HyphenEqual => seq!['-', '='],
        TokenKind::DoubleHyphen => seq!['-', '-'],
        TokenKind::Plus => seq!['+'],
        TokenKind::DoublePlus => seq!['+', '+'],
        TokenKind::PlusEqual => seq!['+', '='],
        TokenKind::Asterisk => seq!['*'],
        TokenKind::AsteriskEqual => seq!['*', '='],
        TokenKind::ForwardSlash => seq!['/'],
        TokenKind::ForwardSlashEqual => seq!['/', '='],
        TokenKind::Percent => seq!['%'],
        TokenKind::PercentEqual => seq!['%', '='],
        TokenKind::Ampersand => seq!['&'],
        TokenKind::AmpersandEqual => seq!['&', '='],
        TokenKind::Bar => seq!['|'],
        TokenKind::BarEqual => seq!['|', '='],
        TokenKind::Caret => seq!['^'],
        TokenKind::CaretEqual => seq!['^', '='],
        TokenKind::LeftShift => seq!['<', '<'],
        TokenKind::LeftShiftEqual => seq!['<', '<', '='],
        TokenKind::RightShift => seq!['>', '>'],
        TokenKind::RightShiftEqual => seq!['>', '>', '='],
        TokenKind::Bang => seq!['!'],
        TokenKind::Equal => seq!['='],
        TokenKind::DoubleAmpersand => seq!['&', '&'],
        TokenKind::DoubleBar => seq!['|', '|'],
        TokenKind::DoubleEqual => seq!['=', '='],
        TokenKind::BangEqual => seq!['!', '='],
        TokenKind::Less => seq!['<'],
        TokenKind::Greater => seq!['>'],
        TokenKind::LessEqual => seq!['<', '='],
        TokenKind::GreaterEqual => seq!['>', '='],
        TokenKind::Question => seq!['?'],
        TokenKind::Colon => seq![':'],
        TokenKind::Identifier => Seq::empty(),
        TokenKind::Constant => Seq::empty(),
        TokenKind::Int => seq!['i', 'n', 't'],
        TokenKind::Void => seq!['v', 'o', 'i', 'd'],
        TokenKind::Return => seq!['r', 'e', 't', 'u', 'r', 'n'],
        TokenKind::If => seq!['i', 'f'],
        TokenKind::Else => seq!['e', 'l', 's', 'e'],
        TokenKind::Goto => seq!['g', 'o', 't', 'o'],
        TokenKind::Break => seq!['b', 'r', 'e', 'a', 'k'],
        TokenKind::Continue => seq!['c', 'o', 'n', 't', 'i', 'n', 'u', 'e'],
        TokenKind::While => seq!['w', 'h', 'i', 'l', 'e'],
        TokenKind::Do => seq!['d', 'o'],
        TokenKind::For => seq!['f', 'o', 'r'],
    }
}

/// The token of a punctuator or of a keyword. What is printed stands on
/// one line.
pub open spec fn mark(kind: TokenKind) -> TokenView {
    TokenView { kind, lexeme: spelling(kind), line: 1 }
}

/// The token of an identifier.
pub open spec fn identifier(name: Seq<char>) -> TokenView {
    TokenView { kind: TokenKind::Identifier, lexeme: name, line: 1 }
}

/// The token of a constant.
pub open spec fn constant(value: i32) -> TokenView {
    TokenView { kind: TokenKind::Constant, lexeme: crate::text::decimal(value as nat), line: 1 }
}

/// The token that spells a binary operator.
pub open spec fn binary_token(operator: BinaryOp) -> TokenKind {
    match operator {
        BinaryOp::Add => TokenKind::Plus,
        BinaryOp::Subtract => TokenKind::Hyphen,
        BinaryOp::Multiply => TokenKind::Asterisk,
        BinaryOp::Divide => TokenKind::ForwardSlash,
        BinaryOp::Remainder => TokenKind::Percent,
        BinaryOp::LeftShift => TokenKind::LeftShift,
        BinaryOp::RightShift => TokenKind::RightShift,
        BinaryOp::BitAnd => TokenKind::Ampersand,
        BinaryOp::Xor => TokenKind::Caret,
        BinaryOp::BitOr => TokenKind::Bar,
        BinaryOp::And => TokenKind::DoubleAmpersand,
        BinaryOp::Or => TokenKind::DoubleBar,
        BinaryOp::Equal => TokenKind::DoubleEqual,
        BinaryOp::NotEqual => TokenKind::BangEqual,
        BinaryOp::LessThan => TokenKind::Less,
        BinaryOp::LessOrEqual => TokenKind::LessEqual,
        BinaryOp::GreaterThan => TokenKind::Greater,
        BinaryOp::GreaterOrEqual => TokenKind::GreaterEqual,
    }
}

/// The token that spells an assignment operator.
pub open spec fn assignment_token(operator: AssignmentOp) -> TokenKind {
    match operator {
        AssignmentOp::Equal => TokenKind::Equal,
        AssignmentOp::PlusEqual => TokenKind::PlusEqual,
        AssignmentOp::SubtractEqual => TokenKind::HyphenEqual,
        AssignmentOp::MultipleEqual => TokenKind::AsteriskEqual,
        AssignmentOp::DivideEqual => TokenKind::ForwardSlashEqual,
        AssignmentOp::RemainderEqual => TokenKind::PercentEqual,
        AssignmentOp::BitAndEqual => TokenKind::AmpersandEqual,
        AssignmentOp::BitOrEqual => TokenKind::BarEqual,
        AssignmentOp::XorEqual => TokenKind::CaretEqual,
        AssignmentOp::RightShiftEqual => TokenKind::RightShiftEqual,
        AssignmentOp::LeftShiftEqual => TokenKind::LeftShiftEqual,
    }
}

/// The token that spells a unary operator.
pub open spec fn unary_token(operator: UnaryOp) -> TokenKind {
    match operator {
        UnaryOp::Complement => TokenKind::Tilde,
        UnaryOp::Negate => TokenKind::Hyphen,
        UnaryOp::Not => TokenKind::Bang,
        UnaryOp::PrefixInc => TokenKind::DoublePlus,
        UnaryOp::PrefixDec => TokenKind::DoubleHyphen,
        UnaryOp::PostFixInc => TokenKind::DoublePlus,
        UnaryOp::PostFixDec => TokenKind::DoubleHyphen,
    }
}

/// Whether a unary operator is written after its operand.
pub open spec fn is_postfix(operator: UnaryOp) -> bool {
    operator == UnaryOp::PostFixInc || operator == UnaryOp::PostFixDec
}

/// Tokens in parentheses.
pub open spec fn parenthesized(tokens: Seq<TokenView>) -> Seq<TokenView> {
    seq![mark(TokenKind::LeftParen)] + tokens + seq![mark(TokenKind::RightParen)]
}

/// An expression, printed, with each of its operands in parentheses.
pub open spec fn print_expr(expr: ExprView) -> Seq<TokenView>
    decreases expr,
{
    match expr {
        ExprView::Constant(value) => seq![constant(value)],
        ExprView::Var(name) => seq![identifier(name)],
        ExprView::Unary { operator, right } => {
            if is_postfix(operator) {
                parenthesized(print_expr(*right)) + seq![mark(unary_token(operator))]
            } else {
                seq![mark(unary_token(operator))] + parenthesized(print_expr(*right))
            }
        },
        ExprView::Binary { operator, left, right } => parenthesized(print_expr(*left)) + seq![
            mark(binary_token(operator)),
        ] + parenthesized(print_expr(*right)),
        ExprView::Assignment { operator, left, right } => parenthesized(print_expr(*left)) + seq![
            mark(assignment_token(operator)),
        ] + parenthesized(print_expr(*right)),
        ExprView::Conditional { condition, then_branch, else_branch } => parenthesized(
            print_expr(*condition),
        ) + seq![mark(TokenKind::Question)] + parenthesized(print_expr(*then_branch)) + seq![
            mark(TokenKind::Colon),
        ] + parenthesized(print_expr(*else_branch)),
    }
}

/// An expression that may be left out, printed in parentheses where it is
/// there.
pub open spec fn print_optional(expr: Option<ExprView>) -> Seq<TokenView> {
    match expr {
        Some(expr) => parenthesized(print_expr(expr)),
        None => Seq::empty(),
    }
}

/// A declaration, printed.
pub open spec fn print_declaration(decl: DeclView) -> Seq<TokenView> {
    seq![mark(TokenKind::Int), identifier(decl.name)] + (match decl.init {
        Some(init) => seq![mark(TokenKind::Equal)] + parenthesized(print_expr(init)),
        None => Seq::empty(),
    }) + seq![mark(TokenKind::Semicolon)]
}

/// The initializer of a `for` loop, printed, with the semicolon that
/// closes it.
pub open spec fn print_for_init(init: ForInitView) -> Seq<TokenView> {
    match init {
        ForInitView::InitDecl(decl) => print_declaration(decl),
        ForInitView::InitExp(expr) => print_optional(expr) + seq![mark(TokenKind::Semicolon)],
    }
}

/// The header of a `for` loop, printed, in its parentheses.
pub open spec fn print_for_header(
    init: ForInitView,
    condition: Option<ExprView>,
    post: Option<ExprView>,
) -> Seq<TokenView> {
    seq![mark(TokenKind::LeftParen)] + print_for_init(init) + (print_optional(condition) + seq![
        mark(TokenKind::Semicolon),
    ]) + (print_optional(post) + seq![mark(TokenKind::RightParen)])
}

/// A statement, printed.
pub open spec fn print_statement(stmt: StmtView) -> Seq<TokenView>
    decreases stmt, 0nat,
{
    match stmt {
        StmtView::Return(expr) => seq![mark(TokenKind::Return)] + parenthesized(print_expr(expr))
            + seq![mark(TokenKind::Semicolon)],
        StmtView::Expression(expr) => parenthesized(print_expr(expr)) + seq![
            mark(TokenKind::Semicolon),
        ],
        StmtView::Null => seq![mark(TokenKind::Semicolon)],
        StmtView::If { condition, then_branch, else_branch } => seq![mark(TokenKind::If)]
            + parenthesized(print_expr(condition)) + print_statement(*then_branch) + (
        match else_branch {
            Some(else_branch) => seq![mark(TokenKind::Else)] + print_statement(*else_branch),
            None => Seq::empty(),
        }),
        StmtView::Goto(label) => seq![
            mark(TokenKind::Goto),
            identifier(label),
            mark(TokenKind::Semicolon),
        ],
        StmtView::Label(label, stmt) => seq![identifier(label), mark(TokenKind::Colon)]
            + print_statement(*stmt),
        StmtView::Break { .. } => seq![mark(TokenKind::Break), mark(TokenKind::Semicolon)],
        StmtView::Continue { .. } => seq![mark(TokenKind::Continue), mark(TokenKind::Semicolon)],
        StmtView::While { condition, body, .. } => seq![mark(TokenKind::While)] + parenthesized(
            print_expr(condition),
        ) + print_statement(*body),
        StmtView::DoWhile { body, condition, .. } => seq![mark(TokenKind::Do)] + print_statement(
            *body,
        ) + seq![mark(TokenKind::While)] + parenthesized(print_expr(condition)) + seq![
            mark(TokenKind::Semicolon),
        ],
        StmtView::For { init, condition, post, body, .. } => seq![mark(TokenKind::For)]
            + print_for_header(init, condition, post) + print_statement(*body),
        StmtView::Compound(items) => seq![mark(TokenKind::LeftBrace)] + print_items(items, 0)
            + seq![mark(TokenKind::RightBrace)],
    }
}

/// A block item, printed.
pub open spec fn print_item(item: BlockItemView) -> Seq<TokenView>
    decreases item, 1nat,
{
    match item {
        BlockItemView::Statement(stmt) => print_statement(stmt),
        BlockItemView::Decleration(decl) => print_declaration(decl),
    }
}

/// The items of a block from index `from` on, printed one after the other.
pub open spec fn print_items(items: Seq<BlockItemView>, from: nat) -> Seq<TokenView>
    decreases items, items.len() - from,
{
    if from >= items.len() {
        Seq::empty()
    } else {
        print_item(items[from as int]) + print_items(items, from + 1)
    }
}

/// A program, printed.
pub open spec fn print_program(program: FunctionView) -> Seq<TokenView> {
    seq![
        mark(TokenKind::Int),
        identifier(program.name),
        mark(TokenKind::LeftParen),
        mark(TokenKind::Void),
        mark(TokenKind::RightParen),
        mark(TokenKind::LeftBrace),
    ] + print_items(program.body, 0) + seq![mark(TokenKind::RightBrace)]
}

/// Whether a name can be written as an identifier: it starts with a letter
/// or an underscore, goes on with letters, digits and underscores, and is no
/// keyword.
#[verifier::opaque]
pub open spec fn is_identifier(name: Seq<char>) -> bool {
    &&& name.len() > 0
    &&& is_ident_start(name[0])
    &&& forall|i: int| 0 <= i < name.len() ==> is_ident_char(#[trigger] name[i])
    &&& keyword(name) is None
}

/// Whether an expression can be printed and read back: its constants are
/// not negative, and its variables are identifiers.
pub open spec fn printable_expr(expr: ExprView) -> bool
    decreases expr,
{
    match expr {
        ExprView::Constant(value) => value >= 0,
        ExprView::Var(name) => is_identifier(name),
        ExprView::Unary { right, .. } => printable_expr(*right),
        ExprView::Binary { left, right, .. } => printable_expr(*left) && printable_expr(*right),
        ExprView::Assignment { left, right, .. } => printable_expr(*left) && printable_expr(
            *right,
        ),
        ExprView::Conditional { condition, then_branch, else_branch } => printable_expr(
            *condition,
        ) && printable_expr(*then_branch) && printable_expr(*else_branch),
    }
}

/// Whether `tokens` holds the tokens `part` from position `pos` on.
pub open spec fn holds_at(tokens: Seq<TokenView>, pos: nat, part: Seq<TokenView>) -> bool {
    &&& pos + part.len() <= tokens.len()
    &&& forall|i: int| 0 <= i < part.len() ==> tokens[pos + i] == #[trigger] part[i]
}

/// Whether the token at `pos`, if there is one, ends an expression: it is
/// no operator, neither between operands nor after one.
pub open spec fn ends_expression(tokens: Seq<TokenView>, pos: nat) -> bool {
    match kind_at(tokens, pos) {
        Some(kind) => precedence(kind) is None && postfix_op(kind) is None,
        None => true,
    }
}

/// Where tokens hold three parts in a row, they hold each of them.
proof fn lemma_holds_parts(
    tokens: Seq<TokenView>,
    pos: nat,
    first: Seq<TokenView>,
    second: Seq<TokenView>,
    third: Seq<TokenView>,
)
    requires
        holds_at(tokens, pos, first + second + third),
    ensures
        holds_at(tokens, pos, first),
        holds_at(tokens, pos + first.len(), second),
        holds_at(tokens, pos + first.len() + second.len(), third),
{
    let whole = first + second + third;
    assert forall|i: int| 0 <= i < first.len() implies tokens[pos + i] == #[trigger] first[i] by {
        assert(whole[i] == first[i]);
    }
    assert forall|i: int| 0 <= i < second.len() implies tokens[pos + first.len() + i]
        == #[trigger] second[i] by {
        assert(whole[first.len() + i] == second[i]);
    }
    assert forall|i: int| 0 <= i < third.len() implies tokens[pos + first.len() + second.len() + i]
        == #[trigger] third[i] by {
        assert(whole[first.len() + second.len() + i] == third[i]);
    }
}

/// Where tokens hold two parts in a row, they hold each of them.
proof fn lemma_holds_both(
    tokens: Seq<TokenView>,
    pos: nat,
    first: Seq<TokenView>,
    second: Seq<TokenView>,
)
    requires
        holds_at(tokens, pos, first + second),
    ensures
        holds_at(tokens, pos, first),
        holds_at(tokens, pos + first.len(), second),
{
    assert(first + second =~= first + second + Seq::empty());
    lemma_holds_parts(tokens, pos, first, second, Seq::empty());
}

/// The token of a mark that the tokens hold is of the kind of the mark.
proof fn lemma_holds_mark(tokens: Seq<TokenView>, pos: nat, kind: TokenKind)
    requires
        holds_at(tokens, pos, seq![mark(kind)]),
    ensures
        kind_at(tokens, pos) == Some(kind),
        expect(tokens, pos, kind) is Ok,
{
    assert(seq![mark(kind)][0] == mark(kind));
}

/// The digits of a numeral are digits.
proof fn lemma_decimal_digits(n: nat)
    ensures
        all_digits(decimal(n)),
    decreases n,
{
    if n >= 10 {
        lemma_decimal_digits(n / 10);
        assert forall|i: int| 0 <= i < decimal(n).len() implies is_digit(
            #[trigger] decimal(n)[i],
        ) by {
            if i < decimal(n / 10).len() {
                assert(decimal(n)[i] == decimal(n / 10)[i]);
            }
        }
    }
}

/// The numeral of a constant that is not negative spells the constant.
pub proof fn lemma_constant_value(value: i32)
    requires
        value >= 0,
    ensures
        constant_value(decimal(value as nat)) == Some(value),
{
    reveal(constant_value);
    lemma_decimal(value as nat);
    lemma_decimal_digits(value as nat);
}

/// What the token of a binary operator is to the parser.
proof fn lemma_binary_token(operator: BinaryOp)
    ensures
        binary_op(binary_token(operator)) == Some(operator),
        assignment_op(binary_token(operator)) is None,
        precedence(binary_token(operator)) is Some,
        postfix_op(binary_token(operator)) is None,
{
}

/// What the token of an assignment operator is to the parser.
proof fn lemma_assignment_token(operator: AssignmentOp)
    ensures
        assignment_op(assignment_token(operator)) == Some(operator),
        precedence(assignment_token(operator)) == Some(1nat),
        postfix_op(assignment_token(operator)) is None,
{
}

/// What the token of a unary operator is to the parser.
proof fn lemma_unary_token(operator: UnaryOp)
    ensures
        is_postfix(operator) ==> postfix_op(unary_token(operator)) == Some(operator),
        !is_postfix(operator) ==> prefix_op(unary_token(operator)) == Some(operator)
            && unary_token(operator) != TokenKind::Constant && unary_token(operator)
            != TokenKind::Identifier && unary_token(operator) != TokenKind::LeftParen,
{
}

/// An expression that is printed in parentheses is read back: as a primary,
/// and, where the token after it ends an expression, as a factor and as an
/// expression of any precedence.
pub proof fn lemma_read_parenthesized(
    expr: ExprView,
    tokens: Seq<TokenView>,
    pos: nat,
    min_prec: nat,
)
    requires
        printable_expr(expr),
        holds_at(tokens, pos, parenthesized(print_expr(expr))),
    ensures
        parse_primary(tokens, pos) == Ok::<(ExprView, nat), ParseError>(
            (expr, parenthesized(print_expr(expr)).len()),
        ),
        ends_expression(tokens, pos + parenthesized(print_expr(expr)).len()) ==> {
            &&& parse_factor(tokens, pos) == Ok::<(ExprView, nat), ParseError>(
                (expr, parenthesized(print_expr(expr)).len()),
            )
            &&& parse_expression(tokens, pos, min_prec) == Ok::<(ExprView, nat), ParseError>(
                (expr, parenthesized(print_expr(expr)).len()),
            )
        },
    decreases expr, 2nat,
{
    let body = print_expr(expr);
    lemma_holds_parts(
        tokens,
        pos,
        seq![mark(TokenKind::LeftParen)],
        body,
        seq![mark(TokenKind::RightParen)],
    );
    lemma_holds_mark(tokens, pos, TokenKind::LeftParen);
    lemma_holds_mark(tokens, pos + 1 + body.len(), TokenKind::RightParen);
    lemma_read_expr(expr, tokens, pos + 1);
}

/// An expression that is printed is read back, where the token after it
/// ends an expression.
pub proof fn lemma_read_expr(expr: ExprView, tokens: Seq<TokenView>, pos: nat)
    requires
        printable_expr(expr),
        holds_at(tokens, pos, print_expr(expr)),
        ends_expression(tokens, pos + print_expr(expr).len()),
    ensures
        parse_expression(tokens, pos, 0) == Ok::<(ExprView, nat), ParseError>(
            (expr, print_expr(expr).len()),
        ),
    decreases expr, 1nat,
{
    match expr {
        ExprView::Constant(value) => {
            lemma_constant_value(value);
            assert(tokens[pos as int] == print_expr(expr)[0]);
        },
        ExprView::Var(name) => {
            assert(tokens[pos as int] == print_expr(expr)[0]);
        },
        ExprView::Unary { operator, right } => {
            lemma_read_unary(expr, tokens, pos);
        },
        ExprView::Binary { operator, left, right } => {
            lemma_read_binary(expr, tokens, pos);
        },
        ExprView::Assignment { operator, left, right } => {
            lemma_read_assignment(expr, tokens, pos);
        },
        ExprView::Conditional { condition, then_branch, else_branch } => {
            lemma_read_conditional(expr, tokens, pos);
        },
    }
}

/// A unary operation that is printed is read back.
proof fn lemma_read_unary(expr: ExprView, tokens: Seq<TokenView>, pos: nat)
    requires
        expr is Unary,
        printable_expr(expr),
        holds_at(tokens, pos, print_expr(expr)),
        ends_expression(tokens, pos + print_expr(expr).len()),
    ensures
        parse_expression(tokens, pos, 0) == Ok::<(ExprView, nat), ParseError>(
            (expr, print_expr(expr).len()),
        ),
    decreases expr, 0nat,
{
    if let ExprView::Unary { operator, right } = expr {
        let operand = parenthesized(print_expr(*right));
        let sign = seq![mark(unary_token(operator))];
        lemma_unary_token(operator);
        if is_postfix(operator) {
            lemma_holds_both(tokens, pos, operand, sign);
            lemma_holds_mark(tokens, pos + operand.len(), unary_token(operator));
            lemma_read_parenthesized(*right, tokens, pos, 0);
            assert(parse_factor(tokens, pos) == Ok::<(ExprView, nat), ParseError>(
                (expr, operand.len() + 1),
            ));
        } else {
            lemma_holds_both(tokens, pos, sign, operand);
            lemma_holds_mark(tokens, pos, unary_token(operator));
            lemma_read_parenthesized(*right, tokens, pos + 1, 0);
            assert(parse_primary(tokens, pos) == Ok::<(ExprView, nat), ParseError>(
                (expr, operand.len() + 1),
            ));
            assert(parse_factor(tokens, pos) == Ok::<(ExprView, nat), ParseError>(
                (expr, operand.len() + 1),
            ));
        }
    }
}

/// A binary operation that is printed is read back.
proof fn lemma_read_binary(expr: ExprView, tokens: Seq<TokenView>, pos: nat)
    requires
        expr is Binary,
        printable_expr(expr),
        holds_at(tokens, pos, print_expr(expr)),
        ends_expression(tokens, pos + print_expr(expr).len()),
    ensures
        parse_expression(tokens, pos, 0) == Ok::<(ExprView, nat), ParseError>(
            (expr, print_expr(expr).len()),
        ),
    decreases expr, 0nat,
{
    if let ExprView::Binary { operator, left, right } = expr {
        let first = parenthesized(print_expr(*left));
        let second = parenthesized(print_expr(*right));
        let kind = binary_token(operator);
        lemma_binary_token(operator);
        lemma_holds_parts(tokens, pos, first, seq![mark(kind)], second);
        lemma_holds_mark(tokens, pos + first.len(), kind);
        lemma_read_parenthesized(*left, tokens, pos, 0);
        let prec = precedence(kind)->0;
        lemma_read_parenthesized(*right, tokens, pos + first.len() + 1, prec + 1);
        let after = pos + first.len();
        assert(parse_factor(tokens, pos) == Ok::<(ExprView, nat), ParseError>(
            (*left, first.len()),
        ));
        assert(operator_at(tokens, after) == Some(prec));
        assert(parse_operation(tokens, after, *left) == Ok::<(ExprView, nat), ParseError>(
            (expr, second.len()),
        ));
        assert(parse_operators(tokens, after + 1 + second.len(), 0, expr) == Ok::<
            (ExprView, nat),
            ParseError,
        >((expr, 0)));
        assert(parse_operators(tokens, after, 0, *left) == Ok::<(ExprView, nat), ParseError>(
            (expr, 1 + second.len()),
        ));
    }
}

/// An assignment that is printed is read back.
proof fn lemma_read_assignment(expr: ExprView, tokens: Seq<TokenView>, pos: nat)
    requires
        expr is Assignment,
        printable_expr(expr),
        holds_at(tokens, pos, print_expr(expr)),
        ends_expression(tokens, pos + print_expr(expr).len()),
    ensures
        parse_expression(tokens, pos, 0) == Ok::<(ExprView, nat), ParseError>(
            (expr, print_expr(expr).len()),
        ),
    decreases expr, 0nat,
{
    if let ExprView::Assignment { operator, left, right } = expr {
        let first = parenthesized(print_expr(*left));
        let second = parenthesized(print_expr(*right));
        let kind = assignment_token(operator);
        lemma_assignment_token(operator);
        lemma_holds_parts(tokens, pos, first, seq![mark(kind)], second);
        lemma_holds_mark(tokens, pos + first.len(), kind);
        lemma_read_parenthesized(*left, tokens, pos, 0);
        lemma_read_parenthesized(*right, tokens, pos + first.len() + 1, 1);
        let after = pos + first.len();
        assert(parse_factor(tokens, pos) == Ok::<(ExprView, nat), ParseError>(
            (*left, first.len()),
        ));
        assert(operator_at(tokens, after) == Some(1nat));
        assert(parse_operation(tokens, after, *left) == Ok::<(ExprView, nat), ParseError>(
            (expr, second.len()),
        ));
        assert(parse_operators(tokens, after + 1 + second.len(), 0, expr) == Ok::<
            (ExprView, nat),
            ParseError,
        >((expr, 0)));
        assert(parse_operators(tokens, after, 0, *left) == Ok::<(ExprView, nat), ParseError>(
            (expr, 1 + second.len()),
        ));
    }
}

/// A conditional that is printed is read back.
proof fn lemma_read_conditional(expr: ExprView, tokens: Seq<TokenView>, pos: nat)
    requires
        expr is Conditional,
        printable_expr(expr),
        holds_at(tokens, pos, print_expr(expr)),
        ends_expression(tokens, pos + print_expr(expr).len()),
    ensures
        parse_expression(tokens, pos, 0) == Ok::<(ExprView, nat), ParseError>(
            (expr, print_expr(expr).len()),
        ),
    decreases expr, 0nat,
{
    if let ExprView::Conditional { condition, then_branch, else_branch } = expr {
        let first = parenthesized(print_expr(*condition));
        let second = parenthesized(print_expr(*then_branch));
        let third = parenthesized(print_expr(*else_branch));
        let question = seq![mark(TokenKind::Question)];
        let colon = seq![mark(TokenKind::Colon)];
        assert(print_expr(expr) =~= first + (question + second + colon) + third);
        lemma_holds_parts(tokens, pos, first, question + second + colon, third);
        lemma_holds_parts(tokens, pos + first.len(), question, second, colon);
        let after = pos + first.len();
        lemma_holds_mark(tokens, after, TokenKind::Question);
        lemma_holds_mark(tokens, after + 1 + second.len(), TokenKind::Colon);
        lemma_read_parenthesized(*condition, tokens, pos, 0);
        lemma_read_parenthesized(*then_branch, tokens, after + 1, 0);
        lemma_read_parenthesized(*else_branch, tokens, after + 2 + second.len(), 3);
        assert(parse_factor(tokens, pos) == Ok::<(ExprView, nat), ParseError>(
            (*condition, first.len()),
        ));
        assert(operator_at(tokens, after) == Some(3nat));
        assert(parse_operation(tokens, after, *condition) == Ok::<(ExprView, nat), ParseError>(
            (expr, 1 + second.len() + third.len()),
        ));
        assert(parse_operators(tokens, after + 1 + (1 + second.len() + third.len()), 0, expr)
            == Ok::<(ExprView, nat), ParseError>((expr, 0)));
        assert(parse_operators(tokens, after, 0, *condition) == Ok::<(ExprView, nat), ParseError>(
            (expr, 1 + (1 + second.len() + third.len())),
        ));
    }
}

/// Whether a statement is closed: an `else` that follows it would belong
/// to no `if` inside it.
pub open spec fn closed(stmt: StmtView) -> bool
    decreases stmt,
{
    match stmt {
        StmtView::If { else_branch, .. } => match else_branch {
            Some(else_branch) => closed(*else_branch),
            None => false,
        },
        StmtView::Label(_, stmt) => closed(*stmt),
        StmtView::While { body, .. } => closed(*body),
        StmtView::For { body, .. } => closed(*body),
        _ => true,
    }
}

/// Whether an expression that may be left out can be printed and read back.
pub open spec fn printable_optional(expr: Option<ExprView>) -> bool {
    match expr {
        Some(expr) => printable_expr(expr),
        None => true,
    }
}

/// Whether a declaration can be printed and read back.
pub open spec fn printable_declaration(decl: DeclView) -> bool {
    is_identifier(decl.name) && printable_optional(decl.init)
}

/// Whether a statement can be printed and read back: its expressions can,
/// its names are identifiers, its loops and jumps carry no label yet, and
/// the first branch of an `if` that has an `else` is closed.
pub open spec fn printable_statement(stmt: StmtView) -> bool
    decreases stmt,
{
    match stmt {
        StmtView::Return(expr) => printable_expr(expr),
        StmtView::Expression(expr) => printable_expr(expr),
        StmtView::Null => true,
        StmtView::If { condition, then_branch, else_branch } => printable_expr(condition)
            && printable_statement(*then_branch) && (match else_branch {
            Some(else_branch) => closed(*then_branch) && printable_statement(*else_branch),
            None => true,
        }),
        StmtView::Goto(label) => is_identifier(label),
        StmtView::Label(label, stmt) => is_identifier(label) && printable_statement(*stmt),
        StmtView::Break { label } => label is None,
        StmtView::Continue { label } => label is None,
        StmtView::While { condition, body, label } => label is None && printable_expr(condition)
            && printable_statement(*body),
        StmtView::DoWhile { body, condition, label } => label is None && printable_expr(
            condition,
        ) && printable_statement(*body),
        StmtView::For { init, condition, post, body, label } => label is None && (match init {
            ForInitView::InitDecl(decl) => printable_declaration(decl),
            ForInitView::InitExp(expr) => printable_optional(expr),
        }) && printable_optional(condition) && printable_optional(post) && printable_statement(
            *body,
        ),
        StmtView::Compound(items) => forall|i: int|
            0 <= i < items.len() ==> printable_item(#[trigger] items[i]),
    }
}

/// Whether a block item can be printed and read back.
pub open spec fn printable_item(item: BlockItemView) -> bool
    decreases item,
{
    match item {
        BlockItemView::Statement(stmt) => printable_statement(stmt),
        BlockItemView::Decleration(decl) => printable_declaration(decl),
    }
}

/// Whether a program can be printed and read back.
pub open spec fn printable_program(program: FunctionView) -> bool {
    &&& is_identifier(program.name)
    &&& forall|i: int| 0 <= i < program.body.len() ==> printable_item(#[trigger] program.body[i])
}

/// Whether the token at `pos` is no `else`, or the statement before it is
/// closed.
pub open spec fn no_dangling_else(stmt: StmtView, tokens: Seq<TokenView>, pos: nat) -> bool {
    closed(stmt) || kind_at(tokens, pos) != Some(TokenKind::Else)
}

/// A printed statement starts with a token that starts no declaration and
/// that is neither a closing brace nor an `else`.
proof fn lemma_statement_first(stmt: StmtView)
    ensures
        print_statement(stmt).len() > 0,
        print_statement(stmt)[0].kind != TokenKind::Int,
        print_statement(stmt)[0].kind != TokenKind::RightBrace,
        print_statement(stmt)[0].kind != TokenKind::Else,
{
}

/// A printed block item starts with a token that is neither a closing
/// brace nor an `else`; it starts with `int` where it is a declaration, and
/// only there.
proof fn lemma_item_first(item: BlockItemView)
    ensures
        print_item(item).len() > 0,
        print_item(item)[0].kind != TokenKind::RightBrace,
        print_item(item)[0].kind != TokenKind::Else,
        (print_item(item)[0].kind == TokenKind::Int) == (item is Decleration),
{
    match item {
        BlockItemView::Statement(stmt) => {
            lemma_statement_first(stmt);
        },
        BlockItemView::Decleration(decl) => {},
    }
}

/// A semicolon ends an expression, and so do a closing parenthesis and a
/// colon.
proof fn lemma_ends_expression(tokens: Seq<TokenView>, pos: nat, kind: TokenKind)
    requires
        kind_at(tokens, pos) == Some(kind),
        kind == TokenKind::Semicolon || kind == TokenKind::RightParen || kind
            == TokenKind::Colon,
    ensures
        ends_expression(tokens, pos),
{
}

/// An expression in parentheses and the mark after it are read back as an
/// expression that the mark closes.
proof fn lemma_read_expression_then(
    expr: ExprView,
    tokens: Seq<TokenView>,
    pos: nat,
    end: TokenKind,
)
    requires
        printable_expr(expr),
        end == TokenKind::Semicolon || end == TokenKind::RightParen,
        holds_at(tokens, pos, parenthesized(print_expr(expr)) + seq![mark(end)]),
    ensures
        parse_expression_then(tokens, pos, end) == Ok::<(ExprView, nat), ParseError>(
            (expr, parenthesized(print_expr(expr)).len() + 1),
        ),
        parse_optional_expression(tokens, pos, end) == Ok::<(Option<ExprView>, nat), ParseError>(
            (Some(expr), parenthesized(print_expr(expr)).len() + 1),
        ),
{
    reveal(parse_expression_then);
    reveal(parse_optional_expression);
    let operand = parenthesized(print_expr(expr));
    lemma_holds_both(tokens, pos, operand, seq![mark(end)]);
    lemma_holds_mark(tokens, pos + operand.len(), end);
    lemma_ends_expression(tokens, pos + operand.len(), end);
    lemma_read_parenthesized(expr, tokens, pos, 0);
    assert(tokens[pos as int] == operand[0]);
}

/// An expression that may be left out and the mark after it are read back.
proof fn lemma_read_optional(
    expr: Option<ExprView>,
    tokens: Seq<TokenView>,
    pos: nat,
    end: TokenKind,
)
    requires
        printable_optional(expr),
        end == TokenKind::Semicolon || end == TokenKind::RightParen,
        holds_at(tokens, pos, print_optional(expr) + seq![mark(end)]),
    ensures
        parse_optional_expression(tokens, pos, end) == Ok::<(Option<ExprView>, nat), ParseError>(
            (expr, print_optional(expr).len() + 1),
        ),
{
    reveal(parse_optional_expression);
    match expr {
        Some(expr) => {
            lemma_read_expression_then(expr, tokens, pos, end);
        },
        None => {
            lemma_holds_both(tokens, pos, Seq::empty(), seq![mark(end)]);
            lemma_holds_mark(tokens, pos, end);
        },
    }
}

/// A condition in its parentheses is read back.
proof fn lemma_read_condition(expr: ExprView, tokens: Seq<TokenView>, pos: nat)
    requires
        printable_expr(expr),
        holds_at(tokens, pos, parenthesized(print_expr(expr))),
    ensures
        parse_condition(tokens, pos) == Ok::<(ExprView, nat), ParseError>(
            (expr, parenthesized(print_expr(expr)).len()),
        ),
{
    reveal(parse_condition);
    reveal(parse_expression_then);
    let body = print_expr(expr);
    lemma_holds_parts(
        tokens,
        pos,
        seq![mark(TokenKind::LeftParen)],
        body,
        seq![mark(TokenKind::RightParen)],
    );
    lemma_holds_mark(tokens, pos, TokenKind::LeftParen);
    lemma_holds_mark(tokens, pos + 1 + body.len(), TokenKind::RightParen);
    lemma_ends_expression(tokens, pos + 1 + body.len(), TokenKind::RightParen);
    lemma_read_expr(expr, tokens, pos + 1);
}

/// A declaration that is printed is read back.
proof fn lemma_read_declaration(decl: DeclView, tokens: Seq<TokenView>, pos: nat)
    requires
        printable_declaration(decl),
        holds_at(tokens, pos, print_declaration(decl)),
    ensures
        parse_declaration(tokens, pos) == Ok::<(DeclView, nat), ParseError>(
            (decl, print_declaration(decl).len()),
        ),
{
    reveal(parse_declaration);
    let head = seq![mark(TokenKind::Int), identifier(decl.name)];
    let end = seq![mark(TokenKind::Semicolon)];
    assert(head[0] == mark(TokenKind::Int));
    assert(head[1] == identifier(decl.name));
    match decl.init {
        Some(init) => {
            let operand = parenthesized(print_expr(init));
            let equal = seq![mark(TokenKind::Equal)];
            lemma_holds_parts(tokens, pos, head, equal + operand, end);
            lemma_holds_both(tokens, pos + 2, equal, operand);
            lemma_holds_mark(tokens, pos + 2, TokenKind::Equal);
            assert(print_declaration(decl) =~= head + equal + (operand + end));
            lemma_holds_parts(tokens, pos, head, equal, operand + end);
            lemma_read_expression_then(init, tokens, pos + 3, TokenKind::Semicolon);
        },
        None => {
            lemma_holds_parts(tokens, pos, head, Seq::empty(), end);
            lemma_holds_mark(tokens, pos + 2, TokenKind::Semicolon);
        },
    }
    assert(tokens[pos as int] == head[0]);
    assert(tokens[pos + 1 as int] == head[1]);
}

/// The initializer of a `for` loop that is printed is read back.
proof fn lemma_read_for_init(init: ForInitView, tokens: Seq<TokenView>, pos: nat)
    requires
        match init {
            ForInitView::InitDecl(decl) => printable_declaration(decl),
            ForInitView::InitExp(expr) => printable_optional(expr),
        },
        holds_at(tokens, pos, print_for_init(init)),
    ensures
        parse_for_init(tokens, pos) == Ok::<(ForInitView, nat), ParseError>(
            (init, print_for_init(init).len()),
        ),
{
    reveal(parse_for_init);
    assert(tokens[pos as int] == print_for_init(init)[0]);
    match init {
        ForInitView::InitDecl(decl) => {
            lemma_read_declaration(decl, tokens, pos);
        },
        ForInitView::InitExp(expr) => {
            lemma_read_optional(expr, tokens, pos, TokenKind::Semicolon);
        },
    }
}

/// The header of a `for` loop that is printed is read back.
proof fn lemma_read_for_header(
    init: ForInitView,
    condition: Option<ExprView>,
    post: Option<ExprView>,
    tokens: Seq<TokenView>,
    pos: nat,
)
    requires
        match init {
            ForInitView::InitDecl(decl) => printable_declaration(decl),
            ForInitView::InitExp(expr) => printable_optional(expr),
        },
        printable_optional(condition),
        printable_optional(post),
        holds_at(tokens, pos, print_for_header(init, condition, post)),
    ensures
        parse_for_header(tokens, pos) == Ok::<
            ((ForInitView, Option<ExprView>, Option<ExprView>), nat),
            ParseError,
        >(((init, condition, post), print_for_header(init, condition, post).len())),
{
    reveal(parse_for_header);
    let open = seq![mark(TokenKind::LeftParen)];
    let first = print_for_init(init);
    let second = print_optional(condition) + seq![mark(TokenKind::Semicolon)];
    let third = print_optional(post) + seq![mark(TokenKind::RightParen)];
    lemma_holds_both(tokens, pos, open + first + second, third);
    lemma_holds_parts(tokens, pos, open, first, second);
    lemma_holds_mark(tokens, pos, TokenKind::LeftParen);
    lemma_read_for_init(init, tokens, pos + 1);
    lemma_read_optional(condition, tokens, pos + 1 + first.len(), TokenKind::Semicolon);
    lemma_read_optional(
        post,
        tokens,
        pos + 1 + first.len() + second.len(),
        TokenKind::RightParen,
    );
}

/// A `return` that is printed is read back.
proof fn lemma_read_return(expr: ExprView, tokens: Seq<TokenView>, pos: nat)
    requires
        printable_expr(expr),
        holds_at(tokens, pos, print_statement(StmtView::Return(expr))),
    ensures
        parse_return(tokens, pos) == Ok::<(StmtView, nat), ParseError>(
            (StmtView::Return(expr), print_statement(StmtView::Return(expr)).len()),
        ),
{
    reveal(parse_return);
    let keyword = seq![mark(TokenKind::Return)];
    let operand = parenthesized(print_expr(expr)) + seq![mark(TokenKind::Semicolon)];
    assert(print_statement(StmtView::Return(expr)) =~= keyword + operand);
    lemma_holds_both(tokens, pos, keyword, operand);
    lemma_holds_mark(tokens, pos, TokenKind::Return);
    lemma_read_expression_then(expr, tokens, pos + 1, TokenKind::Semicolon);
}

/// A `goto`, a `break` and a `continue` that are printed are read back.
proof fn lemma_read_jump(stmt: StmtView, tokens: Seq<TokenView>, pos: nat)
    requires
        stmt is Goto || stmt is Break || stmt is Continue,
        printable_statement(stmt),
        holds_at(tokens, pos, print_statement(stmt)),
    ensures
        stmt is Goto ==> parse_goto(tokens, pos) == Ok::<(StmtView, nat), ParseError>(
            (stmt, print_statement(stmt).len()),
        ),
        !(stmt is Goto) ==> parse_jump(tokens, pos) == Ok::<(StmtView, nat), ParseError>(
            (stmt, print_statement(stmt).len()),
        ),
        kind_at(tokens, pos) == Some(print_statement(stmt)[0].kind),
{
    reveal(parse_goto);
    reveal(parse_jump);
    let printed = print_statement(stmt);
    assert(tokens[pos as int] == printed[0]);
    assert(tokens[pos + 1 as int] == printed[1]);
    if stmt is Goto {
        assert(tokens[pos + 2 as int] == printed[2]);
    }
}

/// The kind of the first token of a statement that is printed.
pub open spec fn first_kind(stmt: StmtView) -> TokenKind {
    match stmt {
        StmtView::Return(_) => TokenKind::Return,
        StmtView::Expression(_) => TokenKind::LeftParen,
        StmtView::Null => TokenKind::Semicolon,
        StmtView::If { .. } => TokenKind::If,
        StmtView::Goto(_) => TokenKind::Goto,
        StmtView::Label(_, _) => TokenKind::Identifier,
        StmtView::Break { .. } => TokenKind::Break,
        StmtView::Continue { .. } => TokenKind::Continue,
        StmtView::While { .. } => TokenKind::While,
        StmtView::DoWhile { .. } => TokenKind::Do,
        StmtView::For { .. } => TokenKind::For,
        StmtView::Compound(_) => TokenKind::LeftBrace,
    }
}

/// A statement that is printed starts with the token of its form.
proof fn lemma_first_kind(stmt: StmtView, tokens: Seq<TokenView>, pos: nat)
    requires
        holds_at(tokens, pos, print_statement(stmt)),
    ensures
        kind_at(tokens, pos) == Some(first_kind(stmt)),
        stmt is Label ==> kind_at(tokens, pos + 1) == Some(TokenKind::Colon),
{
    let printed = print_statement(stmt);
    assert(printed.len() > 0 && printed[0].kind == first_kind(stmt));
    assert(tokens[pos as int] == printed[0]);
    if let StmtView::Label(label, inner) = stmt {
        assert(printed[1] == mark(TokenKind::Colon));
        assert(tokens[pos + 1 as int] == printed[1]);
    }
}

/// A statement that is printed is read back, where no `else` follows it
/// that an `if` inside it would take.
pub proof fn lemma_read_statement(stmt: StmtView, tokens: Seq<TokenView>, pos: nat)
    requires
        printable_statement(stmt),
        holds_at(tokens, pos, print_statement(stmt)),
        no_dangling_else(stmt, tokens, pos + print_statement(stmt).len()),
    ensures
        parse_statement(tokens, pos) == Ok::<(StmtView, nat), ParseError>(
            (stmt, print_statement(stmt).len()),
        ),
    decreases stmt, 1nat,
{
    lemma_first_kind(stmt, tokens, pos);
    match stmt {
        StmtView::Return(expr) => {
            lemma_read_return(expr, tokens, pos);
        },
        StmtView::Expression(expr) => {
            lemma_read_expression_then(expr, tokens, pos, TokenKind::Semicolon);
        },
        StmtView::Null => {},
        StmtView::If { condition, then_branch, else_branch } => {
            if else_branch is Some {
                lemma_read_if_else(stmt, tokens, pos);
            } else {
                lemma_read_if(stmt, tokens, pos);
            }
        },
        StmtView::Goto(label) => {
            lemma_read_jump(stmt, tokens, pos);
        },
        StmtView::Label(label, inner) => {
            lemma_read_labeled(stmt, tokens, pos);
        },
        StmtView::Break { .. } => {
            lemma_read_jump(stmt, tokens, pos);
        },
        StmtView::Continue { .. } => {
            lemma_read_jump(stmt, tokens, pos);
        },
        StmtView::While { .. } => {
            lemma_read_while(stmt, tokens, pos);
        },
        StmtView::DoWhile { .. } => {
            lemma_read_do_while(stmt, tokens, pos);
        },
        StmtView::For { .. } => {
            lemma_read_for(stmt, tokens, pos);
        },
        StmtView::Compound(items) => {
            lemma_read_compound(stmt, tokens, pos);
        },
    }
}

/// A labelled statement that is printed is read back.
proof fn lemma_read_labeled(stmt: StmtView, tokens: Seq<TokenView>, pos: nat)
    requires
        stmt is Label,
        printable_statement(stmt),
        holds_at(tokens, pos, print_statement(stmt)),
        no_dangling_else(stmt, tokens, pos + print_statement(stmt).len()),
    ensures
        parse_labeled(tokens, pos) == Ok::<(StmtView, nat), ParseError>(
            (stmt, print_statement(stmt).len()),
        ),
    decreases stmt, 0nat,
{
    if let StmtView::Label(label, inner) = stmt {
        let head = seq![identifier(label), mark(TokenKind::Colon)];
        lemma_holds_both(tokens, pos, head, print_statement(*inner));
        assert(tokens[pos as int] == head[0]);
        assert(tokens[pos + 1 as int] == head[1]);
        lemma_read_statement(*inner, tokens, pos + 2);
    }
}

/// A block that is printed is read back.
proof fn lemma_read_compound(stmt: StmtView, tokens: Seq<TokenView>, pos: nat)
    requires
        stmt is Compound,
        printable_statement(stmt),
        holds_at(tokens, pos, print_statement(stmt)),
    ensures
        parse_block(tokens, pos) == Ok::<(Seq<BlockItemView>, nat), ParseError>(
            (stmt->Compound_0, print_statement(stmt).len()),
        ),
    decreases stmt, 0nat,
{
    if let StmtView::Compound(items) = stmt {
        let open = seq![mark(TokenKind::LeftBrace)];
        let close = seq![mark(TokenKind::RightBrace)];
        assert(print_statement(stmt) =~= open + (print_items(items, 0) + close));
        lemma_holds_both(tokens, pos, open, print_items(items, 0) + close);
        lemma_holds_mark(tokens, pos, TokenKind::LeftBrace);
        lemma_read_items(items, 0, tokens, pos + 1);
        assert(items.skip(0) =~= items);
    }
}

/// An `if` without an `else` that is printed is read back.
proof fn lemma_read_if(stmt: StmtView, tokens: Seq<TokenView>, pos: nat)
    requires
        stmt is If,
        stmt->If_else_branch is None,
        printable_statement(stmt),
        holds_at(tokens, pos, print_statement(stmt)),
        no_dangling_else(stmt, tokens, pos + print_statement(stmt).len()),
    ensures
        parse_if(tokens, pos) == Ok::<(StmtView, nat), ParseError>(
            (stmt, print_statement(stmt).len()),
        ),
    decreases stmt, 0nat,
{
    if let StmtView::If { condition, then_branch, else_branch } = stmt {
        let keyword = seq![mark(TokenKind::If)];
        let test = parenthesized(print_expr(condition));
        let first = print_statement(*then_branch);
        assert(print_statement(stmt) =~= keyword + test + first);
        lemma_holds_parts(tokens, pos, keyword, test, first);
        lemma_holds_mark(tokens, pos, TokenKind::If);
        lemma_read_condition(condition, tokens, pos + 1);
        lemma_read_statement(*then_branch, tokens, pos + 1 + test.len());
    }
}

/// What the parser reads where an `if`, a condition, a statement, an
/// `else` and a statement follow one another.
proof fn lemma_if_else_from_parts(
    tokens: Seq<TokenView>,
    pos: nat,
    condition: ExprView,
    then_branch: StmtView,
    else_branch: StmtView,
    n: nat,
    m: nat,
    k: nat,
)
    requires
        kind_at(tokens, pos) == Some(TokenKind::If),
        parse_condition(tokens, pos + 1) == Ok::<(ExprView, nat), ParseError>((condition, n)),
        parse_statement(tokens, pos + 1 + n) == Ok::<(StmtView, nat), ParseError>(
            (then_branch, m),
        ),
        kind_at(tokens, pos + 1 + n + m) == Some(TokenKind::Else),
        parse_statement(tokens, pos + 2 + n + m) == Ok::<(StmtView, nat), ParseError>(
            (else_branch, k),
        ),
    ensures
        parse_if(tokens, pos) == Ok::<(StmtView, nat), ParseError>(
            (
                StmtView::If {
                    condition,
                    then_branch: Box::new(then_branch),
                    else_branch: Some(Box::new(else_branch)),
                },
                2 + n + m + k,
            ),
        ),
{
}

/// An `if` with an `else` that is printed is read back.
proof fn lemma_read_if_else(stmt: StmtView, tokens: Seq<TokenView>, pos: nat)
    requires
        stmt is If,
        stmt->If_else_branch is Some,
        printable_statement(stmt),
        holds_at(tokens, pos, print_statement(stmt)),
        no_dangling_else(stmt, tokens, pos + print_statement(stmt).len()),
    ensures
        parse_if(tokens, pos) == Ok::<(StmtView, nat), ParseError>(
            (stmt, print_statement(stmt).len()),
        ),
    decreases stmt, 0nat,
{
    if let StmtView::If { condition, then_branch, else_branch: Some(else_branch) } = stmt {
        let keyword = seq![mark(TokenKind::If)];
        let test = parenthesized(print_expr(condition));
        let first = print_statement(*then_branch);
        let otherwise = seq![mark(TokenKind::Else)];
        let second = print_statement(*else_branch);
        let start = pos + 1 + test.len();
        let after = start + first.len();
        assert(holds_at(tokens, pos, keyword + test + first) && holds_at(
            tokens,
            after,
            otherwise + second,
        ) && print_statement(stmt).len() == 2 + test.len() + first.len() + second.len()) by {
            lemma_holds_both(tokens, pos, keyword + test + first, otherwise + second);
        }
        assert(holds_at(tokens, after + 1, second) && kind_at(tokens, after) == Some(
            TokenKind::Else,
        )) by {
            lemma_holds_both(tokens, after, otherwise, second);
            lemma_holds_mark(tokens, after, TokenKind::Else);
        }
        assert(holds_at(tokens, pos + 1, test) && holds_at(tokens, start, first) && kind_at(
            tokens,
            pos,
        ) == Some(TokenKind::If)) by {
            lemma_holds_parts(tokens, pos, keyword, test, first);
            lemma_holds_mark(tokens, pos, TokenKind::If);
        }
        lemma_read_condition(condition, tokens, pos + 1);
        lemma_read_statement(*then_branch, tokens, start);
        lemma_read_statement(*else_branch, tokens, after + 1);
        lemma_if_else_from_parts(
            tokens,
            pos,
            condition,
            *then_branch,
            *else_branch,
            test.len(),
            first.len(),
            second.len(),
        );
    }
}

/// A `while` loop that is printed is read back.
proof fn lemma_read_while(stmt: StmtView, tokens: Seq<TokenView>, pos: nat)
    requires
        stmt is While,
        printable_statement(stmt),
        holds_at(tokens, pos, print_statement(stmt)),
        no_dangling_else(stmt, tokens, pos + print_statement(stmt).len()),
    ensures
        parse_while(tokens, pos) == Ok::<(StmtView, nat), ParseError>(
            (stmt, print_statement(stmt).len()),
        ),
    decreases stmt, 0nat,
{
    if let StmtView::While { condition, body, label } = stmt {
        let keyword = seq![mark(TokenKind::While)];
        let test = parenthesized(print_expr(condition));
        lemma_holds_parts(tokens, pos, keyword, test, print_statement(*body));
        lemma_holds_mark(tokens, pos, TokenKind::While);
        lemma_read_condition(condition, tokens, pos + 1);
        lemma_read_statement(*body, tokens, pos + 1 + test.len());
    }
}

/// A `do` loop that is printed is read back.
proof fn lemma_read_do_while(stmt: StmtView, tokens: Seq<TokenView>, pos: nat)
    requires
        stmt is DoWhile,
        printable_statement(stmt),
        holds_at(tokens, pos, print_statement(stmt)),
    ensures
        parse_do_while(tokens, pos) == Ok::<(StmtView, nat), ParseError>(
            (stmt, print_statement(stmt).len()),
        ),
    decreases stmt, 0nat,
{
    if let StmtView::DoWhile { body, condition, label } = stmt {
        let keyword = seq![mark(TokenKind::Do)];
        let inner = print_statement(*body);
        let again = seq![mark(TokenKind::While)];
        let test = parenthesized(print_expr(condition));
        let end = seq![mark(TokenKind::Semicolon)];
        lemma_holds_both(tokens, pos, keyword + inner + again + test, end);
        lemma_holds_both(tokens, pos, keyword + inner + again, test);
        lemma_holds_parts(tokens, pos, keyword, inner, again);
        lemma_holds_mark(tokens, pos, TokenKind::Do);
        lemma_holds_mark(tokens, pos + 1 + inner.len(), TokenKind::While);
        lemma_holds_mark(tokens, pos + 2 + inner.len() + test.len(), TokenKind::Semicolon);
        lemma_read_statement(*body, tokens, pos + 1);
        lemma_read_condition(condition, tokens, pos + 2 + inner.len());
    }
}

/// A `for` loop that is printed is read back.
proof fn lemma_read_for(stmt: StmtView, tokens: Seq<TokenView>, pos: nat)
    requires
        stmt is For,
        printable_statement(stmt),
        holds_at(tokens, pos, print_statement(stmt)),
        no_dangling_else(stmt, tokens, pos + print_statement(stmt).len()),
    ensures
        parse_for(tokens, pos) == Ok::<(StmtView, nat), ParseError>(
            (stmt, print_statement(stmt).len()),
        ),
    decreases stmt, 0nat,
{
    if let StmtView::For { init, condition, post, body, label } = stmt {
        let keyword = seq![mark(TokenKind::For)];
        let header = print_for_header(init, condition, post);
        lemma_holds_parts(tokens, pos, keyword, header, print_statement(*body));
        lemma_holds_mark(tokens, pos, TokenKind::For);
        lemma_read_for_header(init, condition, post, tokens, pos + 1);
        lemma_read_statement(*body, tokens, pos + 1 + header.len());
    }
}

/// A block item that is printed is read back.
proof fn lemma_read_item(item: BlockItemView, tokens: Seq<TokenView>, pos: nat)
    requires
        printable_item(item),
        holds_at(tokens, pos, print_item(item)),
        kind_at(tokens, pos + print_item(item).len()) != Some(TokenKind::Else),
    ensures
        parse_block_item(tokens, pos) == Ok::<(BlockItemView, nat), ParseError>(
            (item, print_item(item).len()),
        ),
        print_item(item).len() > 0,
        kind_at(tokens, pos) != Some(TokenKind::RightBrace),
        kind_at(tokens, pos) is Some,
    decreases item, 0nat,
{
    lemma_item_first(item);
    assert(tokens[pos as int] == print_item(item)[0]);
    match item {
        BlockItemView::Statement(stmt) => {
            lemma_read_statement(stmt, tokens, pos);
        },
        BlockItemView::Decleration(decl) => {
            lemma_read_declaration(decl, tokens, pos);
        },
    }
}

/// The items of a block that are printed, from index `from` on, and the
/// brace that closes the block are read back.
pub proof fn lemma_read_items(
    items: Seq<BlockItemView>,
    from: nat,
    tokens: Seq<TokenView>,
    pos: nat,
)
    requires
        from <= items.len(),
        forall|i: int| 0 <= i < items.len() ==> printable_item(#[trigger] items[i]),
        holds_at(tokens, pos, print_items(items, from) + seq![mark(TokenKind::RightBrace)]),
    ensures
        parse_block_items(tokens, pos) == Ok::<(Seq<BlockItemView>, nat), ParseError>(
            (items.skip(from as int), print_items(items, from).len() + 1),
        ),
    decreases items, items.len() - from,
{
    let close = seq![mark(TokenKind::RightBrace)];
    if from >= items.len() {
        lemma_holds_both(tokens, pos, Seq::empty(), close);
        lemma_holds_mark(tokens, pos, TokenKind::RightBrace);
        assert(items.skip(from as int) =~= Seq::empty());
    } else {
        let item = items[from as int];
        let first = print_item(item);
        let rest = print_items(items, from + 1);
        assert(print_items(items, from) + close =~= first + (rest + close));
        lemma_holds_both(tokens, pos, first, rest + close);
        let after = pos + first.len();
        // The next token starts an item or closes the block: it is no `else`.
        if from + 1 < items.len() {
            lemma_item_first(items[from + 1 as int]);
            assert((rest + close)[0] == print_item(items[from + 1 as int])[0]);
        } else {
            assert((rest + close)[0] == mark(TokenKind::RightBrace));
        }
        assert(tokens[after as int] == (rest + close)[0]);
        lemma_read_item(item, tokens, pos);
        lemma_read_items(items, from + 1, tokens, after);
        assert(seq![item] + items.skip(from + 1 as int) =~= items.skip(from as int));
    }
}

/// A program that is printed is read back by the parser.
pub proof fn lemma_read_program(program: FunctionView)
    requires
        printable_program(program),
    ensures
        parse_program(print_program(program), 0) == Ok::<FunctionView, ParseError>(program),
{
    let tokens = print_program(program);
    let head = seq![
        mark(TokenKind::Int),
        identifier(program.name),
        mark(TokenKind::LeftParen),
        mark(TokenKind::Void),
        mark(TokenKind::RightParen),
        mark(TokenKind::LeftBrace),
    ];
    let close = seq![mark(TokenKind::RightBrace)];
    let body = print_items(program.body, 0);
    assert(tokens =~= head + (body + close));
    assert(holds_at(tokens, 0, head + (body + close)));
    lemma_holds_both(tokens, 0, head, body + close);
    assert forall|i: int| 0 <= i < 6 implies tokens[i] == head[i] by {}
    lemma_read_items(program.body, 0, tokens, 6);
    assert(program.body.skip(0) =~= program.body);
    assert(parse_block(tokens, 5) == Ok::<(Seq<BlockItemView>, nat), ParseError>(
        (program.body, body.len() + 2),
    ));
    assert(parse_function(tokens, 0) == Ok::<(FunctionView, nat), ParseError>(
        (program, body.len() + 7),
    ));
}

/// Whether a kind of token is a keyword.
pub open spec fn is_keyword(kind: TokenKind) -> bool {
    kind == TokenKind::Int || kind == TokenKind::Void || kind == TokenKind::Return || kind
        == TokenKind::If || kind == TokenKind::Else || kind == TokenKind::Goto || kind
        == TokenKind::Break || kind == TokenKind::Continue || kind == TokenKind::While || kind
        == TokenKind::Do || kind == TokenKind::For
}

/// A keyword is well spelled.
proof fn lemma_keyword_spelled(kind: TokenKind)
    requires
        is_keyword(kind),
    ensures
        well_spelled(mark(kind)),
{
    reveal(well_spelled);
    let lexeme = spelling(kind);
    let text = lexeme + seq![' '];
    assert(text.take(lexeme.len() as int) =~= lexeme);
    assert forall|i: int| 0 <= i < lexeme.len() implies is_ident_char(#[trigger] text[i]) by {
        assert(text[i] == lexeme[i]);
    }
    assert(text[lexeme.len() as int] == ' ');
    lemma_ident_run_is(text, lexeme.len());
    assert(text[0] == lexeme[0]);
    assert(keyword(lexeme) == Some(kind));
}

/// A punctuator is well spelled.
proof fn lemma_punctuator_spelled(kind: TokenKind)
    requires
        !is_keyword(kind),
        kind != TokenKind::Identifier,
        kind != TokenKind::Constant,
    ensures
        well_spelled(mark(kind)),
{
    reveal(well_spelled);
    let lexeme = spelling(kind);
    let text = lexeme + seq![' '];
    let n = lexeme.len();
    assert(text.take(n as int) =~= lexeme);
    assert(text[0] == lexeme[0]);
    assert(text[n as int] == ' ');
    assert(punctuator_kind(lexeme) == Some(kind));
    if n == 1 {
        assert(text.take(2) =~= seq![lexeme[0], ' ']);
        assert(!punctuator_prefix(text, 2));
        assert(!punctuator_prefix(text, 3));
    } else if n == 2 {
        assert(text.take(3) =~= seq![lexeme[0], lexeme[1], ' ']);
        assert(!punctuator_prefix(text, 3));
    } else {
        assert(n == 3);
    }
    assert(punctuator_prefix(text, n));
    assert(punctuator_len(text) == n);
}

/// A mark is well spelled.
proof fn lemma_mark_spelled(kind: TokenKind)
    requires
        kind != TokenKind::Identifier,
        kind != TokenKind::Constant,
    ensures
        all_well_spelled(seq![mark(kind)]),
{
    if is_keyword(kind) {
        lemma_keyword_spelled(kind);
    } else {
        lemma_punctuator_spelled(kind);
    }
}

/// An identifier is well spelled.
proof fn lemma_identifier_spelled(name: Seq<char>)
    requires
        is_identifier(name),
    ensures
        all_well_spelled(seq![identifier(name)]),
{
    reveal(is_identifier);
    reveal(well_spelled);
    let text = name + seq![' '];
    assert(text.take(name.len() as int) =~= name);
    assert forall|i: int| 0 <= i < name.len() implies is_ident_char(#[trigger] text[i]) by {
        assert(text[i] == name[i]);
        assert(is_ident_char(name[i]));
    }
    assert(text[name.len() as int] == ' ');
    lemma_ident_run_is(text, name.len());
    assert(text[0] == name[0]);
}

/// The numeral of a constant that is not negative is well spelled.
proof fn lemma_constant_spelled(value: i32)
    requires
        value >= 0,
    ensures
        all_well_spelled(seq![constant(value)]),
{
    reveal(well_spelled);
    let lexeme = decimal(value as nat);
    let text = lexeme + seq![' '];
    lemma_decimal(value as nat);
    lemma_decimal_digits(value as nat);
    assert(text.take(lexeme.len() as int) =~= lexeme);
    assert forall|i: int| 0 <= i < lexeme.len() implies is_digit(#[trigger] text[i]) by {
        assert(text[i] == lexeme[i]);
        assert(is_digit(lexeme[i]));
    }
    assert(text[lexeme.len() as int] == ' ');
    lemma_digit_run_is(text, lexeme.len());
    assert(text[0] == lexeme[0]);
}

/// Well-spelled tokens in parentheses are well spelled.
proof fn lemma_parenthesized_spelled(tokens: Seq<TokenView>)
    requires
        all_well_spelled(tokens),
    ensures
        all_well_spelled(parenthesized(tokens)),
{
    lemma_mark_spelled(TokenKind::LeftParen);
    lemma_mark_spelled(TokenKind::RightParen);
    lemma_well_spelled_append(seq![mark(TokenKind::LeftParen)], tokens);
    lemma_well_spelled_append(
        seq![mark(TokenKind::LeftParen)] + tokens,
        seq![mark(TokenKind::RightParen)],
    );
}

/// The tokens of a printable expression are well spelled.
proof fn lemma_expr_spelled(expr: ExprView)
    requires
        printable_expr(expr),
    ensures
        all_well_spelled(print_expr(expr)),
        all_well_spelled(parenthesized(print_expr(expr))),
    decreases expr,
{
    match expr {
        ExprView::Constant(value) => {
            lemma_constant_spelled(value);
        },
        ExprView::Var(name) => {
            lemma_identifier_spelled(name);
        },
        ExprView::Unary { operator, right } => {
            lemma_expr_spelled(*right);
            let operand = parenthesized(print_expr(*right));
            let sign = seq![mark(unary_token(operator))];
            lemma_mark_spelled(unary_token(operator));
            if is_postfix(operator) {
                lemma_well_spelled_append(operand, sign);
            } else {
                lemma_well_spelled_append(sign, operand);
            }
        },
        ExprView::Binary { operator, left, right } => {
            lemma_expr_spelled(*left);
            lemma_expr_spelled(*right);
            let first = parenthesized(print_expr(*left));
            let sign = seq![mark(binary_token(operator))];
            lemma_mark_spelled(binary_token(operator));
            lemma_well_spelled_append(first, sign);
            lemma_well_spelled_append(first + sign, parenthesized(print_expr(*right)));
        },
        ExprView::Assignment { operator, left, right } => {
            lemma_expr_spelled(*left);
            lemma_expr_spelled(*right);
            let first = parenthesized(print_expr(*left));
            let sign = seq![mark(assignment_token(operator))];
            lemma_mark_spelled(assignment_token(operator));
            lemma_well_spelled_append(first, sign);
            lemma_well_spelled_append(first + sign, parenthesized(print_expr(*right)));
        },
        ExprView::Conditional { condition, then_branch, else_branch } => {
            lemma_expr_spelled(*condition);
            lemma_expr_spelled(*then_branch);
            lemma_expr_spelled(*else_branch);
            let first = parenthesized(print_expr(*condition));
            let second = parenthesized(print_expr(*then_branch));
            let third = parenthesized(print_expr(*else_branch));
            let question = seq![mark(TokenKind::Question)];
            let colon = seq![mark(TokenKind::Colon)];
            lemma_mark_spelled(TokenKind::Question);
            lemma_mark_spelled(TokenKind::Colon);
            lemma_well_spelled_append(first, question);
            lemma_well_spelled_append(first + question, second);
            lemma_well_spelled_append(first + question + second, colon);
            lemma_well_spelled_append(first + question + second + colon, third);
        },
    }
    lemma_parenthesized_spelled(print_expr(expr));
}

/// The tokens of a printable expression that may be left out are well
/// spelled.
proof fn lemma_optional_spelled(expr: Option<ExprView>)
    requires
        printable_optional(expr),
    ensures
        all_well_spelled(print_optional(expr)),
{
    match expr {
        Some(expr) => {
            lemma_expr_spelled(expr);
        },
        None => {},
    }
}

/// The tokens of a printable declaration are well spelled.
proof fn lemma_declaration_spelled(decl: DeclView)
    requires
        printable_declaration(decl),
    ensures
        all_well_spelled(print_declaration(decl)),
{
    let keyword = seq![mark(TokenKind::Int)];
    let name = seq![identifier(decl.name)];
    let head = seq![mark(TokenKind::Int), identifier(decl.name)];
    let end = seq![mark(TokenKind::Semicolon)];
    lemma_mark_spelled(TokenKind::Int);
    lemma_identifier_spelled(decl.name);
    lemma_mark_spelled(TokenKind::Semicolon);
    lemma_well_spelled_append(keyword, name);
    assert(head =~= keyword + name);
    match decl.init {
        Some(init) => {
            let equal = seq![mark(TokenKind::Equal)];
            lemma_mark_spelled(TokenKind::Equal);
            lemma_expr_spelled(init);
            lemma_well_spelled_append(equal, parenthesized(print_expr(init)));
            lemma_well_spelled_append(head, equal + parenthesized(print_expr(init)));
            lemma_well_spelled_append(head + (equal + parenthesized(print_expr(init))), end);
        },
        None => {
            lemma_well_spelled_append(head, Seq::empty());
            lemma_well_spelled_append(head + Seq::empty(), end);
        },
    }
}

/// The tokens of the header of a printable `for` loop are well spelled.
proof fn lemma_for_header_spelled(
    init: ForInitView,
    condition: Option<ExprView>,
    post: Option<ExprView>,
)
    requires
        match init {
            ForInitView::InitDecl(decl) => printable_declaration(decl),
            ForInitView::InitExp(expr) => printable_optional(expr),
        },
        printable_optional(condition),
        printable_optional(post),
    ensures
        all_well_spelled(print_for_header(init, condition, post)),
{
    let open = seq![mark(TokenKind::LeftParen)];
    let semicolon = seq![mark(TokenKind::Semicolon)];
    let close = seq![mark(TokenKind::RightParen)];
    lemma_mark_spelled(TokenKind::LeftParen);
    lemma_mark_spelled(TokenKind::Semicolon);
    lemma_mark_spelled(TokenKind::RightParen);
    match init {
        ForInitView::InitDecl(decl) => {
            lemma_declaration_spelled(decl);
        },
        ForInitView::InitExp(expr) => {
            lemma_optional_spelled(expr);
            lemma_well_spelled_append(print_optional(expr), semicolon);
        },
    }
    lemma_optional_spelled(condition);
    lemma_optional_spelled(post);
    lemma_well_spelled_append(print_optional(condition), semicolon);
    lemma_well_spelled_append(print_optional(post), close);
    lemma_well_spelled_append(open, print_for_init(init));
    lemma_well_spelled_append(open + print_for_init(init), print_optional(condition) + semicolon);
    lemma_well_spelled_append(
        open + print_for_init(init) + (print_optional(condition) + semicolon),
        print_optional(post) + close,
    );
}

/// The tokens of a printable statement are well spelled.
proof fn lemma_statement_spelled(stmt: StmtView)
    requires
        printable_statement(stmt),
    ensures
        all_well_spelled(print_statement(stmt)),
    decreases stmt, 0nat,
{
    let semicolon = seq![mark(TokenKind::Semicolon)];
    lemma_mark_spelled(TokenKind::Semicolon);
    match stmt {
        StmtView::Return(expr) => {
            let keyword = seq![mark(TokenKind::Return)];
            lemma_mark_spelled(TokenKind::Return);
            lemma_expr_spelled(expr);
            lemma_well_spelled_append(keyword, parenthesized(print_expr(expr)));
            lemma_well_spelled_append(keyword + parenthesized(print_expr(expr)), semicolon);
        },
        StmtView::Expression(expr) => {
            lemma_expr_spelled(expr);
            lemma_well_spelled_append(parenthesized(print_expr(expr)), semicolon);
        },
        StmtView::Null => {},
        StmtView::If { condition, then_branch, else_branch } => {
            let keyword = seq![mark(TokenKind::If)];
            let test = parenthesized(print_expr(condition));
            lemma_mark_spelled(TokenKind::If);
            lemma_expr_spelled(condition);
            lemma_statement_spelled(*then_branch);
            lemma_well_spelled_append(keyword, test);
            lemma_well_spelled_append(keyword + test, print_statement(*then_branch));
            let head = keyword + test + print_statement(*then_branch);
            match else_branch {
                Some(else_branch) => {
                    let otherwise = seq![mark(TokenKind::Else)];
                    lemma_mark_spelled(TokenKind::Else);
                    lemma_statement_spelled(*else_branch);
                    lemma_well_spelled_append(otherwise, print_statement(*else_branch));
                    lemma_well_spelled_append(head, otherwise + print_statement(*else_branch));
                },
                None => {
                    lemma_well_spelled_append(head, Seq::empty());
                },
            }
        },
        StmtView::Goto(label) => {
            let keyword = seq![mark(TokenKind::Goto)];
            let name = seq![identifier(label)];
            lemma_mark_spelled(TokenKind::Goto);
            lemma_identifier_spelled(label);
            lemma_well_spelled_append(keyword, name);
            lemma_well_spelled_append(keyword + name, semicolon);
            assert(print_statement(stmt) =~= keyword + name + semicolon);
        },
        StmtView::Label(label, inner) => {
            let name = seq![identifier(label)];
            let colon = seq![mark(TokenKind::Colon)];
            lemma_identifier_spelled(label);
            lemma_mark_spelled(TokenKind::Colon);
            lemma_statement_spelled(*inner);
            lemma_well_spelled_append(name, colon);
            assert(seq![identifier(label), mark(TokenKind::Colon)] =~= name + colon);
            lemma_well_spelled_append(name + colon, print_statement(*inner));
        },
        StmtView::Break { .. } => {
            let keyword = seq![mark(TokenKind::Break)];
            lemma_mark_spelled(TokenKind::Break);
            lemma_well_spelled_append(keyword, semicolon);
            assert(print_statement(stmt) =~= keyword + semicolon);
        },
        StmtView::Continue { .. } => {
            let keyword = seq![mark(TokenKind::Continue)];
            lemma_mark_spelled(TokenKind::Continue);
            lemma_well_spelled_append(keyword, semicolon);
            assert(print_statement(stmt) =~= keyword + semicolon);
        },
        StmtView::While { condition, body, .. } => {
            let keyword = seq![mark(TokenKind::While)];
            let test = parenthesized(print_expr(condition));
            lemma_mark_spelled(TokenKind::While);
            lemma_expr_spelled(condition);
            lemma_statement_spelled(*body);
            lemma_well_spelled_append(keyword, test);
            lemma_well_spelled_append(keyword + test, print_statement(*body));
        },
        StmtView::DoWhile { body, condition, .. } => {
            let keyword = seq![mark(TokenKind::Do)];
            let again = seq![mark(TokenKind::While)];
            let test = parenthesized(print_expr(condition));
            lemma_mark_spelled(TokenKind::Do);
            lemma_mark_spelled(TokenKind::While);
            lemma_expr_spelled(condition);
            lemma_statement_spelled(*body);
            lemma_well_spelled_append(keyword, print_statement(*body));
            lemma_well_spelled_append(keyword + print_statement(*body), again);
            lemma_well_spelled_append(keyword + print_statement(*body) + again, test);
            lemma_well_spelled_append(keyword + print_statement(*body) + again + test, semicolon);
        },
        StmtView::For { init, condition, post, body, .. } => {
            let keyword = seq![mark(TokenKind::For)];
            lemma_mark_spelled(TokenKind::For);
            lemma_for_header_spelled(init, condition, post);
            lemma_statement_spelled(*body);
            lemma_well_spelled_append(keyword, print_for_header(init, condition, post));
            lemma_well_spelled_append(
                keyword + print_for_header(init, condition, post),
                print_statement(*body),
            );
        },
        StmtView::Compound(items) => {
            let open = seq![mark(TokenKind::LeftBrace)];
            let close = seq![mark(TokenKind::RightBrace)];
            lemma_mark_spelled(TokenKind::LeftBrace);
            lemma_mark_spelled(TokenKind::RightBrace);
            lemma_items_spelled(items, 0);
            lemma_well_spelled_append(open, print_items(items, 0));
            lemma_well_spelled_append(open + print_items(items, 0), close);
        },
    }
}

/// The tokens of printable block items are well spelled.
proof fn lemma_items_spelled(items: Seq<BlockItemView>, from: nat)
    requires
        forall|i: int| 0 <= i < items.len() ==> printable_item(#[trigger] items[i]),
    ensures
        all_well_spelled(print_items(items, from)),
    decreases items, items.len() - from,
{
    if from < items.len() {
        let item = items[from as int];
        assert(printable_item(item));
        match item {
            BlockItemView::Statement(stmt) => {
                lemma_statement_spelled(stmt);
            },
            BlockItemView::Decleration(decl) => {
                lemma_declaration_spelled(decl);
            },
        }
        lemma_items_spelled(items, from + 1);
        lemma_well_spelled_append(print_item(item), print_items(items, from + 1));
    }
}

/// The tokens of a printable program are well spelled.
proof fn lemma_program_spelled(program: FunctionView)
    requires
        printable_program(program),
    ensures
        all_well_spelled(print_program(program)),
{
    let head = seq![
        mark(TokenKind::Int),
        identifier(program.name),
        mark(TokenKind::LeftParen),
        mark(TokenKind::Void),
        mark(TokenKind::RightParen),
        mark(TokenKind::LeftBrace),
    ];
    let close = seq![mark(TokenKind::RightBrace)];
    lemma_mark_spelled(TokenKind::Int);
    lemma_identifier_spelled(program.name);
    lemma_mark_spelled(TokenKind::LeftParen);
    lemma_mark_spelled(TokenKind::Void);
    lemma_mark_spelled(TokenKind::RightParen);
    lemma_mark_spelled(TokenKind::LeftBrace);
    lemma_mark_spelled(TokenKind::RightBrace);
    assert(all_well_spelled(head)) by {
        assert forall|i: int| 0 <= i < head.len() implies well_spelled(#[trigger] head[i])
            && head[i].line == 1 by {
            assert(seq![mark(TokenKind::Int)][0] == head[0]);
            assert(seq![identifier(program.name)][0] == head[1]);
            assert(seq![mark(TokenKind::LeftParen)][0] == head[2]);
            assert(seq![mark(TokenKind::Void)][0] == head[3]);
            assert(seq![mark(TokenKind::RightParen)][0] == head[4]);
            assert(seq![mark(TokenKind::LeftBrace)][0] == head[5]);
        }
    }
    lemma_items_spelled(program.body, 0);
    lemma_well_spelled_append(head, print_items(program.body, 0));
    lemma_well_spelled_append(head + print_items(program.body, 0), close);
}

/// The text of a program: its tokens, each followed by a blank.
pub open spec fn print_text(program: FunctionView) -> Seq<char> {
    spell(print_program(program))
}

/// The round trip of a syntax tree: the text of a printable program lexes,
/// and what it lexes to parses to the program.
pub proof fn lemma_round_trip(program: FunctionView)
    requires
        printable_program(program),
    ensures
        lex(print_text(program), 1).error is None,
        lex(print_text(program), 1).tokens == print_program(program),
        parse_program(lex(print_text(program), 1).tokens, 0) == Ok::<FunctionView, ParseError>(
            program,
        ),
{
    lemma_program_spelled(program);
    lemma_lex_well_spelled(print_program(program));
    lemma_read_program(program);
}

} // verus!
