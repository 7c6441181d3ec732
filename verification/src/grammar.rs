//! The grammar of the source language, as a function from a token sequence
//! to the syntax tree that it spells, or to the error that it holds.
//!
//! ```text
//! program    := function
//! function   := "int" IDENT "(" "void" ")" block
//! block      := "{" block_item* "}"
//! block_item := decl | stmt
//! decl       := "int" IDENT ("=" expr)? ";"
//! stmt       := "return" expr ";" | expr ";" | ";"
//!             | "if" "(" expr ")" stmt ("else" stmt)?
//!             | "goto" IDENT ";" | IDENT ":" stmt
//!             | "break" ";" | "continue" ";"
//!             | "while" "(" expr ")" stmt
//!             | "do" stmt "while" "(" expr ")" ";"
//!             | "for" "(" for_init expr? ";" expr? ")" stmt
//!             | block
//! for_init   := decl | expr? ";"
//! expr(p)    := factor { binop(q >= p) expr(q + 1) | assign_op expr(q)
//!                      | "?" expr(0) ":" expr(q) }
//! factor     := primary ("++" | "--")?
//! primary    := INT | IDENT | "(" expr ")" | unop factor | ("++" | "--") factor
//! ```
//!
//! Each function of the grammar takes the whole token sequence and the
//! position at which to start, and yields a value together with the number
//! of tokens that spell it.

use vstd::prelude::*;
use crate::ast::{
    AssignmentOp, BinaryOp, BlockItemView, DeclView, ExprView, ForInitView, FunctionView,
    StmtView, UnaryOp,
};
use crate::lexer::is_digit;
use crate::parser::ParseError;
use crate::text::digits_value;
use crate::token::{TokenKind, TokenView};

verus! {

/// A value read from the tokens, with the number of tokens that spell it;
/// or the error found.
pub type Parsed<T> = Result<(T, nat), ParseError>;

/// The number of tokens from `pos` to the end.
pub open spec fn tokens_left(tokens: Seq<TokenView>, pos: nat) -> nat {
    if pos < tokens.len() {
        (tokens.len() - pos) as nat
    } else {
        0
    }
}

/// The kind of the token at `pos`, if there is one.
pub open spec fn kind_at(tokens: Seq<TokenView>, pos: nat) -> Option<TokenKind> {
    if pos < tokens.len() {
        Some(tokens[pos as int].kind)
    } else {
        None
    }
}

/// The line to report for `pos`: that of the token there, or that of the
/// last token where the tokens end before `pos` (0 where there is none).
pub open spec fn line_at(tokens: Seq<TokenView>, pos: nat) -> usize {
    if pos < tokens.len() {
        tokens[pos as int].line as usize
    } else if tokens.len() > 0 {
        tokens.last().line as usize
    } else {
        0
    }
}

/// The error for a token at `pos` that is not the expected one.
pub open spec fn unexpected(tokens: Seq<TokenView>, pos: nat, expected: Option<TokenKind>)
    -> ParseError {
    ParseError::UnexpectedToken {
        expected,
        got: kind_at(tokens, pos),
        line: line_at(tokens, pos),
    }
}

/// The binding strength of an operator token: the higher, the tighter.
pub open spec fn precedence(kind: TokenKind) -> Option<nat> {
    match kind {
        TokenKind::Equal
        | TokenKind::PlusEqual
        | TokenKind::HyphenEqual
        | TokenKind::AsteriskEqual
        | TokenKind::ForwardSlashEqual
        | TokenKind::PercentEqual
        | TokenKind::AmpersandEqual
        | TokenKind::BarEqual
        | TokenKind::CaretEqual
        | TokenKind::LeftShiftEqual
        | TokenKind::RightShiftEqual => Some(1),
        TokenKind::Question => Some(3),
        TokenKind::DoubleBar => Some(5),
        TokenKind::DoubleAmpersand => Some(9),
        TokenKind::Bar => Some(15),
        TokenKind::Caret => Some(20),
        TokenKind::Ampersand => Some(25),
        TokenKind::DoubleEqual | TokenKind::BangEqual => Some(30),
        TokenKind::Greater
        | TokenKind::GreaterEqual
        | TokenKind::Less
        | TokenKind::LessEqual => Some(35),
        TokenKind::LeftShift | TokenKind::RightShift => Some(40),
        TokenKind::Hyphen | TokenKind::Plus => Some(45),
        TokenKind::Asterisk | TokenKind::ForwardSlash | TokenKind::Percent => Some(50),
        _ => None,
    }
}

/// The assignment operator that a token spells, if it spells one.
pub open spec fn assignment_op(kind: TokenKind) -> Option<AssignmentOp> {
    match kind {
        TokenKind::Equal => Some(AssignmentOp::Equal),
        TokenKind::PlusEqual => Some(AssignmentOp::PlusEqual),
        TokenKind::HyphenEqual => Some(AssignmentOp::SubtractEqual),
        TokenKind::AsteriskEqual => Some(AssignmentOp::MultipleEqual),
        TokenKind::ForwardSlashEqual => Some(AssignmentOp::DivideEqual),
        TokenKind::PercentEqual => Some(AssignmentOp::RemainderEqual),
        TokenKind::AmpersandEqual => Some(AssignmentOp::BitAndEqual),
        TokenKind::BarEqual => Some(AssignmentOp::BitOrEqual),
        TokenKind::CaretEqual => Some(AssignmentOp::XorEqual),
        TokenKind::RightShiftEqual => Some(AssignmentOp::RightShiftEqual),
        TokenKind::LeftShiftEqual => Some(AssignmentOp::LeftShiftEqual),
        _ => None,
    }
}

/// The binary operator that a token spells, if it spells one.
pub open spec fn binary_op(kind: TokenKind) -> Option<BinaryOp> {
    match kind {
        TokenKind::DoubleBar => Some(BinaryOp::Or),
        TokenKind::DoubleAmpersand => Some(BinaryOp::And),
        TokenKind::Bar => Some(BinaryOp::BitOr),
        TokenKind::Caret => Some(BinaryOp::Xor),
        TokenKind::Ampersand => Some(BinaryOp::BitAnd),
        TokenKind::DoubleEqual => Some(BinaryOp::Equal),
        TokenKind::BangEqual => Some(BinaryOp::NotEqual),
        TokenKind::Greater => Some(BinaryOp::GreaterThan),
        TokenKind::GreaterEqual => Some(BinaryOp::GreaterOrEqual),
        TokenKind::Less => Some(BinaryOp::LessThan),
        TokenKind::LessEqual => Some(BinaryOp::LessOrEqual),
        TokenKind::LeftShift => Some(BinaryOp::LeftShift),
        TokenKind::RightShift => Some(BinaryOp::RightShift),
        TokenKind::Hyphen => Some(BinaryOp::Subtract),
        TokenKind::Plus => Some(BinaryOp::Add),
        TokenKind::Asterisk => Some(BinaryOp::Multiply),
        TokenKind::ForwardSlash => Some(BinaryOp::Divide),
        TokenKind::Percent => Some(BinaryOp::Remainder),
        _ => None,
    }
}

/// The prefix operator that a token spells, if it spells one.
pub open spec fn prefix_op(kind: TokenKind) -> Option<UnaryOp> {
    match kind {
        TokenKind::Tilde => Some(UnaryOp::Complement),
        TokenKind::Hyphen => Some(UnaryOp::Negate),
        TokenKind::Bang => Some(UnaryOp::Not),
        TokenKind::DoublePlus => Some(UnaryOp::PrefixInc),
        TokenKind::DoubleHyphen => Some(UnaryOp::PrefixDec),
        _ => None,
    }
}

/// The postfix operator that a token spells, if it spells one.
pub open spec fn postfix_op(kind: TokenKind) -> Option<UnaryOp> {
    match kind {
        TokenKind::DoublePlus => Some(UnaryOp::PostFixInc),
        TokenKind::DoubleHyphen => Some(UnaryOp::PostFixDec),
        _ => None,
    }
}

/// Whether every character of a text is a digit.
pub open spec fn all_digits(text: Seq<char>) -> bool {
    forall|i: int| 0 <= i < text.len() ==> is_digit(#[trigger] text[i])
}

/// The value of a constant: the number that its lexeme spells, where the
/// lexeme is a non-empty sequence of digits and the number fits in 32 bits.
#[verifier::opaque]
pub open spec fn constant_value(lexeme: Seq<char>) -> Option<i32> {
    if lexeme.len() > 0 && all_digits(lexeme) && digits_value(lexeme) <= i32::MAX {
        Some(digits_value(lexeme) as i32)
    } else {
        None
    }
}

/// Expects a token of the given kind at `pos`.
pub open spec fn expect(tokens: Seq<TokenView>, pos: nat, kind: TokenKind) -> Result<
    (),
    ParseError,
> {
    if kind_at(tokens, pos) == Some(kind) {
        Ok(())
    } else {
        Err(unexpected(tokens, pos, Some(kind)))
    }
}

/// `factor := primary ("++" | "--")?`
pub open spec fn parse_factor(tokens: Seq<TokenView>, pos: nat) -> Parsed<ExprView>
    decreases tokens_left(tokens, pos), 1nat,
{
    match parse_primary(tokens, pos) {
        Err(error) => Err(error),
        Ok((primary, n)) => match kind_at(tokens, pos + n) {
            Some(kind) => match postfix_op(kind) {
                Some(operator) => Ok(
                    (ExprView::Unary { operator, right: Box::new(primary) }, n + 1),
                ),
                None => Ok((primary, n)),
            },
            None => Ok((primary, n)),
        },
    }
}

/// `primary := INT | IDENT | "(" expr ")" | unop factor | ("++" | "--") factor`
pub open spec fn parse_primary(tokens: Seq<TokenView>, pos: nat) -> Parsed<ExprView>
    decreases tokens_left(tokens, pos), 0nat,
{
    match kind_at(tokens, pos) {
        None => Err(ParseError::InvalidFactor { line: line_at(tokens, pos) }),
        Some(kind) => {
            if kind == TokenKind::Constant {
                match constant_value(tokens[pos as int].lexeme) {
                    Some(value) => Ok((ExprView::Constant(value), 1)),
                    None => Err(ParseError::InvalidExpression { line: line_at(tokens, pos) }),
                }
            } else if kind == TokenKind::Identifier {
                Ok((ExprView::Var(tokens[pos as int].lexeme), 1))
            } else if kind == TokenKind::LeftParen {
                match parse_expression(tokens, pos + 1, 0) {
                    Err(error) => Err(error),
                    Ok((inner, n)) => match expect(tokens, pos + 1 + n, TokenKind::RightParen) {
                        Err(error) => Err(error),
                        Ok(_) => Ok((inner, n + 2)),
                    },
                }
            } else {
                match prefix_op(kind) {
                    Some(operator) => match parse_factor(tokens, pos + 1) {
                        Err(error) => Err(error),
                        Ok((right, n)) => Ok(
                            (ExprView::Unary { operator, right: Box::new(right) }, n + 1),
                        ),
                    },
                    None => Err(ParseError::InvalidFactor { line: line_at(tokens, pos) }),
                }
            }
        },
    }
}

/// `expr(p) := factor { operator(q >= p) ... }`: a factor, then as many
/// operators of precedence `min_prec` or more as follow, each with its
/// right operand.
pub open spec fn parse_expression(tokens: Seq<TokenView>, pos: nat, min_prec: nat) -> Parsed<
    ExprView,
>
    decreases tokens_left(tokens, pos), 3nat,
{
    match parse_factor(tokens, pos) {
        Err(error) => Err(error),
        Ok((left, n)) => match parse_operators(tokens, pos + n, min_prec, left) {
            Err(error) => Err(error),
            Ok((expr, m)) => Ok((expr, n + m)),
        },
    }
}

/// The operators of precedence `min_prec` or more that follow the operand
/// `left`, each with its right operand.
pub open spec fn parse_operators(
    tokens: Seq<TokenView>,
    pos: nat,
    min_prec: nat,
    left: ExprView,
) -> Parsed<ExprView>
    decreases tokens_left(tokens, pos), 2nat,
{
    match operator_at(tokens, pos) {
        None => Ok((left, 0)),
        Some(prec) => {
            if prec < min_prec {
                Ok((left, 0))
            } else {
                match parse_operation(tokens, pos, left) {
                    Err(error) => Err(error),
                    Ok((operation, n)) => match parse_operators(
                        tokens,
                        pos + 1 + n,
                        min_prec,
                        operation,
                    ) {
                        Err(error) => Err(error),
                        Ok((expr, m)) => Ok((expr, 1 + n + m)),
                    },
                }
            }
        },
    }
}

/// The precedence of the operator at `pos`, if an operator stands there.
pub open spec fn operator_at(tokens: Seq<TokenView>, pos: nat) -> Option<nat> {
    match kind_at(tokens, pos) {
        None => None,
        Some(kind) => precedence(kind),
    }
}

/// The operation of the operator at `pos` on the operand `left`, with the
/// number of tokens that follow the operator in it. An assignment and a conditional take a
/// right operand of their own precedence, so they associate to the right; a
/// binary operator takes one of higher precedence, so it associates to the
/// left. The middle operand of a conditional is a whole expression.
pub open spec fn parse_operation(tokens: Seq<TokenView>, pos: nat, left: ExprView) -> Parsed<
    ExprView,
>
    decreases tokens_left(tokens, pos), 0nat,
{
    match operator_at(tokens, pos) {
        None => Err(unexpected(tokens, pos, None)),
        Some(prec) => {
            let kind = tokens[pos as int].kind;
            match assignment_op(kind) {
                Some(operator) => match parse_expression(tokens, pos + 1, prec) {
                    Err(error) => Err(error),
                    Ok((right, n)) => Ok(
                        (
                            ExprView::Assignment {
                                operator,
                                left: Box::new(left),
                                right: Box::new(right),
                            },
                            n,
                        ),
                    ),
                },
                None => match binary_op(kind) {
                    Some(operator) => match parse_expression(tokens, pos + 1, prec + 1) {
                        Err(error) => Err(error),
                        Ok((right, n)) => Ok(
                            (
                                ExprView::Binary {
                                    operator,
                                    left: Box::new(left),
                                    right: Box::new(right),
                                },
                                n,
                            ),
                        ),
                    },
                    None => match parse_expression(tokens, pos + 1, 0) {
                        Err(error) => Err(error),
                        Ok((then_branch, n)) => match expect(
                            tokens,
                            pos + 1 + n,
                            TokenKind::Colon,
                        ) {
                            Err(error) => Err(error),
                            Ok(_) => match parse_expression(tokens, pos + 2 + n, prec) {
                                Err(error) => Err(error),
                                Ok((else_branch, m)) => Ok(
                                    (
                                        ExprView::Conditional {
                                            condition: Box::new(left),
                                            then_branch: Box::new(then_branch),
                                            else_branch: Box::new(else_branch),
                                        },
                                        1 + n + m,
                                    ),
                                ),
                            },
                        },
                    },
                },
            }
        },
    }
}

/// An expression that is followed by a token of the given kind. The count
/// includes that token.
#[verifier::opaque]
pub open spec fn parse_expression_then(tokens: Seq<TokenView>, pos: nat, end: TokenKind)
    -> Parsed<ExprView> {
    match parse_expression(tokens, pos, 0) {
        Err(error) => Err(error),
        Ok((expr, n)) => match expect(tokens, pos + n, end) {
            Err(error) => Err(error),
            Ok(_) => Ok((expr, n + 1)),
        },
    }
}

/// `expr? end`: an expression that may be left out, followed by a token of
/// the given kind. It is left out where that token comes first.
#[verifier::opaque]
pub open spec fn parse_optional_expression(tokens: Seq<TokenView>, pos: nat, end: TokenKind)
    -> Parsed<Option<ExprView>> {
    if kind_at(tokens, pos) == Some(end) {
        Ok((None, 1))
    } else {
        match parse_expression_then(tokens, pos, end) {
            Err(error) => Err(error),
            Ok((expr, n)) => Ok((Some(expr), n)),
        }
    }
}

/// `decl := "int" IDENT ("=" expr)? ";"`
#[verifier::opaque]
pub open spec fn parse_declaration(tokens: Seq<TokenView>, pos: nat) -> Parsed<DeclView> {
    match expect(tokens, pos, TokenKind::Int) {
        Err(error) => Err(error),
        Ok(_) => match expect(tokens, pos + 1, TokenKind::Identifier) {
            Err(error) => Err(error),
            Ok(_) => {
                let name = tokens[pos + 1 as int].lexeme;
                if kind_at(tokens, pos + 2) == Some(TokenKind::Equal) {
                    match parse_expression_then(tokens, pos + 3, TokenKind::Semicolon) {
                        Err(error) => Err(error),
                        Ok((init, n)) => Ok((DeclView { name, init: Some(init) }, n + 3)),
                    }
                } else {
                    match expect(tokens, pos + 2, TokenKind::Semicolon) {
                        Err(error) => Err(error),
                        Ok(_) => Ok((DeclView { name, init: None }, 3)),
                    }
                }
            },
        },
    }
}

/// `for_init := decl | expr? ";"`
#[verifier::opaque]
pub open spec fn parse_for_init(tokens: Seq<TokenView>, pos: nat) -> Parsed<ForInitView> {
    if kind_at(tokens, pos) == Some(TokenKind::Int) {
        match parse_declaration(tokens, pos) {
            Err(error) => Err(error),
            Ok((decl, n)) => Ok((ForInitView::InitDecl(decl), n)),
        }
    } else {
        match parse_optional_expression(tokens, pos, TokenKind::Semicolon) {
            Err(error) => Err(error),
            Ok((expr, n)) => Ok((ForInitView::InitExp(expr), n)),
        }
    }
}

/// `"(" expr ")"`: the condition of an `if` or of a loop.
#[verifier::opaque]
pub open spec fn parse_condition(tokens: Seq<TokenView>, pos: nat) -> Parsed<ExprView> {
    match expect(tokens, pos, TokenKind::LeftParen) {
        Err(error) => Err(error),
        Ok(_) => match parse_expression_then(tokens, pos + 1, TokenKind::RightParen) {
            Err(error) => Err(error),
            Ok((condition, n)) => Ok((condition, n + 1)),
        },
    }
}

/// The header of a `for` loop, from its `(` to its `)`: the initializer,
/// the condition and the step.
#[verifier::opaque]
pub open spec fn parse_for_header(tokens: Seq<TokenView>, pos: nat) -> Parsed<
    (ForInitView, Option<ExprView>, Option<ExprView>),
> {
    match expect(tokens, pos, TokenKind::LeftParen) {
        Err(error) => Err(error),
        Ok(_) => match parse_for_init(tokens, pos + 1) {
            Err(error) => Err(error),
            Ok((init, n)) => match parse_optional_expression(
                tokens,
                pos + 1 + n,
                TokenKind::Semicolon,
            ) {
                Err(error) => Err(error),
                Ok((condition, m)) => match parse_optional_expression(
                    tokens,
                    pos + 1 + n + m,
                    TokenKind::RightParen,
                ) {
                    Err(error) => Err(error),
                    Ok((post, k)) => Ok(((init, condition, post), 1 + n + m + k)),
                },
            },
        },
    }
}

/// `"return" expr ";"`
#[verifier::opaque]
pub open spec fn parse_return(tokens: Seq<TokenView>, pos: nat) -> Parsed<StmtView> {
    match expect(tokens, pos, TokenKind::Return) {
        Err(error) => Err(error),
        Ok(_) => match parse_expression_then(tokens, pos + 1, TokenKind::Semicolon) {
            Err(error) => Err(error),
            Ok((value, n)) => Ok((StmtView::Return(value), 1 + n)),
        },
    }
}

/// `"goto" IDENT ";"`
#[verifier::opaque]
pub open spec fn parse_goto(tokens: Seq<TokenView>, pos: nat) -> Parsed<StmtView> {
    match expect(tokens, pos, TokenKind::Goto) {
        Err(error) => Err(error),
        Ok(_) => match expect(tokens, pos + 1, TokenKind::Identifier) {
            Err(error) => Err(error),
            Ok(_) => match expect(tokens, pos + 2, TokenKind::Semicolon) {
                Err(error) => Err(error),
                Ok(_) => Ok((StmtView::Goto(tokens[pos + 1 as int].lexeme), 3)),
            },
        },
    }
}

/// `"break" ";" | "continue" ";"`: a jump out of a loop, or to its next
/// round. Its label is yet to be filled in.
#[verifier::opaque]
pub open spec fn parse_jump(tokens: Seq<TokenView>, pos: nat) -> Parsed<StmtView> {
    match expect(tokens, pos + 1, TokenKind::Semicolon) {
        Err(error) => Err(error),
        Ok(_) => if kind_at(tokens, pos) == Some(TokenKind::Break) {
            Ok((StmtView::Break { label: None }, 2))
        } else {
            Ok((StmtView::Continue { label: None }, 2))
        },
    }
}

/// `"if" "(" expr ")" stmt ("else" stmt)?`. An `else` belongs to the
/// nearest `if`.
pub open spec fn parse_if(tokens: Seq<TokenView>, pos: nat) -> Parsed<StmtView>
    decreases tokens_left(tokens, pos), 0nat,
{
    match expect(tokens, pos, TokenKind::If) {
        Err(error) => Err(error),
        Ok(_) => match parse_condition(tokens, pos + 1) {
            Err(error) => Err(error),
            Ok((condition, n)) => match parse_statement(tokens, pos + 1 + n) {
                Err(error) => Err(error),
                Ok((then_branch, m)) => {
                    if kind_at(tokens, pos + 1 + n + m) == Some(TokenKind::Else) {
                        match parse_statement(tokens, pos + 2 + n + m) {
                            Err(error) => Err(error),
                            Ok((else_branch, k)) => Ok(
                                (
                                    StmtView::If {
                                        condition,
                                        then_branch: Box::new(then_branch),
                                        else_branch: Some(Box::new(else_branch)),
                                    },
                                    2 + n + m + k,
                                ),
                            ),
                        }
                    } else {
                        Ok(
                            (
                                StmtView::If {
                                    condition,
                                    then_branch: Box::new(then_branch),
                                    else_branch: None,
                                },
                                1 + n + m,
                            ),
                        )
                    }
                },
            },
        },
    }
}

/// `"while" "(" expr ")" stmt`
pub open spec fn parse_while(tokens: Seq<TokenView>, pos: nat) -> Parsed<StmtView>
    decreases tokens_left(tokens, pos), 0nat,
{
    match expect(tokens, pos, TokenKind::While) {
        Err(error) => Err(error),
        Ok(_) => match parse_condition(tokens, pos + 1) {
            Err(error) => Err(error),
            Ok((condition, n)) => match parse_statement(tokens, pos + 1 + n) {
                Err(error) => Err(error),
                Ok((body, m)) => Ok(
                    (StmtView::While { condition, body: Box::new(body), label: None }, 1 + n + m),
                ),
            },
        },
    }
}

/// `"do" stmt "while" "(" expr ")" ";"`
pub open spec fn parse_do_while(tokens: Seq<TokenView>, pos: nat) -> Parsed<StmtView>
    decreases tokens_left(tokens, pos), 0nat,
{
    match expect(tokens, pos, TokenKind::Do) {
        Err(error) => Err(error),
        Ok(_) => match parse_statement(tokens, pos + 1) {
            Err(error) => Err(error),
            Ok((body, n)) => match expect(tokens, pos + 1 + n, TokenKind::While) {
                Err(error) => Err(error),
                Ok(_) => match parse_condition(tokens, pos + 2 + n) {
                    Err(error) => Err(error),
                    Ok((condition, m)) => match expect(
                        tokens,
                        pos + 2 + n + m,
                        TokenKind::Semicolon,
                    ) {
                        Err(error) => Err(error),
                        Ok(_) => Ok(
                            (
                                StmtView::DoWhile {
                                    body: Box::new(body),
                                    condition,
                                    label: None,
                                },
                                3 + n + m,
                            ),
                        ),
                    },
                },
            },
        },
    }
}

/// `"for" "(" for_init expr? ";" expr? ")" stmt`
pub open spec fn parse_for(tokens: Seq<TokenView>, pos: nat) -> Parsed<StmtView>
    decreases tokens_left(tokens, pos), 0nat,
{
    match expect(tokens, pos, TokenKind::For) {
        Err(error) => Err(error),
        Ok(_) => match parse_for_header(tokens, pos + 1) {
            Err(error) => Err(error),
            Ok((header, n)) => match parse_statement(tokens, pos + 1 + n) {
                Err(error) => Err(error),
                Ok((body, m)) => Ok(
                    (
                        StmtView::For {
                            init: header.0,
                            condition: header.1,
                            post: header.2,
                            body: Box::new(body),
                            label: None,
                        },
                        1 + n + m,
                    ),
                ),
            },
        },
    }
}

/// `IDENT ":" stmt`
pub open spec fn parse_labeled(tokens: Seq<TokenView>, pos: nat) -> Parsed<StmtView>
    decreases tokens_left(tokens, pos), 0nat,
{
    match expect(tokens, pos, TokenKind::Identifier) {
        Err(error) => Err(error),
        Ok(_) => match expect(tokens, pos + 1, TokenKind::Colon) {
            Err(error) => Err(error),
            Ok(_) => match parse_statement(tokens, pos + 2) {
                Err(error) => Err(error),
                Ok((stmt, n)) => Ok(
                    (StmtView::Label(tokens[pos as int].lexeme, Box::new(stmt)), 2 + n),
                ),
            },
        },
    }
}

/// `stmt`: the form is chosen by the first token, and for a label by the
/// first two; what starts like no other form is an expression statement.
pub open spec fn parse_statement(tokens: Seq<TokenView>, pos: nat) -> Parsed<StmtView>
    decreases tokens_left(tokens, pos), 1nat,
{
    let kind = kind_at(tokens, pos);
    if kind == Some(TokenKind::Return) {
        parse_return(tokens, pos)
    } else if kind == Some(TokenKind::Semicolon) {
        Ok((StmtView::Null, 1))
    } else if kind == Some(TokenKind::If) {
        parse_if(tokens, pos)
    } else if kind == Some(TokenKind::Goto) {
        parse_goto(tokens, pos)
    } else if kind == Some(TokenKind::Break) || kind == Some(TokenKind::Continue) {
        parse_jump(tokens, pos)
    } else if kind == Some(TokenKind::While) {
        parse_while(tokens, pos)
    } else if kind == Some(TokenKind::Do) {
        parse_do_while(tokens, pos)
    } else if kind == Some(TokenKind::For) {
        parse_for(tokens, pos)
    } else if kind == Some(TokenKind::Identifier) && kind_at(tokens, pos + 1) == Some(
        TokenKind::Colon,
    ) {
        parse_labeled(tokens, pos)
    } else if kind == Some(TokenKind::LeftBrace) {
        match parse_block(tokens, pos) {
            Err(error) => Err(error),
            Ok((items, n)) => Ok((StmtView::Compound(items), n)),
        }
    } else {
        match parse_expression_then(tokens, pos, TokenKind::Semicolon) {
            Err(error) => Err(error),
            Ok((expr, n)) => Ok((StmtView::Expression(expr), n)),
        }
    }
}

/// `block_item := decl | stmt`
pub open spec fn parse_block_item(tokens: Seq<TokenView>, pos: nat) -> Parsed<BlockItemView>
    decreases tokens_left(tokens, pos), 2nat,
{
    if kind_at(tokens, pos) == Some(TokenKind::Int) {
        match parse_declaration(tokens, pos) {
            Err(error) => Err(error),
            Ok((decl, n)) => Ok((BlockItemView::Decleration(decl), n)),
        }
    } else {
        match parse_statement(tokens, pos) {
            Err(error) => Err(error),
            Ok((stmt, n)) => Ok((BlockItemView::Statement(stmt), n)),
        }
    }
}

/// A statement is spelled by one token at least.
pub proof fn lemma_statement_progress(tokens: Seq<TokenView>, pos: nat)
    ensures
        match parse_statement(tokens, pos) {
            Ok((_, n)) => n > 0,
            Err(_) => true,
        },
{
    reveal(parse_return);
    reveal(parse_goto);
    reveal(parse_jump);
    reveal(parse_expression_then);
}

/// A block item is spelled by one token at least.
pub proof fn lemma_block_item_progress(tokens: Seq<TokenView>, pos: nat)
    ensures
        match parse_block_item(tokens, pos) {
            Ok((_, n)) => n > 0,
            Err(_) => true,
        },
{
    reveal(parse_declaration);
    lemma_statement_progress(tokens, pos);
}

/// `block_item* "}"`: the items of a block, up to the brace that closes it.
/// The count includes the brace.
pub open spec fn parse_block_items(tokens: Seq<TokenView>, pos: nat) -> Parsed<
    Seq<BlockItemView>,
>
    decreases tokens_left(tokens, pos), 3nat,
{
    match kind_at(tokens, pos) {
        None => Err(unexpected(tokens, pos, Some(TokenKind::RightBrace))),
        Some(kind) => {
            if kind == TokenKind::RightBrace {
                Ok((Seq::empty(), 1))
            } else {
                match parse_block_item(tokens, pos) {
                    Err(error) => Err(error),
                    Ok((item, n)) => {
                        if n == 0 {
                            // An item is spelled by one token at least (see
                            // `lemma_block_item_progress`): this keeps the
                            // definition well-founded, and is never reached.
                            Err(ParseError::InvalidExpression { line: line_at(tokens, pos) })
                        } else {
                            match parse_block_items(tokens, pos + n) {
                                Err(error) => Err(error),
                                Ok((items, m)) => Ok((seq![item] + items, n + m)),
                            }
                        }
                    },
                }
            }
        },
    }
}

/// `block := "{" block_item* "}"`
pub open spec fn parse_block(tokens: Seq<TokenView>, pos: nat) -> Parsed<Seq<BlockItemView>>
    decreases tokens_left(tokens, pos), 0nat,
{
    match expect(tokens, pos, TokenKind::LeftBrace) {
        Err(error) => Err(error),
        Ok(_) => match parse_block_items(tokens, pos + 1) {
            Err(error) => Err(error),
            Ok((items, n)) => Ok((items, n + 1)),
        },
    }
}

/// `function := "int" IDENT "(" "void" ")" block`
pub open spec fn parse_function(tokens: Seq<TokenView>, pos: nat) -> Parsed<FunctionView> {
    match expect(tokens, pos, TokenKind::Int) {
        Err(error) => Err(error),
        Ok(_) => match expect(tokens, pos + 1, TokenKind::Identifier) {
            Err(error) => Err(error),
            Ok(_) => match expect(tokens, pos + 2, TokenKind::LeftParen) {
                Err(error) => Err(error),
                Ok(_) => match expect(tokens, pos + 3, TokenKind::Void) {
                    Err(error) => Err(error),
                    Ok(_) => match expect(tokens, pos + 4, TokenKind::RightParen) {
                        Err(error) => Err(error),
                        Ok(_) => match parse_block(tokens, pos + 5) {
                            Err(error) => Err(error),
                            Ok((body, n)) => Ok(
                                (FunctionView { name: tokens[pos + 1 as int].lexeme, body }, n + 5),
                            ),
                        },
                    },
                },
            },
        },
    }
}

/// `program := function`, with nothing after it: the program that the
/// tokens from `pos` on spell.
pub open spec fn parse_program(tokens: Seq<TokenView>, pos: nat) -> Result<
    FunctionView,
    ParseError,
> {
    match parse_function(tokens, pos) {
        Err(error) => Err(error),
        Ok((function, n)) => {
            if pos + n < tokens.len() {
                Err(unexpected(tokens, pos + n, None))
            } else {
                Ok(function)
            }
        },
    }
}

} // verus!
