//! What the parser reads can be printed: every tree that the parser builds
//! from the tokens of a source fulfils what the printer asks of a tree. So
//! the round trip holds of every source that parses.

use vstd::prelude::*;
use crate::ast::{BlockItemView, ExprView, ForInitView, StmtView};
use crate::grammar::{
    Parsed, constant_value, kind_at, operator_at, parse_block, parse_block_item, parse_block_items,
    parse_condition, parse_declaration, parse_do_while, parse_expression, parse_expression_then,
    parse_factor, parse_for, parse_for_header, parse_for_init, parse_goto, parse_if, parse_jump,
    parse_labeled, parse_operation, parse_operators, parse_optional_expression, parse_primary,
    parse_program, parse_return, parse_statement, parse_while, tokens_left,
};
use crate::lexer::{Scan, is_ident_char, lex, scan};
use crate::printer::{
    closed, is_identifier, lemma_round_trip, print_text, printable_declaration, printable_expr,
    printable_item, printable_optional, printable_program, printable_statement,
};
use crate::spelling::lemma_ident_run;
use crate::token::{TokenKind, TokenView};

verus! {

/// Whether every identifier among the tokens is spelled as one.
pub open spec fn lexical(tokens: Seq<TokenView>) -> bool {
    forall|i: int|
        0 <= i < tokens.len() && (#[trigger] tokens[i]).kind == TokenKind::Identifier
            ==> is_identifier(tokens[i].lexeme)
}

/// The identifiers that the lexer reads are spelled as identifiers.
pub proof fn lemma_lex_lexical(source: Seq<char>, line: nat)
    ensures
        lexical(lex(source, line).tokens),
    decreases source.len(),
{
    if source.len() > 0 {
        crate::lexer::lemma_scan_len(source);
        match scan(source) {
            Scan::Token(kind, n) => {
                let rest = lex(source.skip(n as int), line).tokens;
                let token = TokenView { kind, lexeme: source.take(n as int), line };
                lemma_lex_lexical(source.skip(n as int), line);
                if kind == TokenKind::Identifier {
                    reveal(is_identifier);
                    lemma_ident_run(source);
                    assert forall|i: int| 0 <= i < token.lexeme.len() implies is_ident_char(
                        #[trigger] token.lexeme[i],
                    ) by {
                        assert(token.lexeme[i] == source[i]);
                    }
                    assert(is_identifier(token.lexeme));
                }
                assert forall|i: int|
                    0 <= i < (seq![token] + rest).len() && (#[trigger] (seq![token]
                        + rest)[i]).kind == TokenKind::Identifier implies is_identifier(
                    (seq![token] + rest)[i].lexeme,
                ) by {
                    if i > 0 {
                        assert((seq![token] + rest)[i] == rest[i - 1]);
                    }
                }
            },
            Scan::Blank => {
                lemma_lex_lexical(source.skip(1), line);
            },
            Scan::NewLine => {
                lemma_lex_lexical(source.skip(1), line + 1);
            },
            Scan::Malformed => {},
            Scan::Unexpected => {},
        }
    }
}

/// Whether what was read as an expression, if anything, can be printed.
pub open spec fn reads_printable_expr(parsed: Parsed<ExprView>) -> bool {
    match parsed {
        Ok((expr, _)) => printable_expr(expr),
        Err(_) => true,
    }
}

/// A primary that is read can be printed.
pub proof fn lemma_primary_printable(tokens: Seq<TokenView>, pos: nat)
    requires
        lexical(tokens),
    ensures
        reads_printable_expr(parse_primary(tokens, pos)),
    decreases tokens_left(tokens, pos), 0nat,
{
    reveal(constant_value);
    if pos < tokens.len() {
        lemma_expression_printable(tokens, pos + 1, 0);
        lemma_factor_printable(tokens, pos + 1);
    }
}

/// A factor that is read can be printed.
pub proof fn lemma_factor_printable(tokens: Seq<TokenView>, pos: nat)
    requires
        lexical(tokens),
    ensures
        reads_printable_expr(parse_factor(tokens, pos)),
    decreases tokens_left(tokens, pos), 1nat,
{
    lemma_primary_printable(tokens, pos);
}

/// An operation that is read on a printable operand can be printed.
pub proof fn lemma_operation_printable(tokens: Seq<TokenView>, pos: nat, left: ExprView)
    requires
        lexical(tokens),
        printable_expr(left),
    ensures
        reads_printable_expr(parse_operation(tokens, pos, left)),
    decreases tokens_left(tokens, pos), 0nat,
{
    match operator_at(tokens, pos) {
        None => {},
        Some(prec) => {
            lemma_expression_printable(tokens, pos + 1, prec);
            lemma_expression_printable(tokens, pos + 1, prec + 1);
            lemma_expression_printable(tokens, pos + 1, 0);
            match parse_expression(tokens, pos + 1, 0) {
                Ok((_, n)) => {
                    lemma_expression_printable(tokens, pos + 2 + n, prec);
                },
                Err(_) => {},
            }
        },
    }
}

/// The operations that are read after a printable operand can be printed.
pub proof fn lemma_operators_printable(
    tokens: Seq<TokenView>,
    pos: nat,
    min_prec: nat,
    left: ExprView,
)
    requires
        lexical(tokens),
        printable_expr(left),
    ensures
        reads_printable_expr(parse_operators(tokens, pos, min_prec, left)),
    decreases tokens_left(tokens, pos), 2nat,
{
    match operator_at(tokens, pos) {
        None => {},
        Some(prec) => {
            if prec >= min_prec {
                lemma_operation_printable(tokens, pos, left);
                match parse_operation(tokens, pos, left) {
                    Ok((operation, n)) => {
                        lemma_operators_printable(tokens, pos + 1 + n, min_prec, operation);
                    },
                    Err(_) => {},
                }
            }
        },
    }
}

/// An expression that is read can be printed.
pub proof fn lemma_expression_printable(tokens: Seq<TokenView>, pos: nat, min_prec: nat)
    requires
        lexical(tokens),
    ensures
        reads_printable_expr(parse_expression(tokens, pos, min_prec)),
    decreases tokens_left(tokens, pos), 3nat,
{
    lemma_factor_printable(tokens, pos);
    match parse_factor(tokens, pos) {
        Ok((left, n)) => {
            lemma_operators_printable(tokens, pos + n, min_prec, left);
        },
        Err(_) => {},
    }
}

/// What is read in the header of a statement can be printed: an expression
/// that a mark closes, one that may be left out, a condition, a
/// declaration, and the header of a `for` loop.
pub proof fn lemma_headers_printable(tokens: Seq<TokenView>, pos: nat, end: TokenKind)
    requires
        lexical(tokens),
    ensures
        reads_printable_expr(parse_expression_then(tokens, pos, end)),
        reads_printable_expr(parse_condition(tokens, pos)),
        match parse_optional_expression(tokens, pos, end) {
            Ok((expr, _)) => printable_optional(expr),
            Err(_) => true,
        },
        match parse_declaration(tokens, pos) {
            Ok((decl, _)) => printable_declaration(decl),
            Err(_) => true,
        },
        match parse_for_init(tokens, pos) {
            Ok((init, _)) => match init {
                ForInitView::InitDecl(decl) => printable_declaration(decl),
                ForInitView::InitExp(expr) => printable_optional(expr),
            },
            Err(_) => true,
        },
{
    reveal(parse_expression_then);
    reveal(parse_condition);
    reveal(parse_optional_expression);
    reveal(parse_declaration);
    reveal(parse_for_init);
    lemma_expression_printable(tokens, pos, 0);
    lemma_expression_printable(tokens, pos + 1, 0);
    lemma_expression_printable(tokens, pos + 3, 0);
}

/// The header of a `for` loop that is read can be printed.
pub proof fn lemma_for_header_printable(tokens: Seq<TokenView>, pos: nat)
    requires
        lexical(tokens),
    ensures
        match parse_for_header(tokens, pos) {
            Ok(((init, condition, post), _)) => (match init {
                ForInitView::InitDecl(decl) => printable_declaration(decl),
                ForInitView::InitExp(expr) => printable_optional(expr),
            }) && printable_optional(condition) && printable_optional(post),
            Err(_) => true,
        },
{
    reveal(parse_for_header);
    lemma_headers_printable(tokens, pos + 1, TokenKind::Semicolon);
    match parse_for_init(tokens, pos + 1) {
        Ok((_, n)) => {
            lemma_headers_printable(tokens, pos + 1 + n, TokenKind::Semicolon);
            match parse_optional_expression(tokens, pos + 1 + n, TokenKind::Semicolon) {
                Ok((_, m)) => {
                    lemma_headers_printable(tokens, pos + 1 + n + m, TokenKind::RightParen);
                },
                Err(_) => {},
            }
        },
        Err(_) => {},
    }
}

/// Whether what was read as a statement, if anything, can be printed, and
/// is followed by no `else` that it leaves open.
pub open spec fn reads_printable_statement(
    parsed: Parsed<StmtView>,
    tokens: Seq<TokenView>,
    pos: nat,
) -> bool {
    match parsed {
        Ok((stmt, n)) => printable_statement(stmt) && (closed(stmt) || kind_at(tokens, pos + n)
            != Some(TokenKind::Else)),
        Err(_) => true,
    }
}

/// An `if` that is read can be printed.
proof fn lemma_if_printable(tokens: Seq<TokenView>, pos: nat)
    requires
        lexical(tokens),
    ensures
        reads_printable_statement(parse_if(tokens, pos), tokens, pos),
    decreases tokens_left(tokens, pos), 0nat,
{
    lemma_headers_printable(tokens, pos + 1, TokenKind::Semicolon);
    if pos < tokens.len() {
        match parse_condition(tokens, pos + 1) {
            Ok((_, n)) => {
                lemma_statement_printable(tokens, pos + 1 + n);
                match parse_statement(tokens, pos + 1 + n) {
                    Ok((_, m)) => {
                        lemma_statement_printable(tokens, pos + 2 + n + m);
                    },
                    Err(_) => {},
                }
            },
            Err(_) => {},
        }
    }
}

/// A loop that is read can be printed.
proof fn lemma_loop_printable(tokens: Seq<TokenView>, pos: nat)
    requires
        lexical(tokens),
    ensures
        reads_printable_statement(parse_while(tokens, pos), tokens, pos),
        reads_printable_statement(parse_do_while(tokens, pos), tokens, pos),
        reads_printable_statement(parse_for(tokens, pos), tokens, pos),
    decreases tokens_left(tokens, pos), 0nat,
{
    lemma_headers_printable(tokens, pos + 1, TokenKind::Semicolon);
    lemma_for_header_printable(tokens, pos + 1);
    if pos < tokens.len() {
        match parse_condition(tokens, pos + 1) {
            Ok((_, n)) => {
                lemma_statement_printable(tokens, pos + 1 + n);
            },
            Err(_) => {},
        }
        lemma_statement_printable(tokens, pos + 1);
        match parse_statement(tokens, pos + 1) {
            Ok((_, n)) => {
                lemma_headers_printable(tokens, pos + 2 + n, TokenKind::Semicolon);
            },
            Err(_) => {},
        }
        match parse_for_header(tokens, pos + 1) {
            Ok((_, n)) => {
                lemma_statement_printable(tokens, pos + 1 + n);
            },
            Err(_) => {},
        }
    }
}

/// A labelled statement that is read can be printed.
proof fn lemma_labeled_printable(tokens: Seq<TokenView>, pos: nat)
    requires
        lexical(tokens),
    ensures
        reads_printable_statement(parse_labeled(tokens, pos), tokens, pos),
    decreases tokens_left(tokens, pos), 0nat,
{
    if pos < tokens.len() {
        lemma_statement_printable(tokens, pos + 2);
    }
}

/// A statement that is read can be printed, and is followed by no `else`
/// that it leaves open.
pub proof fn lemma_statement_printable(tokens: Seq<TokenView>, pos: nat)
    requires
        lexical(tokens),
    ensures
        reads_printable_statement(parse_statement(tokens, pos), tokens, pos),
    decreases tokens_left(tokens, pos), 1nat,
{
    reveal(parse_return);
    reveal(parse_goto);
    reveal(parse_jump);
    let kind = kind_at(tokens, pos);
    if kind == Some(TokenKind::Return) {
        lemma_headers_printable(tokens, pos + 1, TokenKind::Semicolon);
    } else if kind == Some(TokenKind::Semicolon) {
    } else if kind == Some(TokenKind::If) {
        lemma_if_printable(tokens, pos);
    } else if kind == Some(TokenKind::Goto) {
    } else if kind == Some(TokenKind::Break) || kind == Some(TokenKind::Continue) {
    } else if kind == Some(TokenKind::While) || kind == Some(TokenKind::Do) || kind == Some(
        TokenKind::For,
    ) {
        lemma_loop_printable(tokens, pos);
    } else if kind == Some(TokenKind::Identifier) && kind_at(tokens, pos + 1) == Some(
        TokenKind::Colon,
    ) {
        lemma_labeled_printable(tokens, pos);
    } else if kind == Some(TokenKind::LeftBrace) {
        lemma_block_printable(tokens, pos);
    } else {
        lemma_headers_printable(tokens, pos, TokenKind::Semicolon);
    }
}

/// A block item that is read can be printed.
pub proof fn lemma_block_item_printable(tokens: Seq<TokenView>, pos: nat)
    requires
        lexical(tokens),
    ensures
        match parse_block_item(tokens, pos) {
            Ok((item, _)) => printable_item(item),
            Err(_) => true,
        },
    decreases tokens_left(tokens, pos), 2nat,
{
    lemma_headers_printable(tokens, pos, TokenKind::Semicolon);
    lemma_statement_printable(tokens, pos);
}

/// Whether what was read as the items of a block, if anything, can be
/// printed.
pub open spec fn reads_printable_items(parsed: Parsed<Seq<BlockItemView>>) -> bool {
    match parsed {
        Ok((items, _)) => forall|i: int|
            0 <= i < items.len() ==> printable_item(#[trigger] items[i]),
        Err(_) => true,
    }
}

/// The items of a block that are read can be printed.
pub proof fn lemma_block_items_printable(tokens: Seq<TokenView>, pos: nat)
    requires
        lexical(tokens),
    ensures
        reads_printable_items(parse_block_items(tokens, pos)),
    decreases tokens_left(tokens, pos), 3nat,
{
    if pos < tokens.len() && tokens[pos as int].kind != TokenKind::RightBrace {
        lemma_block_item_printable(tokens, pos);
        match parse_block_item(tokens, pos) {
            Ok((item, n)) => {
                if n > 0 {
                    lemma_block_items_printable(tokens, pos + n);
                    match parse_block_items(tokens, pos + n) {
                        Ok((items, _)) => {
                            assert forall|i: int| 0 <= i < (seq![item] + items).len() implies
                            printable_item(#[trigger] (seq![item] + items)[i]) by {
                                if i > 0 {
                                    assert((seq![item] + items)[i] == items[i - 1]);
                                }
                            }
                        },
                        Err(_) => {},
                    }
                }
            },
            Err(_) => {},
        }
    }
}

/// A block that is read can be printed.
pub proof fn lemma_block_printable(tokens: Seq<TokenView>, pos: nat)
    requires
        lexical(tokens),
    ensures
        reads_printable_items(parse_block(tokens, pos)),
    decreases tokens_left(tokens, pos), 0nat,
{
    if pos < tokens.len() {
        lemma_block_items_printable(tokens, pos + 1);
    }
}

/// A program that is read can be printed.
pub proof fn lemma_program_printable(tokens: Seq<TokenView>)
    requires
        lexical(tokens),
    ensures
        match parse_program(tokens, 0) {
            Ok(program) => printable_program(program),
            Err(_) => true,
        },
{
    lemma_block_printable(tokens, 5);
    if parse_program(tokens, 0) is Ok {
        assert(tokens[1].kind == TokenKind::Identifier);
    }
}

/// The round trip of a source: where a source lexes and parses, the text
/// that its syntax tree is printed as lexes too, and parses to the same
/// tree.
pub proof fn lemma_source_round_trip(source: Seq<char>)
    requires
        lex(source, 1).error is None,
        parse_program(lex(source, 1).tokens, 0) is Ok,
    ensures
        lex(print_text(parse_program(lex(source, 1).tokens, 0)->Ok_0), 1).error is None,
        parse_program(
            lex(print_text(parse_program(lex(source, 1).tokens, 0)->Ok_0), 1).tokens,
            0,
        ) == parse_program(lex(source, 1).tokens, 0),
{
    lemma_lex_lexical(source, 1);
    lemma_program_printable(lex(source, 1).tokens);
    lemma_round_trip(parse_program(lex(source, 1).tokens, 0)->Ok_0);
}

} // verus!
