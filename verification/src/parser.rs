//! The parser: from tokens to the abstract syntax tree, by recursive descent
//! with precedence climbing.

use vstd::prelude::*;
use vstd::string::*;
use crate::ast::{
    AssignmentOp, BinaryOp, Block, BlockItem, Decleration, Expr, ExprView, ForInit, Function,
    Program, Stmt, UnaryOp, declaration_size, expr_size, for_init_size, item_size, items_size,
    items_view, lemma_items_size_push, lemma_items_view_push, opt_expr_view, optional_size,
    statement_size,
};
use crate::grammar::{
    all_digits, assignment_op, binary_op, constant_value, expect, kind_at, line_at, operator_at,
    parse_block, parse_block_item, parse_block_items, parse_condition, parse_declaration,
    parse_do_while, parse_expression, parse_expression_then, parse_factor, parse_for,
    parse_for_header, parse_for_init, parse_function, parse_goto, parse_if, parse_jump,
    parse_labeled, parse_operation, parse_operators, parse_optional_expression, parse_primary,
    parse_program, parse_return, parse_statement, parse_while, precedence,
};
use crate::lexer::{Lexer, is_digit, tokens_view};
use crate::text::{decimal, digit_value, digits_value, push_decimal};
use crate::token::{Token, TokenKind, TokenView, kind_name};

verus! {

/// Why a token sequence is not a program.
#[derive(Debug, Clone, Copy, PartialEq, Eq, Structural)]
pub enum ParseError {
    /// Another token was expected here (`expected` is `None` where the input
    /// should have ended; `got` is `None` where it ended too early).
    UnexpectedToken { expected: Option<TokenKind>, got: Option<TokenKind>, line: usize },
    /// No expression can be built here: a constant does not fit in 32 bits.
    InvalidExpression { line: usize },
    /// No factor starts here.
    InvalidFactor { line: usize },
}

/// How a kind of token that was expected or found is written in a message:
/// by its name, or as the end of the input where there is none.
pub open spec fn optional_kind_text(kind: Option<TokenKind>) -> Seq<char> {
    match kind {
        Some(kind) => kind_name(kind),
        None => "end of input"@,
    }
}

/// The message of a parse error: the kind of the error, the line, and for
/// a token that was not expected, what was expected and what was found.
pub open spec fn parse_error_text(error: ParseError) -> Seq<char> {
    match error {
        ParseError::UnexpectedToken { expected, got, line } => "ParseError: line "@ + decimal(
            line as nat,
        ) + ": expected "@ + optional_kind_text(expected) + ", got "@ + optional_kind_text(got),
        ParseError::InvalidExpression { line } => "InvalidExpression: line "@ + decimal(
            line as nat,
        ),
        ParseError::InvalidFactor { line } => "InvalidFactor: line "@ + decimal(line as nat),
    }
}

fn optional_kind_name(kind: &Option<TokenKind>) -> (name: &'static str)
    ensures
        name@ == optional_kind_text(*kind),
{
    match kind {
        Some(kind) => kind.name(),
        None => "end of input",
    }
}

impl ParseError {
    /// The message of this error.
    pub fn message(&self) -> (text: String)
        ensures
            text@ == parse_error_text(*self),
    {
        match self {
            ParseError::UnexpectedToken { expected, got, line } => {
                let mut text = String::from_str("ParseError: line ");
                push_decimal(&mut text, *line as u64);
                text.append(": expected ");
                text.append(optional_kind_name(expected));
                text.append(", got ");
                text.append(optional_kind_name(got));
                text
            },
            ParseError::InvalidExpression { line } => {
                let mut text = String::from_str("InvalidExpression: line ");
                push_decimal(&mut text, *line as u64);
                text
            },
            ParseError::InvalidFactor { line } => {
                let mut text = String::from_str("InvalidFactor: line ");
                push_decimal(&mut text, *line as u64);
                text
            },
        }
    }
}

/// A prefix of a sequence of digits spells no larger a number than the
/// whole.
proof fn lemma_digits_value_prefix(digits: Seq<char>, k: int)
    requires
        0 <= k <= digits.len(),
    ensures
        digits_value(digits.take(k)) <= digits_value(digits),
    decreases digits.len() - k,
{
    if k == digits.len() {
        assert(digits.take(k) =~= digits);
    } else {
        lemma_digits_value_prefix(digits, k + 1);
        assert(digits.take(k + 1).drop_last() =~= digits.take(k));
    }
}

/// The value of the constant that a lexeme spells, if it spells one that
/// fits in 32 bits.
pub fn constant_of(lexeme: &str) -> (value: Option<i32>)
    ensures
        value == constant_value(lexeme@),
{
    proof {
        reveal(constant_value);
    }
    if !lexeme.is_ascii() {
        assert(!all_digits(lexeme@)) by {
            if all_digits(lexeme@) {
                assert forall|i: int| 0 <= i < lexeme@.len() implies '\0' <= #[trigger] lexeme@[i]
                    <= '\u{7f}' by {
                    assert(is_digit(lexeme@[i]));
                }
            }
        }
        return None;
    }
    proof {
        vstd::utf8::is_ascii_chars_encode_utf8(lexeme@);
    }
    let n = lexeme.as_bytes().len();
    if n == 0 {
        return None;
    }
    let mut value: u64 = 0;
    let mut i: usize = 0;
    assert(lexeme@.take(0) =~= Seq::<char>::empty());
    while i < n
        invariant
            i <= n,
            n == lexeme@.len(),
            lexeme.is_ascii(),
            all_digits(lexeme@.take(i as int)),
            value == digits_value(lexeme@.take(i as int)),
            value <= i32::MAX,
        decreases n - i,
    {
        proof {
            reveal(constant_value);
        }
        let b = lexeme.get_ascii(i);
        if b < 48 || b > 57 {
            assert(!is_digit(lexeme@[i as int]));
            return None;
        }
        proof {
            assert(lexeme@.take(i + 1).drop_last() =~= lexeme@.take(i as int));
            assert(lexeme@.take(i + 1).last() == lexeme@[i as int]);
            assert(digit_value(lexeme@[i as int]) == b - 48);
            lemma_digits_value_prefix(lexeme@, i + 1);
        }
        value = value * 10 + (b - 48) as u64;
        if value > 2147483647 {
            return None;
        }
        i += 1;
    }
    proof {
        reveal(constant_value);
    }
    assert(lexeme@.take(i as int) =~= lexeme@);
    Some(value as i32)
}

/// A parser over the tokens that a lexer has read.
pub struct Parser<'de> {
    /// The lexer whose tokens are parsed.
    pub lexer: &'de Lexer<'de>,
    /// The number of tokens read so far.
    pub pos: usize,
}

impl<'de> Parser<'de> {
    /// The tokens that are parsed.
    pub open spec fn tokens(&self) -> Seq<TokenView> {
        tokens_view(self.lexer.tokens@)
    }

    /// The position is within the tokens, or at their end.
    pub open spec fn wf(&self) -> bool {
        self.pos <= self.lexer.tokens.len()
    }

    /// Whether `after` is this parser, `n` tokens further on.
    pub open spec fn advanced(&self, after: Self, n: nat) -> bool {
        &&& after.lexer == self.lexer
        &&& after.pos == self.pos + n
        &&& after.wf()
    }

    /// Whether `after` is this parser at some position.
    pub open spec fn moved(&self, after: Self) -> bool {
        &&& after.lexer == self.lexer
        &&& after.wf()
    }

    /// A parser at the first of the tokens of `lexer`.
    pub fn new(lexer: &'de Lexer<'de>) -> (parser: Self)
        ensures
            parser.lexer == lexer,
            parser.pos == 0,
            parser.wf(),
    {
        Self { lexer, pos: 0 }
    }

    /// Parses the tokens from the current position to their end as a
    /// program.
    pub fn parse(&mut self) -> (result: Result<Program<'de>, ParseError>)
        requires
            old(self).wf(),
        ensures
            old(self).moved(*final(self)),
            match parse_program(old(self).tokens(), old(self).pos as nat) {
                Ok(program) => {
                    &&& result is Ok
                    &&& result->Ok_0@ == program
                    &&& final(self).pos == old(self).tokens().len()
                    &&& old(self).pos + items_size(program.body, 0) <= old(self).tokens().len()
                },
                Err(error) => result == Err::<Program<'de>, ParseError>(error),
            },
    {
        let program = self.program()?;
        if self.pos < self.lexer.tokens.len() {
            let token = self.lexer.tokens[self.pos];
            Err(
                ParseError::UnexpectedToken {
                    expected: None,
                    got: Some(token.kind),
                    line: token.line,
                },
            )
        } else {
            Ok(program)
        }
    }

    fn program(&mut self) -> (result: Result<Program<'de>, ParseError>)
        requires
            old(self).wf(),
        ensures
            old(self).moved(*final(self)),
            match parse_function(old(self).tokens(), old(self).pos as nat) {
                Ok((function, n)) => {
                    &&& result is Ok
                    &&& result->Ok_0@ == function
                    &&& old(self).advanced(*final(self), n)
                    &&& items_size(function.body, 0) <= n
                },
                Err(error) => result == Err::<Program<'de>, ParseError>(error),
            },
    {
        Ok(Program::Function(self.function()?))
    }

    fn function(&mut self) -> (result: Result<Function<'de>, ParseError>)
        requires
            old(self).wf(),
        ensures
            old(self).moved(*final(self)),
            match parse_function(old(self).tokens(), old(self).pos as nat) {
                Ok((function, n)) => {
                    &&& result is Ok
                    &&& result->Ok_0@ == function
                    &&& old(self).advanced(*final(self), n)
                    &&& items_size(function.body, 0) <= n
                },
                Err(error) => result == Err::<Function<'de>, ParseError>(error),
            },
    {
        self.expect(TokenKind::Int)?;
        let name = self.expect(TokenKind::Identifier)?.lexeme;
        self.expect(TokenKind::LeftParen)?;
        self.expect(TokenKind::Void)?;
        self.expect(TokenKind::RightParen)?;
        let body = self.block()?;
        Ok(Function { name, body })
    }

    fn block(&mut self) -> (result: Result<Block, ParseError>)
        requires
            old(self).wf(),
        ensures
            old(self).moved(*final(self)),
            match parse_block(old(self).tokens(), old(self).pos as nat) {
                Ok((items, n)) => {
                    &&& result is Ok
                    &&& result->Ok_0@ == items
                    &&& old(self).advanced(*final(self), n)
                    &&& items_size(items, 0) + 1 <= n
                },
                Err(error) => result == Err::<Block, ParseError>(error),
            },
        decreases old(self).lexer.tokens.len() - old(self).pos, 0nat,
    {
        self.expect(TokenKind::LeftBrace)?;
        let ghost tokens = self.tokens();
        let ghost start = self.pos as nat;
        let mut items: Vec<BlockItem> = Vec::new();
        assert(items_view(items@) =~= Seq::empty());
        loop
            invariant
                old(self).moved(*self),
                tokens == self.tokens(),
                start == old(self).pos + 1,
                start <= self.pos,
                start + items_size(items_view(items@), 0) <= self.pos,
                kind_at(tokens, old(self).pos as nat) == Some(TokenKind::LeftBrace),
                match parse_block_items(tokens, self.pos as nat) {
                    Ok((rest, m)) => parse_block_items(tokens, start) == Ok::<
                        (Seq<crate::ast::BlockItemView>, nat),
                        ParseError,
                    >((items_view(items@) + rest, (self.pos - start + m) as nat)),
                    Err(error) => parse_block_items(tokens, start) == Err::<
                        (Seq<crate::ast::BlockItemView>, nat),
                        ParseError,
                    >(error),
                },
            decreases self.lexer.tokens.len() - self.pos,
        {
            match self.peek(0) {
                None => {
                    return Err(
                        ParseError::UnexpectedToken {
                            expected: Some(TokenKind::RightBrace),
                            got: None,
                            line: self.get_last_line(),
                        },
                    );
                },
                Some(TokenKind::RightBrace) => {
                    let _right_brace_token = self.consume();
                    assert(items_view(items@) + Seq::empty() =~= items_view(items@));
                    return Ok(Block { items });
                },
                Some(_) => {
                    let ghost seen = items_view(items@);
                    let block_item = self.block_item()?;
                    proof {
                        lemma_items_view_push(items@, block_item);
                        lemma_items_size_push(items_view(items@), block_item@, 0);
                        match parse_block_items(tokens, self.pos as nat) {
                            Ok((rest, m)) => {
                                assert(seen + (seq![block_item@] + rest) =~= seen.push(
                                    block_item@,
                                ) + rest);
                            },
                            Err(_) => {},
                        }
                    }
                    items.push(block_item);
                },
            }
        }
    }

    fn block_item(&mut self) -> (result: Result<BlockItem, ParseError>)
        requires
            old(self).wf(),
        ensures
            old(self).moved(*final(self)),
            match parse_block_item(old(self).tokens(), old(self).pos as nat) {
                Ok((item, n)) => {
                    &&& result is Ok
                    &&& result->Ok_0@ == item
                    &&& old(self).advanced(*final(self), n)
                    &&& n > 0
                    &&& item_size(item) <= n
                },
                Err(error) => result == Err::<BlockItem, ParseError>(error),
            },
        decreases old(self).lexer.tokens.len() - old(self).pos, 2nat,
    {
        match self.peek(0) {
            Some(TokenKind::Int) => Ok(BlockItem::Decleration(self.decleration()?)),
            _ => Ok(BlockItem::Statement(self.statement()?)),
        }
    }

    fn decleration(&mut self) -> (result: Result<Decleration, ParseError>)
        requires
            old(self).wf(),
        ensures
            old(self).moved(*final(self)),
            match parse_declaration(old(self).tokens(), old(self).pos as nat) {
                Ok((decl, n)) => {
                    &&& result is Ok
                    &&& result->Ok_0@ == decl
                    &&& old(self).advanced(*final(self), n)
                    &&& declaration_size(decl) <= n
                },
                Err(error) => result == Err::<Decleration, ParseError>(error),
            },
    {
        proof {
            reveal(parse_declaration);
        }
        self.expect(TokenKind::Int)?;
        let name = String::from_str(self.expect(TokenKind::Identifier)?.lexeme);
        let init = if self.try_consume(TokenKind::Equal).is_some() {
            Some(self.expression_then(TokenKind::Semicolon)?)
        } else {
            self.expect(TokenKind::Semicolon)?;
            None
        };
        Ok(Decleration::Decleration { name, init })
    }

    fn for_init(&mut self) -> (result: Result<ForInit, ParseError>)
        requires
            old(self).wf(),
        ensures
            old(self).moved(*final(self)),
            match parse_for_init(old(self).tokens(), old(self).pos as nat) {
                Ok((init, n)) => {
                    &&& result is Ok
                    &&& result->Ok_0@ == init
                    &&& old(self).advanced(*final(self), n)
                    &&& for_init_size(init) <= n
                },
                Err(error) => result == Err::<ForInit, ParseError>(error),
            },
    {
        proof {
            reveal(parse_for_init);
        }
        match self.peek(0) {
            Some(TokenKind::Int) => Ok(ForInit::InitDecl(self.decleration()?)),
            _ => Ok(ForInit::InitExp(self.optional_expression(TokenKind::Semicolon)?)),
        }
    }

    /// Steps over the next token where it is of the expected kind.
    fn expect(&mut self, expected: TokenKind) -> (result: Result<Token<'de>, ParseError>)
        requires
            old(self).wf(),
        ensures
            old(self).moved(*final(self)),
            match expect(old(self).tokens(), old(self).pos as nat, expected) {
                Ok(_) => {
                    &&& result is Ok
                    &&& result->Ok_0 == old(self).lexer.tokens@[old(self).pos as int]
                    &&& old(self).advanced(*final(self), 1)
                },
                Err(error) => result == Err::<Token<'de>, ParseError>(error) && *final(self)
                    == *old(self),
            },
    {
        if self.pos < self.lexer.tokens.len() {
            let token = self.lexer.tokens[self.pos];
            if token.kind.same_kind(&expected) {
                self.pos += 1;
                Ok(token)
            } else {
                Err(
                    ParseError::UnexpectedToken {
                        expected: Some(expected),
                        got: Some(token.kind),
                        line: token.line,
                    },
                )
            }
        } else {
            Err(
                ParseError::UnexpectedToken {
                    expected: Some(expected),
                    got: None,
                    line: self.get_last_line(),
                },
            )
        }
    }

    /// Steps over the next token.
    fn consume(&mut self) -> (token: Token<'de>)
        requires
            old(self).wf(),
            old(self).pos < old(self).lexer.tokens.len(),
        ensures
            old(self).advanced(*final(self), 1),
            token == old(self).lexer.tokens@[old(self).pos as int],
    {
        let token = self.lexer.tokens[self.pos];
        self.pos += 1;
        token
    }

    /// The kind of the token `offset` places after the next one, if there
    /// is one.
    fn peek(&self, offset: usize) -> (kind: Option<TokenKind>)
        requires
            self.wf(),
        ensures
            kind == kind_at(self.tokens(), (self.pos + offset) as nat),
    {
        if offset < self.lexer.tokens.len() - self.pos {
            Some(self.lexer.tokens[self.pos + offset].kind)
        } else {
            None
        }
    }

    /// Steps over the next token where it is of the expected kind.
    fn try_consume(&mut self, expected: TokenKind) -> (token: Option<Token<'de>>)
        requires
            old(self).wf(),
        ensures
            old(self).moved(*final(self)),
            kind_at(old(self).tokens(), old(self).pos as nat) == Some(expected) ==> {
                &&& token == Some(old(self).lexer.tokens@[old(self).pos as int])
                &&& old(self).advanced(*final(self), 1)
            },
            kind_at(old(self).tokens(), old(self).pos as nat) != Some(expected) ==> {
                &&& token is None
                &&& *final(self) == *old(self)
            },
    {
        if self.pos < self.lexer.tokens.len() {
            let token = self.lexer.tokens[self.pos];
            if token.kind.same_kind(&expected) {
                self.pos += 1;
                return Some(token);
            }
        }
        None
    }

    /// An expression, and the token of the given kind that closes it.
    fn expression_then(&mut self, end: TokenKind) -> (result: Result<Expr, ParseError>)
        requires
            old(self).wf(),
        ensures
            old(self).moved(*final(self)),
            match parse_expression_then(old(self).tokens(), old(self).pos as nat, end) {
                Ok((expr, n)) => {
                    &&& result is Ok
                    &&& result->Ok_0@ == expr
                    &&& old(self).advanced(*final(self), n)
                    &&& expr_size(expr) + 1 <= n
                },
                Err(error) => result == Err::<Expr, ParseError>(error),
            },
        decreases old(self).lexer.tokens.len() - old(self).pos, 4nat,
    {
        proof {
            reveal(parse_expression_then);
        }
        let expr = self.expression(0)?;
        self.expect(end)?;
        Ok(expr)
    }

    /// An expression that may be left out, and the token of the given kind
    /// that closes it.
    fn optional_expression(&mut self, end: TokenKind) -> (result: Result<
        Option<Expr>,
        ParseError,
    >)
        requires
            old(self).wf(),
        ensures
            old(self).moved(*final(self)),
            match parse_optional_expression(old(self).tokens(), old(self).pos as nat, end) {
                Ok((expr, n)) => {
                    &&& result is Ok
                    &&& opt_expr_view(result->Ok_0) == expr
                    &&& old(self).advanced(*final(self), n)
                    &&& optional_size(expr) <= n
                },
                Err(error) => result == Err::<Option<Expr>, ParseError>(error),
            },
    {
        proof {
            reveal(parse_optional_expression);
        }
        if self.try_consume(end).is_some() {
            Ok(None)
        } else {
            Ok(Some(self.expression_then(end)?))
        }
    }

    /// The condition of an `if` or of a loop, in its parentheses.
    fn condition(&mut self) -> (result: Result<Expr, ParseError>)
        requires
            old(self).wf(),
        ensures
            old(self).moved(*final(self)),
            match parse_condition(old(self).tokens(), old(self).pos as nat) {
                Ok((expr, n)) => {
                    &&& result is Ok
                    &&& result->Ok_0@ == expr
                    &&& old(self).advanced(*final(self), n)
                    &&& expr_size(expr) <= n
                },
                Err(error) => result == Err::<Expr, ParseError>(error),
            },
    {
        proof {
            reveal(parse_condition);
        }
        self.expect(TokenKind::LeftParen)?;
        self.expression_then(TokenKind::RightParen)
    }

    fn statement(&mut self) -> (result: Result<Stmt, ParseError>)
        requires
            old(self).wf(),
        ensures
            old(self).moved(*final(self)),
            match parse_statement(old(self).tokens(), old(self).pos as nat) {
                Ok((stmt, n)) => {
                    &&& result is Ok
                    &&& result->Ok_0@ == stmt
                    &&& old(self).advanced(*final(self), n)
                    &&& n > 0
                    &&& statement_size(stmt) <= n
                },
                Err(error) => result == Err::<Stmt, ParseError>(error),
            },
        decreases old(self).lexer.tokens.len() - old(self).pos, 1nat,
    {
        match self.peek(0) {
            Some(TokenKind::Return) => self.return_statement(),
            Some(TokenKind::Semicolon) => {
                let _semicolon = self.consume();
                Ok(Stmt::Null)
            },
            Some(TokenKind::If) => self.if_statement(),
            Some(TokenKind::Goto) => self.goto_statement(),
            Some(TokenKind::Break) => self.jump_statement(),
            Some(TokenKind::Continue) => self.jump_statement(),
            Some(TokenKind::While) => self.while_statement(),
            Some(TokenKind::Do) => self.do_while_statement(),
            Some(TokenKind::For) => self.for_statement(),
            Some(TokenKind::LeftBrace) => Ok(Stmt::Compound(self.block()?)),
            Some(TokenKind::Identifier) => {
                if self.peek(1) == Some(TokenKind::Colon) {
                    self.labeled_statement()
                } else {
                    Ok(Stmt::Expression(self.expression_then(TokenKind::Semicolon)?))
                }
            },
            _ => Ok(Stmt::Expression(self.expression_then(TokenKind::Semicolon)?)),
        }
    }

    fn return_statement(&mut self) -> (result: Result<Stmt, ParseError>)
        requires
            old(self).wf(),
        ensures
            old(self).moved(*final(self)),
            match parse_return(old(self).tokens(), old(self).pos as nat) {
                Ok((stmt, n)) => {
                    &&& result is Ok
                    &&& result->Ok_0@ == stmt
                    &&& old(self).advanced(*final(self), n)
                    &&& n > 0
                    &&& statement_size(stmt) <= n
                },
                Err(error) => result == Err::<Stmt, ParseError>(error),
            },
    {
        proof {
            reveal(parse_return);
        }
        self.expect(TokenKind::Return)?;
        let return_value = self.expression_then(TokenKind::Semicolon)?;
        Ok(Stmt::Return(return_value))
    }

    fn goto_statement(&mut self) -> (result: Result<Stmt, ParseError>)
        requires
            old(self).wf(),
        ensures
            old(self).moved(*final(self)),
            match parse_goto(old(self).tokens(), old(self).pos as nat) {
                Ok((stmt, n)) => {
                    &&& result is Ok
                    &&& result->Ok_0@ == stmt
                    &&& old(self).advanced(*final(self), n)
                    &&& n > 0
                    &&& statement_size(stmt) <= n
                },
                Err(error) => result == Err::<Stmt, ParseError>(error),
            },
    {
        proof {
            reveal(parse_goto);
        }
        self.expect(TokenKind::Goto)?;
        let label = self.expect(TokenKind::Identifier)?.lexeme;
        self.expect(TokenKind::Semicolon)?;
        Ok(Stmt::Goto(String::from_str(label)))
    }

    /// A `break` or a `continue`, which is the next token.
    fn jump_statement(&mut self) -> (result: Result<Stmt, ParseError>)
        requires
            old(self).wf(),
            old(self).pos < old(self).lexer.tokens.len(),
        ensures
            old(self).moved(*final(self)),
            match parse_jump(old(self).tokens(), old(self).pos as nat) {
                Ok((stmt, n)) => {
                    &&& result is Ok
                    &&& result->Ok_0@ == stmt
                    &&& old(self).advanced(*final(self), n)
                    &&& n > 0
                    &&& statement_size(stmt) <= n
                },
                Err(error) => result == Err::<Stmt, ParseError>(error),
            },
    {
        proof {
            reveal(parse_jump);
        }
        let keyword = self.consume();
        self.expect(TokenKind::Semicolon)?;
        if keyword.kind.same_kind(&TokenKind::Break) {
            Ok(Stmt::Break { label: None })
        } else {
            Ok(Stmt::Continue { label: None })
        }
    }

    fn if_statement(&mut self) -> (result: Result<Stmt, ParseError>)
        requires
            old(self).wf(),
        ensures
            old(self).moved(*final(self)),
            match parse_if(old(self).tokens(), old(self).pos as nat) {
                Ok((stmt, n)) => {
                    &&& result is Ok
                    &&& result->Ok_0@ == stmt
                    &&& old(self).advanced(*final(self), n)
                    &&& n > 0
                    &&& statement_size(stmt) <= n
                },
                Err(error) => result == Err::<Stmt, ParseError>(error),
            },
        decreases old(self).lexer.tokens.len() - old(self).pos, 0nat,
    {
        self.expect(TokenKind::If)?;
        let condition = self.condition()?;
        let then_branch = Box::new(self.statement()?);
        let else_branch = if self.try_consume(TokenKind::Else).is_some() {
            Some(Box::new(self.statement()?))
        } else {
            None
        };
        Ok(Stmt::If { condition, then_branch, else_branch })
    }

    fn while_statement(&mut self) -> (result: Result<Stmt, ParseError>)
        requires
            old(self).wf(),
        ensures
            old(self).moved(*final(self)),
            match parse_while(old(self).tokens(), old(self).pos as nat) {
                Ok((stmt, n)) => {
                    &&& result is Ok
                    &&& result->Ok_0@ == stmt
                    &&& old(self).advanced(*final(self), n)
                    &&& n > 0
                    &&& statement_size(stmt) <= n
                },
                Err(error) => result == Err::<Stmt, ParseError>(error),
            },
        decreases old(self).lexer.tokens.len() - old(self).pos, 0nat,
    {
        self.expect(TokenKind::While)?;
        let condition = self.condition()?;
        let body = Box::new(self.statement()?);
        Ok(Stmt::While { condition, body, label: None })
    }

    fn do_while_statement(&mut self) -> (result: Result<Stmt, ParseError>)
        requires
            old(self).wf(),
        ensures
            old(self).moved(*final(self)),
            match parse_do_while(old(self).tokens(), old(self).pos as nat) {
                Ok((stmt, n)) => {
                    &&& result is Ok
                    &&& result->Ok_0@ == stmt
                    &&& old(self).advanced(*final(self), n)
                    &&& n > 0
                    &&& statement_size(stmt) <= n
                },
                Err(error) => result == Err::<Stmt, ParseError>(error),
            },
        decreases old(self).lexer.tokens.len() - old(self).pos, 0nat,
    {
        self.expect(TokenKind::Do)?;
        let body = Box::new(self.statement()?);
        self.expect(TokenKind::While)?;
        let condition = self.condition()?;
        self.expect(TokenKind::Semicolon)?;
        Ok(Stmt::DoWhile { body, condition, label: None })
    }

    fn for_statement(&mut self) -> (result: Result<Stmt, ParseError>)
        requires
            old(self).wf(),
        ensures
            old(self).moved(*final(self)),
            match parse_for(old(self).tokens(), old(self).pos as nat) {
                Ok((stmt, n)) => {
                    &&& result is Ok
                    &&& result->Ok_0@ == stmt
                    &&& old(self).advanced(*final(self), n)
                    &&& n > 0
                    &&& statement_size(stmt) <= n
                },
                Err(error) => result == Err::<Stmt, ParseError>(error),
            },
        decreases old(self).lexer.tokens.len() - old(self).pos, 0nat,
    {
        proof {
            reveal(parse_for_header);
        }
        self.expect(TokenKind::For)?;
        self.expect(TokenKind::LeftParen)?;
        let init = self.for_init()?;
        let condition = self.optional_expression(TokenKind::Semicolon)?;
        let post = self.optional_expression(TokenKind::RightParen)?;
        let body = Box::new(self.statement()?);
        Ok(Stmt::For { init, condition, post, body, label: None })
    }

    fn labeled_statement(&mut self) -> (result: Result<Stmt, ParseError>)
        requires
            old(self).wf(),
        ensures
            old(self).moved(*final(self)),
            match parse_labeled(old(self).tokens(), old(self).pos as nat) {
                Ok((stmt, n)) => {
                    &&& result is Ok
                    &&& result->Ok_0@ == stmt
                    &&& old(self).advanced(*final(self), n)
                    &&& n > 0
                    &&& statement_size(stmt) <= n
                },
                Err(error) => result == Err::<Stmt, ParseError>(error),
            },
        decreases old(self).lexer.tokens.len() - old(self).pos, 0nat,
    {
        let label = self.expect(TokenKind::Identifier)?.lexeme;
        self.expect(TokenKind::Colon)?;
        let stmt = Box::new(self.statement()?);
        Ok(Stmt::Label(String::from_str(label), stmt))
    }

    fn factor(&mut self) -> (result: Result<Expr, ParseError>)
        requires
            old(self).wf(),
        ensures
            old(self).moved(*final(self)),
            match parse_factor(old(self).tokens(), old(self).pos as nat) {
                Ok((expr, n)) => {
                    &&& result is Ok
                    &&& result->Ok_0@ == expr
                    &&& old(self).advanced(*final(self), n)
                    &&& expr_size(expr) <= n
                },
                Err(error) => result == Err::<Expr, ParseError>(error),
            },
        decreases old(self).lexer.tokens.len() - old(self).pos, 1nat,
    {
        let right = self.primary()?;
        if self.try_consume(TokenKind::DoublePlus).is_some() {
            Ok(Expr::Unary { operator: UnaryOp::PostFixInc, right: Box::new(right) })
        } else if self.try_consume(TokenKind::DoubleHyphen).is_some() {
            Ok(Expr::Unary { operator: UnaryOp::PostFixDec, right: Box::new(right) })
        } else {
            Ok(right)
        }
    }

    /// A factor without the postfix operator that may follow it.
    fn primary(&mut self) -> (result: Result<Expr, ParseError>)
        requires
            old(self).wf(),
        ensures
            old(self).moved(*final(self)),
            match parse_primary(old(self).tokens(), old(self).pos as nat) {
                Ok((expr, n)) => {
                    &&& result is Ok
                    &&& result->Ok_0@ == expr
                    &&& old(self).advanced(*final(self), n)
                    &&& expr_size(expr) <= n
                },
                Err(error) => result == Err::<Expr, ParseError>(error),
            },
        decreases old(self).lexer.tokens.len() - old(self).pos, 0nat,
    {
        proof {
            reveal(parse_expression_then);
        }
        match self.peek(0) {
            Some(TokenKind::Constant) => {
                match constant_of(self.lexer.tokens[self.pos].lexeme) {
                    Some(value) => {
                        self.pos += 1;
                        Ok(Expr::Constant(value))
                    },
                    None => Err(ParseError::InvalidExpression { line: self.line_here() }),
                }
            },
            Some(TokenKind::Tilde) => self.unary(UnaryOp::Complement),
            Some(TokenKind::Hyphen) => self.unary(UnaryOp::Negate),
            Some(TokenKind::Bang) => self.unary(UnaryOp::Not),
            Some(TokenKind::DoublePlus) => self.unary(UnaryOp::PrefixInc),
            Some(TokenKind::DoubleHyphen) => self.unary(UnaryOp::PrefixDec),
            Some(TokenKind::LeftParen) => {
                let _paren_token = self.consume();
                let inner = self.expression_then(TokenKind::RightParen)?;
                Ok(inner)
            },
            Some(TokenKind::Identifier) => {
                let name = String::from_str(self.consume().lexeme);
                Ok(Expr::Var(name))
            },
            _ => Err(ParseError::InvalidFactor { line: self.line_here() }),
        }
    }

    /// A prefix operator, which is the next token, and its operand.
    fn unary(&mut self, operator: UnaryOp) -> (result: Result<Expr, ParseError>)
        requires
            old(self).wf(),
            old(self).pos < old(self).lexer.tokens.len(),
        ensures
            old(self).moved(*final(self)),
            match parse_factor(old(self).tokens(), (old(self).pos + 1) as nat) {
                Ok((expr, n)) => {
                    &&& result is Ok
                    &&& result->Ok_0@ == ExprView::Unary { operator, right: Box::new(expr) }
                    &&& old(self).advanced(*final(self), n + 1)
                    &&& expr_size(expr) <= n
                },
                Err(error) => result == Err::<Expr, ParseError>(error),
            },
        decreases old(self).lexer.tokens.len() - old(self).pos - 1, 2nat,
    {
        let _operator_token = self.consume();
        let right = Box::new(self.factor()?);
        Ok(Expr::Unary { operator, right })
    }

    /// The binding strength of an operator token.
    fn precedence(token: &Token) -> (prec: Option<usize>)
        ensures
            match prec {
                Some(p) => precedence(token.kind) == Some(p as nat) && p <= 50,
                None => precedence(token.kind) is None,
            },
    {
        match token.kind {
            TokenKind::Equal => Some(1),
            TokenKind::PlusEqual => Some(1),
            TokenKind::HyphenEqual => Some(1),
            TokenKind::AsteriskEqual => Some(1),
            TokenKind::ForwardSlashEqual => Some(1),
            TokenKind::PercentEqual => Some(1),
            TokenKind::AmpersandEqual => Some(1),
            TokenKind::BarEqual => Some(1),
            TokenKind::CaretEqual => Some(1),
            TokenKind::LeftShiftEqual => Some(1),
            TokenKind::RightShiftEqual => Some(1),
            TokenKind::Question => Some(3),
            TokenKind::DoubleBar => Some(5),
            TokenKind::DoubleAmpersand => Some(9),
            TokenKind::Bar => Some(15),
            TokenKind::Caret => Some(20),
            TokenKind::Ampersand => Some(25),
            TokenKind::DoubleEqual => Some(30),
            TokenKind::BangEqual => Some(30),
            TokenKind::Greater => Some(35),
            TokenKind::GreaterEqual => Some(35),
            TokenKind::Less => Some(35),
            TokenKind::LessEqual => Some(35),
            TokenKind::LeftShift => Some(40),
            TokenKind::RightShift => Some(40),
            TokenKind::Hyphen => Some(45),
            TokenKind::Plus => Some(45),
            TokenKind::Asterisk => Some(50),
            TokenKind::ForwardSlash => Some(50),
            TokenKind::Percent => Some(50),
            _ => None,
        }
    }

    fn expression(&mut self, min_prec: usize) -> (result: Result<Expr, ParseError>)
        requires
            old(self).wf(),
            min_prec <= 51,
        ensures
            old(self).moved(*final(self)),
            match parse_expression(old(self).tokens(), old(self).pos as nat, min_prec as nat) {
                Ok((expr, n)) => {
                    &&& result is Ok
                    &&& result->Ok_0@ == expr
                    &&& old(self).advanced(*final(self), n)
                    &&& expr_size(expr) <= n
                },
                Err(error) => result == Err::<Expr, ParseError>(error),
            },
        decreases old(self).lexer.tokens.len() - old(self).pos, 3nat,
    {
        let mut left = self.factor()?;
        let ghost tokens = self.tokens();
        let ghost start = self.pos as nat;
        let ghost first = left@;
        loop
            invariant
                old(self).moved(*self),
                tokens == self.tokens(),
                old(self).pos <= start <= self.pos,
                old(self).pos + expr_size(left@) <= self.pos,
                min_prec <= 51,
                parse_factor(tokens, old(self).pos as nat) == Ok::<(ExprView, nat), ParseError>(
                    (first, (start - old(self).pos) as nat),
                ),
                match parse_operators(tokens, self.pos as nat, min_prec as nat, left@) {
                    Ok((expr, m)) => parse_operators(tokens, start, min_prec as nat, first)
                        == Ok::<(ExprView, nat), ParseError>(
                        (expr, (self.pos - start + m) as nat),
                    ),
                    Err(error) => parse_operators(tokens, start, min_prec as nat, first)
                        == Err::<(ExprView, nat), ParseError>(error),
                },
            decreases self.lexer.tokens.len() - self.pos,
        {
            if self.pos >= self.lexer.tokens.len() {
                return Ok(left);
            }
            let prec = match Self::precedence(&self.lexer.tokens[self.pos]) {
                Some(prec) => prec,
                None => {
                    return Ok(left);
                },
            };
            if prec < min_prec {
                return Ok(left);
            }
            left = self.operation(prec, left)?;
        }
    }

    /// The operation of the operator that is the next token, whose
    /// precedence is `prec`, on the operand `left`.
    fn operation(&mut self, prec: usize, left: Expr) -> (result: Result<Expr, ParseError>)
        requires
            old(self).wf(),
            operator_at(old(self).tokens(), old(self).pos as nat) == Some(prec as nat),
            prec <= 50,
        ensures
            old(self).moved(*final(self)),
            match parse_operation(old(self).tokens(), old(self).pos as nat, left@) {
                Ok((expr, n)) => {
                    &&& result is Ok
                    &&& result->Ok_0@ == expr
                    &&& old(self).advanced(*final(self), n + 1)
                    &&& expr_size(expr) <= expr_size(left@) + 1 + n
                },
                Err(error) => result == Err::<Expr, ParseError>(error),
            },
        decreases old(self).lexer.tokens.len() - old(self).pos, 0nat,
    {
        let token = self.consume();
        if let Some(assignment_op) = Self::assignment_op(token.kind) {
            let right = self.expression(prec)?;
            Ok(
                Expr::Assignment {
                    left: Box::new(left),
                    right: Box::new(right),
                    operator: assignment_op,
                },
            )
        } else if let Some(binary_op) = Self::binary_op(token.kind) {
            let right = self.expression(prec + 1)?;
            Ok(Expr::Binary { operator: binary_op, left: Box::new(left), right: Box::new(right) })
        } else {
            let then_branch = Box::new(self.expression(0)?);
            self.expect(TokenKind::Colon)?;
            let else_branch = Box::new(self.expression(prec)?);
            Ok(Expr::Conditional { condition: Box::new(left), then_branch, else_branch })
        }
    }

    /// The assignment operator that a token spells, if it spells one.
    fn assignment_op(token: TokenKind) -> (operator: Option<AssignmentOp>)
        ensures
            operator == assignment_op(token),
    {
        match token {
            TokenKind::Equal => Some(AssignmentOp::Equal),
            TokenKind::PlusEqual => Some(AssignmentOp::PlusEqual),
            TokenKind::HyphenEqual => Some(AssignmentOp::SubtractEqual),
            TokenKind::AsteriskEqual => Some(AssignmentOp::MultipleEqual),
            TokenKind::ForwardSlashEqual => Some(AssignmentOp::DivideEqual),
            TokenKind::PercentEqual => Some(AssignmentOp::RemainderEqual),
            TokenKind::AmpersandEqual => Some(AssignmentOp::BitAndEqual),
            TokenKind::BarEqual => Some(AssignmentOp::BitOrEqual),
            TokenKind::CaretEqual => Some(AssignmentOp::XorEqual),
            TokenKind::RightShiftEqual => Some(AssignmentOp::RightShiftEqual),
            TokenKind::LeftShiftEqual => Some(AssignmentOp::LeftShiftEqual),
            _ => None,
        }
    }

    /// The binary operator that a token spells, if it spells one.
    fn binary_op(token: TokenKind) -> (operator: Option<BinaryOp>)
        ensures
            operator == binary_op(token),
    {
        match token {
            TokenKind::DoubleBar => Some(BinaryOp::Or),
            TokenKind::DoubleAmpersand => Some(BinaryOp::And),
            TokenKind::Bar => Some(BinaryOp::BitOr),
            TokenKind::Caret => Some(BinaryOp::Xor),
            TokenKind::Ampersand => Some(BinaryOp::BitAnd),
            TokenKind::DoubleEqual => Some(BinaryOp::Equal),
            TokenKind::BangEqual => Some(BinaryOp::NotEqual),
            TokenKind::Greater => Some(BinaryOp::GreaterThan),
            TokenKind::GreaterEqual => Some(BinaryOp::GreaterOrEqual),
            TokenKind::Less => Some(BinaryOp::LessThan),
            TokenKind::LessEqual => Some(BinaryOp::LessOrEqual),
            TokenKind::LeftShift => Some(BinaryOp::LeftShift),
            TokenKind::RightShift => Some(BinaryOp::RightShift),
            TokenKind::Hyphen => Some(BinaryOp::Subtract),
            TokenKind::Plus => Some(BinaryOp::Add),
            TokenKind::Asterisk => Some(BinaryOp::Multiply),
            TokenKind::ForwardSlash => Some(BinaryOp::Divide),
            TokenKind::Percent => Some(BinaryOp::Remainder),
            _ => None,
        }
    }

    /// The line of the last token, or 0 where there is no token.
    fn get_last_line(&self) -> (line: usize)
        ensures
            self.pos >= self.lexer.tokens.len() ==> line == line_at(
                self.tokens(),
                self.pos as nat,
            ),
    {
        let n = self.lexer.tokens.len();
        if n > 0 {
            self.lexer.tokens[n - 1].line
        } else {
            0
        }
    }

    /// The line to report for the current position.
    fn line_here(&self) -> (line: usize)
        ensures
            line == line_at(self.tokens(), self.pos as nat),
    {
        if self.pos < self.lexer.tokens.len() {
            self.lexer.tokens[self.pos].line
        } else {
            self.get_last_line()
        }
    }
}

} // verus!
