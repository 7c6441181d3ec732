//! The lexer: from source text to tokens, by maximal munch.

use vstd::prelude::*;
use vstd::string::*;
use crate::token::{Token, TokenKind, TokenView};
use crate::Error;

verus! {

broadcast use vstd::string::group_string_axioms;

/// A decimal digit.
pub open spec fn is_digit(c: char) -> bool {
    '0' <= c <= '9'
}

/// A character that may start an identifier.
pub open spec fn is_ident_start(c: char) -> bool {
    ('a' <= c <= 'z') || ('A' <= c <= 'Z') || c == '_'
}

/// A character that may continue an identifier.
pub open spec fn is_ident_char(c: char) -> bool {
    is_ident_start(c) || is_digit(c)
}

/// A blank other than the line feed.
pub open spec fn is_blank(c: char) -> bool {
    c == ' ' || c == '\t' || c == '\r' || c == '\u{b}' || c == '\u{c}'
}

/// The punctuator that is spelled by one character.
pub open spec fn punct1(a: char) -> Option<TokenKind> {
    if a == '(' {
        Some(TokenKind::LeftParen)
    } else if a == ')' {
        Some(TokenKind::RightParen)
    } else if a == '{' {
        Some(TokenKind::LeftBrace)
    } else if a == '}' {
        Some(TokenKind::RightBrace)
    } else if a == ';' {
        Some(TokenKind::Semicolon)
    } else if a == ',' {
        Some(TokenKind::Comma)
    } else if a == '~' {
        Some(TokenKind::Tilde)
    } else if a == '-' {
        Some(TokenKind::Hyphen)
    } else if a == '+' {
        Some(TokenKind::Plus)
    } else if a == '*' {
        Some(TokenKind::Asterisk)
    } else if a == '/' {
        Some(TokenKind::ForwardSlash)
    } else if a == '%' {
        Some(TokenKind::Percent)
    } else if a == '&' {
        Some(TokenKind::Ampersand)
    } else if a == '|' {
        Some(TokenKind::Bar)
    } else if a == '^' {
        Some(TokenKind::Caret)
    } else if a == '!' {
        Some(TokenKind::Bang)
    } else if a == '=' {
        Some(TokenKind::Equal)
    } else if a == '<' {
        Some(TokenKind::Less)
    } else if a == '>' {
        Some(TokenKind::Greater)
    } else if a == '?' {
        Some(TokenKind::Question)
    } else if a == ':' {
        Some(TokenKind::Colon)
    } else {
        None
    }
}

/// The punctuator that is spelled by two characters.
pub open spec fn punct2(a: char, b: char) -> Option<TokenKind> {
    if b == '=' {
        if a == '+' {
            Some(TokenKind::PlusEqual)
        } else if a == '-' {
            Some(TokenKind::HyphenEqual)
        } else if a == '*' {
            Some(TokenKind::AsteriskEqual)
        } else if a == '/' {
            Some(TokenKind::ForwardSlashEqual)
        } else if a == '%' {
            Some(TokenKind::PercentEqual)
        } else if a == '&' {
            Some(TokenKind::AmpersandEqual)
        } else if a == '|' {
            Some(TokenKind::BarEqual)
        } else if a == '^' {
            Some(TokenKind::CaretEqual)
        } else if a == '<' {
            Some(TokenKind::LessEqual)
        } else if a == '>' {
            Some(TokenKind::GreaterEqual)
        } else if a == '=' {
            Some(TokenKind::DoubleEqual)
        } else if a == '!' {
            Some(TokenKind::BangEqual)
        } else {
            None
        }
    } else if a == b {
        if a == '+' {
            Some(TokenKind::DoublePlus)
        } else if a == '-' {
            Some(TokenKind::DoubleHyphen)
        } else if a == '&' {
            Some(TokenKind::DoubleAmpersand)
        } else if a == '|' {
            Some(TokenKind::DoubleBar)
        } else if a == '<' {
            Some(TokenKind::LeftShift)
        } else if a == '>' {
            Some(TokenKind::RightShift)
        } else {
            None
        }
    } else {
        None
    }
}

/// The punctuator that is spelled by three characters.
pub open spec fn punct3(a: char, b: char, c: char) -> Option<TokenKind> {
    if a == '<' && b == '<' && c == '=' {
        Some(TokenKind::LeftShiftEqual)
    } else if a == '>' && b == '>' && c == '=' {
        Some(TokenKind::RightShiftEqual)
    } else {
        None
    }
}

/// The punctuator that a lexeme spells, if it spells one.
pub open spec fn punctuator_kind(lexeme: Seq<char>) -> Option<TokenKind> {
    if lexeme.len() == 1 {
        punct1(lexeme[0])
    } else if lexeme.len() == 2 {
        punct2(lexeme[0], lexeme[1])
    } else if lexeme.len() == 3 {
        punct3(lexeme[0], lexeme[1], lexeme[2])
    } else {
        None
    }
}

/// Whether the first `n` characters of `rest` spell a punctuator.
pub open spec fn punctuator_prefix(rest: Seq<char>, n: nat) -> bool {
    n <= rest.len() && punctuator_kind(rest.take(n as int)) is Some
}

/// Maximal munch among the punctuators: the length of the longest prefix of
/// `rest` that spells one, or 0 where none does.
pub open spec fn punctuator_len(rest: Seq<char>) -> nat {
    if punctuator_prefix(rest, 3) {
        3
    } else if punctuator_prefix(rest, 2) {
        2
    } else if punctuator_prefix(rest, 1) {
        1
    } else {
        0
    }
}

/// The keyword that a lexeme spells, if it spells one.
pub open spec fn keyword(lexeme: Seq<char>) -> Option<TokenKind> {
    if lexeme == seq!['i', 'n', 't'] {
        Some(TokenKind::Int)
    } else if lexeme == seq!['v', 'o', 'i', 'd'] {
        Some(TokenKind::Void)
    } else if lexeme == seq!['r', 'e', 't', 'u', 'r', 'n'] {
        Some(TokenKind::Return)
    } else if lexeme == seq!['i', 'f'] {
        Some(TokenKind::If)
    } else if lexeme == seq!['e', 'l', 's', 'e'] {
        Some(TokenKind::Else)
    } else if lexeme == seq!['g', 'o', 't', 'o'] {
        Some(TokenKind::Goto)
    } else if lexeme == seq!['b', 'r', 'e', 'a', 'k'] {
        Some(TokenKind::Break)
    } else if lexeme == seq!['c', 'o', 'n', 't', 'i', 'n', 'u', 'e'] {
        Some(TokenKind::Continue)
    } else if lexeme == seq!['w', 'h', 'i', 'l', 'e'] {
        Some(TokenKind::While)
    } else if lexeme == seq!['d', 'o'] {
        Some(TokenKind::Do)
    } else if lexeme == seq!['f', 'o', 'r'] {
        Some(TokenKind::For)
    } else {
        None
    }
}

/// The kind of the word that a lexeme spells: a keyword or an identifier.
pub open spec fn word_kind(lexeme: Seq<char>) -> TokenKind {
    match keyword(lexeme) {
        Some(kind) => kind,
        None => TokenKind::Identifier,
    }
}

/// The length of the longest prefix of `rest` made of identifier characters.
pub open spec fn ident_run(rest: Seq<char>) -> nat
    decreases rest.len(),
{
    if rest.len() > 0 && is_ident_char(rest[0]) {
        1 + ident_run(rest.drop_first())
    } else {
        0
    }
}

/// The length of the longest prefix of `rest` made of digits.
pub open spec fn digit_run(rest: Seq<char>) -> nat
    decreases rest.len(),
{
    if rest.len() > 0 && is_digit(rest[0]) {
        1 + digit_run(rest.drop_first())
    } else {
        0
    }
}

/// What stands at the head of a non-empty rest of the source.
pub enum Scan {
    /// A token of this kind, spelled by this many characters.
    Token(TokenKind, nat),
    /// A blank, which is skipped.
    Blank,
    /// A line feed, which is skipped and counted.
    NewLine,
    /// A number that runs into an identifier character.
    Malformed,
    /// A character with which no token starts.
    Unexpected,
}

/// Classifies the head of `rest`, which is not empty.
pub open spec fn scan(rest: Seq<char>) -> Scan {
    let c = rest[0];
    if is_blank(c) {
        Scan::Blank
    } else if c == '\n' {
        Scan::NewLine
    } else if is_digit(c) {
        let n = digit_run(rest);
        if n < rest.len() && is_ident_char(rest[n as int]) {
            Scan::Malformed
        } else {
            Scan::Token(TokenKind::Constant, n)
        }
    } else if is_ident_start(c) {
        let n = ident_run(rest);
        Scan::Token(word_kind(rest.take(n as int)), n)
    } else if punctuator_len(rest) > 0 {
        let n = punctuator_len(rest);
        Scan::Token(punctuator_kind(rest.take(n as int))->0, n)
    } else {
        Scan::Unexpected
    }
}

/// The outcome of lexing: the tokens read, the error that stopped the
/// lexer, if one did, and what is left unread, with the line on which it
/// starts. Nothing is left where no error stopped the lexer, and else what
/// starts with the character at which it stopped.
pub struct Lexed {
    pub tokens: Seq<TokenView>,
    pub error: Option<Error>,
    pub rest: Seq<char>,
    pub line: nat,
}

/// A run of identifier characters is no longer than the text it is found in.
pub proof fn lemma_ident_run_bound(rest: Seq<char>)
    ensures
        ident_run(rest) <= rest.len(),
    decreases rest.len(),
{
    if rest.len() > 0 && is_ident_char(rest[0]) {
        lemma_ident_run_bound(rest.drop_first());
    }
}

/// A run of digits is no longer than the text it is found in.
pub proof fn lemma_digit_run_bound(rest: Seq<char>)
    ensures
        digit_run(rest) <= rest.len(),
    decreases rest.len(),
{
    if rest.len() > 0 && is_digit(rest[0]) {
        lemma_digit_run_bound(rest.drop_first());
    }
}

/// A token is spelled by at least one character of the rest, and by no more
/// than the rest holds.
pub proof fn lemma_scan_len(rest: Seq<char>)
    requires
        rest.len() > 0,
    ensures
        match scan(rest) {
            Scan::Token(_, n) => 1 <= n <= rest.len(),
            _ => true,
        },
{
    lemma_ident_run_bound(rest);
    lemma_digit_run_bound(rest);
}

/// Lexes `rest`, whose first character stands on line `line`.
pub open spec fn lex(rest: Seq<char>, line: nat) -> Lexed
    decreases rest.len(),
{
    if rest.len() == 0 {
        Lexed { tokens: Seq::empty(), error: None, rest, line }
    } else {
        proof {
            lemma_scan_len(rest);
        }
        match scan(rest) {
            Scan::Token(kind, n) => {
                let token = TokenView { kind, lexeme: rest.take(n as int), line };
                let after = lex(rest.skip(n as int), line);
                Lexed {
                    tokens: seq![token] + after.tokens,
                    error: after.error,
                    rest: after.rest,
                    line: after.line,
                }
            },
            Scan::Blank => lex(rest.skip(1), line),
            Scan::NewLine => lex(rest.skip(1), line + 1),
            Scan::Malformed => Lexed {
                tokens: Seq::empty(),
                error: Some(Error::Lexer { line: line as usize }),
                rest,
                line,
            },
            Scan::Unexpected => Lexed {
                tokens: Seq::empty(),
                error: Some(Error::InvalidToken { character: rest[0], line: line as usize }),
                rest,
                line,
            },
        }
    }
}

/// The views of a sequence of tokens, in order.
pub open spec fn tokens_view(tokens: Seq<Token<'_>>) -> Seq<TokenView> {
    tokens.map_values(|token: Token<'_>| token@)
}

/// Skipping a digit lengthens the run of digits by one.
proof fn lemma_digit_run_step(rest: Seq<char>, n: int)
    requires
        0 <= n < rest.len(),
        is_digit(rest[n]),
    ensures
        digit_run(rest.skip(n)) == 1 + digit_run(rest.skip(n + 1)),
{
    assert(rest.skip(n).drop_first() =~= rest.skip(n + 1));
}

/// Skipping an identifier character lengthens the run of them by one.
proof fn lemma_ident_run_step(rest: Seq<char>, n: int)
    requires
        0 <= n < rest.len(),
        is_ident_char(rest[n]),
    ensures
        ident_run(rest.skip(n)) == 1 + ident_run(rest.skip(n + 1)),
{
    assert(rest.skip(n).drop_first() =~= rest.skip(n + 1));
}

fn digit(c: char) -> (r: bool)
    ensures
        r == is_digit(c),
{
    '0' <= c && c <= '9'
}

fn ident_char(c: char) -> (r: bool)
    ensures
        r == is_ident_char(c),
{
    ('a' <= c && c <= 'z') || ('A' <= c && c <= 'Z') || c == '_' || ('0' <= c && c <= '9')
}

fn blank(c: char) -> (r: bool)
    ensures
        r == is_blank(c),
{
    c == ' ' || c == '\t' || c == '\r' || c == '\u{b}' || c == '\u{c}'
}

fn kind1(a: char) -> (kind: Option<TokenKind>)
    ensures
        kind == punct1(a),
{
    match a {
        '(' => Some(TokenKind::LeftParen),
        ')' => Some(TokenKind::RightParen),
        '{' => Some(TokenKind::LeftBrace),
        '}' => Some(TokenKind::RightBrace),
        ';' => Some(TokenKind::Semicolon),
        ',' => Some(TokenKind::Comma),
        '~' => Some(TokenKind::Tilde),
        '-' => Some(TokenKind::Hyphen),
        '+' => Some(TokenKind::Plus),
        '*' => Some(TokenKind::Asterisk),
        '/' => Some(TokenKind::ForwardSlash),
        '%' => Some(TokenKind::Percent),
        '&' => Some(TokenKind::Ampersand),
        '|' => Some(TokenKind::Bar),
        '^' => Some(TokenKind::Caret),
        '!' => Some(TokenKind::Bang),
        '=' => Some(TokenKind::Equal),
        '<' => Some(TokenKind::Less),
        '>' => Some(TokenKind::Greater),
        '?' => Some(TokenKind::Question),
        ':' => Some(TokenKind::Colon),
        _ => None,
    }
}

fn kind2(a: char, b: char) -> (kind: Option<TokenKind>)
    ensures
        kind == punct2(a, b),
{
    if b == '=' {
        match a {
            '+' => Some(TokenKind::PlusEqual),
            '-' => Some(TokenKind::HyphenEqual),
            '*' => Some(TokenKind::AsteriskEqual),
            '/' => Some(TokenKind::ForwardSlashEqual),
            '%' => Some(TokenKind::PercentEqual),
            '&' => Some(TokenKind::AmpersandEqual),
            '|' => Some(TokenKind::BarEqual),
            '^' => Some(TokenKind::CaretEqual),
            '<' => Some(TokenKind::LessEqual),
            '>' => Some(TokenKind::GreaterEqual),
            '=' => Some(TokenKind::DoubleEqual),
            '!' => Some(TokenKind::BangEqual),
            _ => None,
        }
    } else if a == b {
        match a {
            '+' => Some(TokenKind::DoublePlus),
            '-' => Some(TokenKind::DoubleHyphen),
            '&' => Some(TokenKind::DoubleAmpersand),
            '|' => Some(TokenKind::DoubleBar),
            '<' => Some(TokenKind::LeftShift),
            '>' => Some(TokenKind::RightShift),
            _ => None,
        }
    } else {
        None
    }
}

fn kind3(a: char, b: char, c: char) -> (kind: Option<TokenKind>)
    ensures
        kind == punct3(a, b, c),
{
    if a == '<' && b == '<' && c == '=' {
        Some(TokenKind::LeftShiftEqual)
    } else if a == '>' && b == '>' && c == '=' {
        Some(TokenKind::RightShiftEqual)
    } else {
        None
    }
}

/// Whether two strings hold the same text.
pub fn same_text(a: &str, b: &str) -> (same: bool)
    ensures
        same == (a@ == b@),
{
    broadcast use {vstd::utf8::encode_utf8_decode_utf8, vstd::utf8::encode_utf8_valid_utf8};

    let x = a.as_bytes();
    let y = b.as_bytes();
    if x.len() != y.len() {
        return false;
    }
    let mut i: usize = 0;
    while i < x.len()
        invariant
            i <= x.len(),
            x.len() == y.len(),
            x@ == a.spec_bytes(),
            y@ == b.spec_bytes(),
            forall|j: int| 0 <= j < i ==> x@[j] == y@[j],
        decreases x.len() - i,
    {
        if x[i] != y[i] {
            return false;
        }
        i += 1;
    }
    assert(x@ =~= y@);
    assert(vstd::utf8::decode_utf8(vstd::utf8::encode_utf8(a@)) == a@);
    assert(vstd::utf8::decode_utf8(vstd::utf8::encode_utf8(b@)) == b@);
    true
}

/// A lexer over a source text. It reads the text from left to right and
/// appends the tokens it finds to `tokens`.
pub struct Lexer<'de> {
    /// The tokens read so far.
    pub tokens: Vec<Token<'de>>,
    /// The whole source text.
    pub source: &'de str,
    /// Whether the source is plain ASCII, so that its characters are its bytes.
    pub ascii: bool,
    /// The number of characters of the source.
    pub length: usize,
    /// The number of characters read so far.
    pub pos: usize,
    /// The number of line feeds read so far.
    pub newlines: usize,
}

impl<'de> Lexer<'de> {
    /// The invariant of the lexer's state.
    pub closed spec fn wf(&self) -> bool {
        &&& self.length == self.source@.len()
        &&& self.ascii == is_ascii(self.source)
        &&& self.pos <= self.length
        &&& self.newlines <= self.pos
    }

    /// The part of the source that is still to be read.
    pub closed spec fn rest(&self) -> Seq<char> {
        self.source@.skip(self.pos as int)
    }

    /// The line on which the rest of the source starts, counted from 1.
    pub closed spec fn line(&self) -> nat {
        (self.newlines + 1) as nat
    }

    /// A lexer at the start of `source`, with no token read yet.
    pub fn new(source: &'de str) -> (lexer: Self)
        ensures
            lexer.wf(),
            lexer.rest() == source@,
            lexer.line() == 1,
            lexer.tokens@ == Seq::<Token<'de>>::empty(),
    {
        let ascii = source.is_ascii();
        proof {
            if ascii {
                vstd::utf8::is_ascii_chars_encode_utf8(source@);
            }
        }
        let length = if ascii {
            source.as_bytes().len()
        } else {
            source.unicode_len()
        };
        let lexer = Self { tokens: Vec::new(), source, ascii, length, pos: 0, newlines: 0 };
        assert(lexer.rest() =~= source@);
        lexer
    }

    /// Reads the source to its end, or to the first error.
    pub fn tokenize(&mut self) -> (result: Result<(), Error>)
        requires
            old(self).wf(),
        ensures
            final(self).wf(),
            final(self).tokens.len() + final(self).rest().len() <= old(self).tokens.len() + old(
                self,
            ).rest().len(),
            tokens_view(final(self).tokens@) == tokens_view(old(self).tokens@) + lex(
                old(self).rest(),
                old(self).line(),
            ).tokens,
            final(self).rest() == lex(old(self).rest(), old(self).line()).rest,
            final(self).line() == lex(old(self).rest(), old(self).line()).line,
            match lex(old(self).rest(), old(self).line()).error {
                Some(error) => result == Err::<(), Error>(error),
                None => result is Ok && final(self).rest().len() == 0,
            },
    {
        while self.pos < self.length
            invariant
                self.wf(),
                self.tokens.len() + self.rest().len() <= old(self).tokens.len() + old(
                    self,
                ).rest().len(),
                tokens_view(old(self).tokens@) + lex(old(self).rest(), old(self).line()).tokens
                    == tokens_view(self.tokens@) + lex(self.rest(), self.line()).tokens,
                lex(old(self).rest(), old(self).line()).error == lex(
                    self.rest(),
                    self.line(),
                ).error,
                lex(old(self).rest(), old(self).line()).rest == lex(self.rest(), self.line()).rest,
                lex(old(self).rest(), old(self).line()).line == lex(self.rest(), self.line()).line,
            decreases self.length - self.pos,
        {
            let ghost before = *self;
            proof {
                lemma_scan_len(self.rest());
            }
            match self.consume_token() {
                Ok(()) => {
                    proof {
                        let now = lex(before.rest(), before.line());
                        let then = lex(self.rest(), self.line());
                        assert(tokens_view(before.tokens@) + now.tokens =~= tokens_view(
                            self.tokens@,
                        ) + then.tokens);
                    }
                },
                Err(error) => {
                    assert(tokens_view(self.tokens@) + lex(self.rest(), self.line()).tokens
                        =~= tokens_view(self.tokens@));
                    return Err(error);
                },
            }
        }
        assert(tokens_view(self.tokens@) + lex(self.rest(), self.line()).tokens =~= tokens_view(
            self.tokens@,
        ));
        Ok(())
    }

    /// Reads what stands at the head of the rest: one token, one blank or
    /// one line feed. On an error the lexer is left as it was.
    pub fn consume_token(&mut self) -> (result: Result<(), Error>)
        requires
            old(self).wf(),
            old(self).rest().len() > 0,
        ensures
            final(self).wf(),
            final(self).tokens.len() + final(self).rest().len() <= old(self).tokens.len() + old(
                self,
            ).rest().len(),
            match scan(old(self).rest()) {
                Scan::Token(kind, n) => {
                    &&& result is Ok
                    &&& final(self).rest() == old(self).rest().skip(n as int)
                    &&& final(self).line() == old(self).line()
                    &&& tokens_view(final(self).tokens@) == tokens_view(old(self).tokens@).push(
                        TokenView {
                            kind,
                            lexeme: old(self).rest().take(n as int),
                            line: old(self).line(),
                        },
                    )
                },
                Scan::Blank => {
                    &&& result is Ok
                    &&& final(self).rest() == old(self).rest().skip(1)
                    &&& final(self).line() == old(self).line()
                    &&& final(self).tokens == old(self).tokens
                },
                Scan::NewLine => {
                    &&& result is Ok
                    &&& final(self).rest() == old(self).rest().skip(1)
                    &&& final(self).line() == old(self).line() + 1
                    &&& final(self).tokens == old(self).tokens
                },
                Scan::Malformed => {
                    &&& result == Err::<(), Error>(
                        Error::Lexer { line: old(self).line() as usize },
                    )
                    &&& *final(self) == *old(self)
                },
                Scan::Unexpected => {
                    &&& result == Err::<(), Error>(
                        Error::InvalidToken {
                            character: old(self).rest()[0],
                            line: old(self).line() as usize,
                        },
                    )
                    &&& *final(self) == *old(self)
                },
            },
    {
        let c = self.char_at(self.pos);
        proof {
            lemma_scan_len(self.rest());
        }
        if blank(c) {
            self.consume();
            Ok(())
        } else if c == '\n' {
            self.consume();
            self.newlines += 1;
            Ok(())
        } else if digit(c) {
            self.number()
        } else if ident_char(c) {
            self.identifier();
            Ok(())
        } else {
            match self.punctuator() {
                Some((kind, n)) => {
                    self.add_token(kind, n);
                    Ok(())
                },
                None => Err(Error::InvalidToken { character: c, line: self.newlines + 1 }),
            }
        }
    }

    /// The character at index `i` of the source.
    fn char_at(&self, i: usize) -> (c: char)
        requires
            self.wf(),
            i < self.length,
        ensures
            c == self.source@[i as int],
    {
        if self.ascii {
            self.source.get_ascii(i) as char
        } else {
            self.source.get_char(i)
        }
    }

    /// Steps over one character.
    fn consume(&mut self)
        requires
            old(self).wf(),
            old(self).rest().len() > 0,
        ensures
            final(self).wf(),
            final(self).rest() == old(self).rest().skip(1),
            final(self).line() == old(self).line(),
            final(self).newlines == old(self).newlines,
            final(self).pos == old(self).pos + 1,
            final(self).tokens == old(self).tokens,
    {
        self.pos += 1;
        assert(self.rest() =~= old(self).rest().skip(1));
    }

    /// Appends a token of the given kind, spelled by the next `n` characters,
    /// and steps over them.
    fn add_token(&mut self, kind: TokenKind, n: usize)
        requires
            old(self).wf(),
            1 <= n <= old(self).rest().len(),
        ensures
            final(self).wf(),
            final(self).rest() == old(self).rest().skip(n as int),
            final(self).line() == old(self).line(),
            final(self).tokens.len() == old(self).tokens.len() + 1,
            tokens_view(final(self).tokens@) == tokens_view(old(self).tokens@).push(
                TokenView {
                    kind,
                    lexeme: old(self).rest().take(n as int),
                    line: old(self).line(),
                },
            ),
    {
        let lexeme = self.lexeme(n);
        let token = Token::new(kind, lexeme, self.newlines + 1);
        self.tokens.push(token);
        self.pos += n;
        assert(self.rest() =~= old(self).rest().skip(n as int));
        assert(tokens_view(self.tokens@) =~= tokens_view(old(self).tokens@).push(token@));
    }

    /// The next `n` characters of the source.
    fn lexeme(&self, n: usize) -> (lexeme: &'de str)
        requires
            self.wf(),
            n <= self.rest().len(),
        ensures
            lexeme@ == self.rest().take(n as int),
    {
        let lexeme = if self.ascii {
            self.source.substring_ascii(self.pos, self.pos + n)
        } else {
            self.source.substring_char(self.pos, self.pos + n)
        };
        assert(lexeme@ =~= self.rest().take(n as int));
        lexeme
    }

    /// Reads a constant, which starts at the head of the rest.
    fn number(&mut self) -> (result: Result<(), Error>)
        requires
            old(self).wf(),
            old(self).rest().len() > 0,
            is_digit(old(self).rest()[0]),
        ensures
            final(self).wf(),
            final(self).tokens.len() + final(self).rest().len() <= old(self).tokens.len() + old(
                self,
            ).rest().len(),
            digit_run(old(self).rest()) < old(self).rest().len() && is_ident_char(
                old(self).rest()[digit_run(old(self).rest()) as int],
            ) ==> {
                &&& result == Err::<(), Error>(Error::Lexer { line: old(self).line() as usize })
                &&& *final(self) == *old(self)
            },
            !(digit_run(old(self).rest()) < old(self).rest().len() && is_ident_char(
                old(self).rest()[digit_run(old(self).rest()) as int],
            )) ==> {
                &&& result is Ok
                &&& final(self).rest() == old(self).rest().skip(digit_run(old(self).rest()) as int)
                &&& final(self).line() == old(self).line()
                &&& tokens_view(final(self).tokens@) == tokens_view(old(self).tokens@).push(
                    TokenView {
                        kind: TokenKind::Constant,
                        lexeme: old(self).rest().take(digit_run(old(self).rest()) as int),
                        line: old(self).line(),
                    },
                )
            },
    {
        let available = self.length - self.pos;
        let mut n: usize = 0;
        assert(self.rest().skip(0) =~= self.rest());
        while n < available && digit(self.char_at(self.pos + n))
            invariant
                self.wf(),
                *self == *old(self),
                available == self.rest().len(),
                n <= available,
                digit_run(self.rest()) == n + digit_run(self.rest().skip(n as int)),
            decreases available - n,
        {
            proof {
                lemma_digit_run_step(self.rest(), n as int);
            }
            n += 1;
        }
        if n < available && ident_char(self.char_at(self.pos + n)) {
            Err(Error::Lexer { line: self.newlines + 1 })
        } else {
            self.add_token(TokenKind::Constant, n);
            Ok(())
        }
    }

    /// Reads an identifier or a keyword, which starts at the head of the rest.
    fn identifier(&mut self)
        requires
            old(self).wf(),
            old(self).rest().len() > 0,
            is_ident_start(old(self).rest()[0]),
        ensures
            final(self).wf(),
            final(self).rest() == old(self).rest().skip(ident_run(old(self).rest()) as int),
            final(self).line() == old(self).line(),
            final(self).tokens.len() + final(self).rest().len() <= old(self).tokens.len() + old(
                self,
            ).rest().len(),
            tokens_view(final(self).tokens@) == tokens_view(old(self).tokens@).push(
                TokenView {
                    kind: word_kind(old(self).rest().take(ident_run(old(self).rest()) as int)),
                    lexeme: old(self).rest().take(ident_run(old(self).rest()) as int),
                    line: old(self).line(),
                },
            ),
    {
        let available = self.length - self.pos;
        let mut n: usize = 0;
        assert(self.rest().skip(0) =~= self.rest());
        while n < available && ident_char(self.char_at(self.pos + n))
            invariant
                self.wf(),
                *self == *old(self),
                available == self.rest().len(),
                n <= available,
                ident_run(self.rest()) == n + ident_run(self.rest().skip(n as int)),
            decreases available - n,
        {
            proof {
                lemma_ident_run_step(self.rest(), n as int);
            }
            n += 1;
        }
        let kind = match Self::get_keyword(self.lexeme(n)) {
            Some(kind) => kind,
            None => TokenKind::Identifier,
        };
        self.add_token(kind, n);
    }

    /// The longest punctuator at the head of the rest, with its length.
    fn punctuator(&self) -> (found: Option<(TokenKind, usize)>)
        requires
            self.wf(),
            self.rest().len() > 0,
        ensures
            match found {
                Some((kind, n)) => {
                    &&& n == punctuator_len(self.rest())
                    &&& 1 <= n <= self.rest().len()
                    &&& punctuator_kind(self.rest().take(n as int)) == Some(kind)
                },
                None => punctuator_len(self.rest()) == 0,
            },
    {
        let available = self.length - self.pos;
        let a = self.char_at(self.pos);
        if available >= 3 {
            let b = self.char_at(self.pos + 1);
            let c = self.char_at(self.pos + 2);
            if let Some(kind) = kind3(a, b, c) {
                return Some((kind, 3));
            }
        }
        if available >= 2 {
            let b = self.char_at(self.pos + 1);
            if let Some(kind) = kind2(a, b) {
                return Some((kind, 2));
            }
        }
        match kind1(a) {
            Some(kind) => Some((kind, 1)),
            None => None,
        }
    }

    /// The keyword that `lexeme` spells, if it spells one.
    fn get_keyword(lexeme: &str) -> (kind: Option<TokenKind>)
        ensures
            kind == keyword(lexeme@),
    {
        proof {
            reveal_strlit("int");
            reveal_strlit("void");
            reveal_strlit("return");
            reveal_strlit("if");
            reveal_strlit("else");
            reveal_strlit("goto");
            reveal_strlit("break");
            reveal_strlit("continue");
            reveal_strlit("while");
            reveal_strlit("do");
            reveal_strlit("for");
            assert("int"@ =~= seq!['i', 'n', 't']);
            assert("void"@ =~= seq!['v', 'o', 'i', 'd']);
            assert("return"@ =~= seq!['r', 'e', 't', 'u', 'r', 'n']);
            assert("if"@ =~= seq!['i', 'f']);
            assert("else"@ =~= seq!['e', 'l', 's', 'e']);
            assert("goto"@ =~= seq!['g', 'o', 't', 'o']);
            assert("break"@ =~= seq!['b', 'r', 'e', 'a', 'k']);
            assert("continue"@ =~= seq!['c', 'o', 'n', 't', 'i', 'n', 'u', 'e']);
            assert("while"@ =~= seq!['w', 'h', 'i', 'l', 'e']);
            assert("do"@ =~= seq!['d', 'o']);
            assert("for"@ =~= seq!['f', 'o', 'r']);
        }
        if same_text(lexeme, "int") {
            Some(TokenKind::Int)
        } else if same_text(lexeme, "void") {
            Some(TokenKind::Void)
        } else if same_text(lexeme, "return") {
            Some(TokenKind::Return)
        } else if same_text(lexeme, "if") {
            Some(TokenKind::If)
        } else if same_text(lexeme, "else") {
            Some(TokenKind::Else)
        } else if same_text(lexeme, "goto") {
            Some(TokenKind::Goto)
        } else if same_text(lexeme, "break") {
            Some(TokenKind::Break)
        } else if same_text(lexeme, "continue") {
            Some(TokenKind::Continue)
        } else if same_text(lexeme, "while") {
            Some(TokenKind::While)
        } else if same_text(lexeme, "do") {
            Some(TokenKind::Do)
        } else if same_text(lexeme, "for") {
            Some(TokenKind::For)
        } else {
            None
        }
    }
}

} // verus!
