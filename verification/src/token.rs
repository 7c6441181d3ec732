//! Tokens of the source language.

use vstd::prelude::*;

verus! {

/// The kind of a token: a punctuator, a literal class or a keyword.
#[derive(Debug, Clone, Copy, PartialEq, Eq, Structural)]
pub enum TokenKind {
    LeftParen,
    RightParen,
    LeftBrace,
    RightBrace,
    Semicolon,
    Comma,
    Tilde,
    Hyphen,
    HyphenEqual,
    DoubleHyphen,
    Plus,
    DoublePlus,
    PlusEqual,
    Asterisk,
    AsteriskEqual,
    ForwardSlash,
    ForwardSlashEqual,
    Percent,
    PercentEqual,
    Ampersand,
    AmpersandEqual,
    Bar,
    BarEqual,
    Caret,
    CaretEqual,
    LeftShift,
    LeftShiftEqual,
    RightShift,
    RightShiftEqual,
    Bang,
    Equal,
    DoubleAmpersand,
    DoubleBar,
    DoubleEqual,
    BangEqual,
    Less,
    Greater,
    LessEqual,
    GreaterEqual,
    Question,
    Colon,
    // Literals.
    Identifier,
    Constant,
    // Keywords.
    Int,
    Void,
    Return,
    If,
    Else,
    Goto,
    Break,
    Continue,
    While,
    Do,
    For,
}

/// A token: its kind, the slice of the source it was read from, and the
/// line on which it starts.
#[derive(Debug, Copy, Clone, PartialEq, Eq)]
pub struct Token<'de> {
    pub kind: TokenKind,
    pub lexeme: &'de str,
    pub line: usize,
}

/// The mathematical value of a token.
pub struct TokenView {
    pub kind: TokenKind,
    pub lexeme: Seq<char>,
    pub line: nat,
}

impl<'de> View for Token<'de> {
    type V = TokenView;

    open spec fn view(&self) -> TokenView {
        TokenView { kind: self.kind, lexeme: self.lexeme@, line: self.line as nat }
    }
}

impl<'de> Token<'de> {
    pub fn new(kind: TokenKind, lexeme: &'de str, line: usize) -> (token: Self)
        ensures
            token.kind == kind,
            token.lexeme == lexeme,
            token.line == line,
    {
        Token { kind, lexeme, line }
    }
}

/// The name of a kind of token, as it is written in messages.
pub open spec fn kind_name(kind: TokenKind) -> Seq<char> {
    match kind {
        TokenKind::LeftParen => "LeftParen"@,
        TokenKind::RightParen => "RightParen"@,
        TokenKind::LeftBrace => "LeftBrace"@,
        TokenKind::RightBrace => "RightBrace"@,
        TokenKind::Semicolon => "Semicolon"@,
        TokenKind::Comma => "Comma"@,
        TokenKind::Tilde => "Tilde"@,
        TokenKind::Hyphen => "Hyphen"@,
        TokenKind::HyphenEqual => "HyphenEqual"@,
        TokenKind::DoubleHyphen => "DoubleHyphen"@,
        TokenKind::Plus => "Plus"@,
        TokenKind::DoublePlus => "DoublePlus"@,
        TokenKind::PlusEqual => "PlusEqual"@,
        TokenKind::Asterisk => "Asterisk"@,
        TokenKind::AsteriskEqual => "AsteriskEqual"@,
        TokenKind::ForwardSlash => "ForwardSlash"@,
        TokenKind::ForwardSlashEqual => "ForwardSlashEqual"@,
        TokenKind::Percent => "Percent"@,
        TokenKind::PercentEqual => "PercentEqual"@,
        TokenKind::Ampersand => "Ampersand"@,
        TokenKind::AmpersandEqual => "AmpersandEqual"@,
        TokenKind::Bar => "Bar"@,
        TokenKind::BarEqual => "BarEqual"@,
        TokenKind::Caret => "Caret"@,
        TokenKind::CaretEqual => "CaretEqual"@,
        TokenKind::LeftShift => "LeftShift"@,
        TokenKind::LeftShiftEqual => "LeftShiftEqual"@,
        TokenKind::RightShift => "RightShift"@,
        TokenKind::RightShiftEqual => "RightShiftEqual"@,
        TokenKind::Bang => "Bang"@,
        TokenKind::Equal => "Equal"@,
        TokenKind::DoubleAmpersand => "DoubleAmpersand"@,
        TokenKind::DoubleBar => "DoubleBar"@,
        TokenKind::DoubleEqual => "DoubleEqual"@,
        TokenKind::BangEqual => "BangEqual"@,
        TokenKind::Less => "Less"@,
        TokenKind::Greater => "Greater"@,
        TokenKind::LessEqual => "LessEqual"@,
        TokenKind::GreaterEqual => "GreaterEqual"@,
        TokenKind::Question => "Question"@,
        TokenKind::Colon => "Colon"@,
        TokenKind::Identifier => "Identifier"@,
        TokenKind::Constant => "Constant"@,
        TokenKind::Int => "Int"@,
        TokenKind::Void => "Void"@,
        TokenKind::Return => "Return"@,
        TokenKind::If => "If"@,
        TokenKind::Else => "Else"@,
        TokenKind::Goto => "Goto"@,
        TokenKind::Break => "Break"@,
        TokenKind::Continue => "Continue"@,
        TokenKind::While => "While"@,
        TokenKind::Do => "Do"@,
        TokenKind::For => "For"@,
    }
}

impl TokenKind {
    /// The name of this kind, as it is written in messages.
    pub fn name(&self) -> (name: &'static str)
        ensures
            name@ == kind_name(*self),
    {
        match self {
            TokenKind::LeftParen => "LeftParen",
            TokenKind::RightParen => "RightParen",
            TokenKind::LeftBrace => "LeftBrace",
            TokenKind::RightBrace => "RightBrace",
            TokenKind::Semicolon => "Semicolon",
            TokenKind::Comma => "Comma",
            TokenKind::Tilde => "Tilde",
            TokenKind::Hyphen => "Hyphen",
            TokenKind::HyphenEqual => "HyphenEqual",
            TokenKind::DoubleHyphen => "DoubleHyphen",
            TokenKind::Plus => "Plus",
            TokenKind::DoublePlus => "DoublePlus",
            TokenKind::PlusEqual => "PlusEqual",
            TokenKind::Asterisk => "Asterisk",
            TokenKind::AsteriskEqual => "AsteriskEqual",
            TokenKind::ForwardSlash => "ForwardSlash",
            TokenKind::ForwardSlashEqual => "ForwardSlashEqual",
            TokenKind::Percent => "Percent",
            TokenKind::PercentEqual => "PercentEqual",
            TokenKind::Ampersand => "Ampersand",
            TokenKind::AmpersandEqual => "AmpersandEqual",
            TokenKind::Bar => "Bar",
            TokenKind::BarEqual => "BarEqual",
            TokenKind::Caret => "Caret",
            TokenKind::CaretEqual => "CaretEqual",
            TokenKind::LeftShift => "LeftShift",
            TokenKind::LeftShiftEqual => "LeftShiftEqual",
            TokenKind::RightShift => "RightShift",
            TokenKind::RightShiftEqual => "RightShiftEqual",
            TokenKind::Bang => "Bang",
            TokenKind::Equal => "Equal",
            TokenKind::DoubleAmpersand => "DoubleAmpersand",
            TokenKind::DoubleBar => "DoubleBar",
            TokenKind::DoubleEqual => "DoubleEqual",
            TokenKind::BangEqual => "BangEqual",
            TokenKind::Less => "Less",
            TokenKind::Greater => "Greater",
            TokenKind::LessEqual => "LessEqual",
            TokenKind::GreaterEqual => "GreaterEqual",
            TokenKind::Question => "Question",
            TokenKind::Colon => "Colon",
            TokenKind::Identifier => "Identifier",
            TokenKind::Constant => "Constant",
            TokenKind::Int => "Int",
            TokenKind::Void => "Void",
            TokenKind::Return => "Return",
            TokenKind::If => "If",
            TokenKind::Else => "Else",
            TokenKind::Goto => "Goto",
            TokenKind::Break => "Break",
            TokenKind::Continue => "Continue",
            TokenKind::While => "While",
            TokenKind::Do => "Do",
            TokenKind::For => "For",
        }
    }

    /// Whether two kinds are the same variant.
    pub fn same_kind(&self, other: &Self) -> (same: bool)
        ensures
            same == (*self == *other),
    {
        *self == *other
    }
}

} // verus!
