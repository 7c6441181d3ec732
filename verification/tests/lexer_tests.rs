use comp::lexer::{same_text, Lexer};
use comp::token::{Token, TokenKind};
use comp::Error;

fn kinds(source: &str) -> Vec<TokenKind> {
    let mut lexer = Lexer::new(source);
    lexer.tokenize().expect("the source lexes");
    lexer.tokens.iter().map(|token| token.kind).collect()
}

#[test]
fn token_new_keeps_its_parts() {
    let token = Token::new(TokenKind::Identifier, "main", 7);
    assert_eq!(token.kind, TokenKind::Identifier);
    assert_eq!(token.lexeme, "main");
    assert_eq!(token.line, 7);
}

#[test]
fn same_kind_compares_the_variants() {
    assert!(TokenKind::Plus.same_kind(&TokenKind::Plus));
    assert!(!TokenKind::Plus.same_kind(&TokenKind::DoublePlus));
    assert!(!TokenKind::Identifier.same_kind(&TokenKind::Constant));
}

#[test]
fn same_text_compares_the_characters() {
    assert!(same_text("while", "while"));
    assert!(!same_text("while", "whilf"));
    assert!(!same_text("while", "whil"));
    assert!(same_text("", ""));
    assert!(same_text("\u{e9}t\u{e9}", "\u{e9}t\u{e9}"));
    assert!(!same_text("\u{e9}", "e"));
}

#[test]
fn a_new_lexer_has_read_nothing() {
    let lexer = Lexer::new("int x;");
    assert!(lexer.tokens.is_empty());
}

#[test]
fn an_empty_source_has_no_tokens() {
    assert_eq!(kinds(""), vec![]);
    assert_eq!(kinds("  \t\r\n \u{b}\u{c}\n"), vec![]);
}

#[test]
fn lexes_the_smallest_program() {
    let mut lexer = Lexer::new("int main(void) {\n  return 2;\n}\n");
    assert!(lexer.tokenize().is_ok());
    let kinds: Vec<TokenKind> = lexer.tokens.iter().map(|token| token.kind).collect();
    assert_eq!(
        kinds,
        vec![
            TokenKind::Int,
            TokenKind::Identifier,
            TokenKind::LeftParen,
            TokenKind::Void,
            TokenKind::RightParen,
            TokenKind::LeftBrace,
            TokenKind::Return,
            TokenKind::Constant,
            TokenKind::Semicolon,
            TokenKind::RightBrace,
        ]
    );
    let lexemes: Vec<&str> = lexer.tokens.iter().map(|token| token.lexeme).collect();
    assert_eq!(lexemes, vec!["int", "main", "(", "void", ")", "{", "return", "2", ";", "}"]);
    let lines: Vec<usize> = lexer.tokens.iter().map(|token| token.line).collect();
    assert_eq!(lines, vec![1, 1, 1, 1, 1, 1, 2, 2, 2, 3]);
}

#[test]
fn consume_token_reads_one_token_or_one_blank() {
    let mut lexer = Lexer::new("a +=\n1");
    assert!(lexer.consume_token().is_ok());
    assert_eq!(lexer.tokens.len(), 1);
    assert!(lexer.consume_token().is_ok());
    assert_eq!(lexer.tokens.len(), 1);
    assert!(lexer.consume_token().is_ok());
    assert_eq!(lexer.tokens.len(), 2);
    assert_eq!(lexer.tokens[1], Token::new(TokenKind::PlusEqual, "+=", 1));
    assert!(lexer.consume_token().is_ok());
    assert_eq!(lexer.tokens.len(), 2);
    assert!(lexer.consume_token().is_ok());
    assert_eq!(lexer.tokens[2], Token::new(TokenKind::Constant, "1", 2));
}

#[test]
fn every_punctuator_is_recognized() {
    let table = [
        ("(", TokenKind::LeftParen),
        (")", TokenKind::RightParen),
        ("{", TokenKind::LeftBrace),
        ("}", TokenKind::RightBrace),
        (";", TokenKind::Semicolon),
        (",", TokenKind::Comma),
        ("~", TokenKind::Tilde),
        ("-", TokenKind::Hyphen),
        ("-=", TokenKind::HyphenEqual),
        ("--", TokenKind::DoubleHyphen),
        ("+", TokenKind::Plus),
        ("++", TokenKind::DoublePlus),
        ("+=", TokenKind::PlusEqual),
        ("*", TokenKind::Asterisk),
        ("*=", TokenKind::AsteriskEqual),
        ("/", TokenKind::ForwardSlash),
        ("/=", TokenKind::ForwardSlashEqual),
        ("%", TokenKind::Percent),
        ("%=", TokenKind::PercentEqual),
        ("&", TokenKind::Ampersand),
        ("&=", TokenKind::AmpersandEqual),
        ("|", TokenKind::Bar),
        ("|=", TokenKind::BarEqual),
        ("^", TokenKind::Caret),
        ("^=", TokenKind::CaretEqual),
        ("<<", TokenKind::LeftShift),
        ("<<=", TokenKind::LeftShiftEqual),
        (">>", TokenKind::RightShift),
        (">>=", TokenKind::RightShiftEqual),
        ("!", TokenKind::Bang),
        ("=", TokenKind::Equal),
        ("&&", TokenKind::DoubleAmpersand),
        ("||", TokenKind::DoubleBar),
        ("==", TokenKind::DoubleEqual),
        ("!=", TokenKind::BangEqual),
        ("<", TokenKind::Less),
        (">", TokenKind::Greater),
        ("<=", TokenKind::LessEqual),
        (">=", TokenKind::GreaterEqual),
        ("?", TokenKind::Question),
        (":", TokenKind::Colon),
    ];
    for (text, kind) in table {
        assert_eq!(kinds(text), vec![kind], "{text}");
    }
}

#[test]
fn every_keyword_is_recognized() {
    let table = [
        ("int", TokenKind::Int),
        ("void", TokenKind::Void),
        ("return", TokenKind::Return),
        ("if", TokenKind::If),
        ("else", TokenKind::Else),
        ("goto", TokenKind::Goto),
        ("break", TokenKind::Break),
        ("continue", TokenKind::Continue),
        ("while", TokenKind::While),
        ("do", TokenKind::Do),
        ("for", TokenKind::For),
    ];
    for (text, kind) in table {
        assert_eq!(kinds(text), vec![kind], "{text}");
    }
    assert_eq!(kinds("integer"), vec![TokenKind::Identifier]);
    assert_eq!(kinds("If"), vec![TokenKind::Identifier]);
    assert_eq!(kinds("do_"), vec![TokenKind::Identifier]);
    assert_eq!(kinds("_"), vec![TokenKind::Identifier]);
    assert_eq!(kinds("_x9"), vec![TokenKind::Identifier]);
    assert_eq!(kinds("for2"), vec![TokenKind::Identifier]);
}

#[test]
fn maximal_munch_prefers_the_longest_punctuator() {
    assert_eq!(kinds(">>="), vec![TokenKind::RightShiftEqual]);
    assert_eq!(kinds(">>"), vec![TokenKind::RightShift]);
    assert_eq!(kinds(">="), vec![TokenKind::GreaterEqual]);
    assert_eq!(kinds(">"), vec![TokenKind::Greater]);
    assert_eq!(kinds("<<="), vec![TokenKind::LeftShiftEqual]);
    assert_eq!(kinds("++"), vec![TokenKind::DoublePlus]);
    assert_eq!(kinds("+++"), vec![TokenKind::DoublePlus, TokenKind::Plus]);
    assert_eq!(kinds("&&&"), vec![TokenKind::DoubleAmpersand, TokenKind::Ampersand]);
    assert_eq!(kinds("|||"), vec![TokenKind::DoubleBar, TokenKind::Bar]);
    assert_eq!(kinds("==="), vec![TokenKind::DoubleEqual, TokenKind::Equal]);
    assert_eq!(kinds("!=="), vec![TokenKind::BangEqual, TokenKind::Equal]);
    assert_eq!(kinds("<<<"), vec![TokenKind::LeftShift, TokenKind::Less]);
    assert_eq!(kinds(">>>="), vec![TokenKind::RightShift, TokenKind::GreaterEqual]);
    assert_eq!(kinds("> >="), vec![TokenKind::Greater, TokenKind::GreaterEqual]);
    assert_eq!(
        kinds("a+=-b"),
        vec![TokenKind::Identifier, TokenKind::PlusEqual, TokenKind::Hyphen, TokenKind::Identifier]
    );
    assert_eq!(
        kinds("a---b"),
        vec![
            TokenKind::Identifier,
            TokenKind::DoubleHyphen,
            TokenKind::Hyphen,
            TokenKind::Identifier
        ]
    );
}

#[test]
fn a_number_that_runs_into_a_letter_is_an_error() {
    let mut lexer = Lexer::new("int x;\nx = 123abc;");
    assert_eq!(lexer.tokenize(), Err(Error::Lexer { line: 2 }));
    // The tokens before the error were read, and the lexer stands at the
    // number.
    assert_eq!(lexer.tokens.len(), 5);
    assert_eq!(lexer.pos, 11);
    assert_eq!(lexer.newlines, 1);
    let mut lexer = Lexer::new("1_");
    assert_eq!(lexer.tokenize(), Err(Error::Lexer { line: 1 }));
    // A number may run into a punctuator.
    assert_eq!(kinds("12+3"), vec![TokenKind::Constant, TokenKind::Plus, TokenKind::Constant]);
    assert_eq!(kinds("007"), vec![TokenKind::Constant]);
}

#[test]
fn a_character_outside_the_language_is_an_error() {
    let mut lexer = Lexer::new("return @;");
    assert_eq!(lexer.tokenize(), Err(Error::InvalidToken { character: '@', line: 1 }));
    let mut lexer = Lexer::new("a\n\n = \u{e9};");
    assert_eq!(lexer.tokenize(), Err(Error::InvalidToken { character: '\u{e9}', line: 3 }));
    let mut lexer = Lexer::new("a = 1; # b");
    assert_eq!(lexer.tokenize(), Err(Error::InvalidToken { character: '#', line: 1 }));
}

#[test]
fn a_source_with_other_scripts_lexes_up_to_them() {
    let mut lexer = Lexer::new("int a\u{3b1} = 1;");
    assert_eq!(lexer.tokenize(), Err(Error::InvalidToken { character: '\u{3b1}', line: 1 }));
    assert_eq!(lexer.tokens.len(), 2);
    assert_eq!(lexer.tokens[1], Token::new(TokenKind::Identifier, "a", 1));
}

#[test]
fn an_error_leaves_the_lexer_where_it_was() {
    let mut lexer = Lexer::new("$");
    assert!(lexer.consume_token().is_err());
    assert_eq!(lexer.consume_token(), Err(Error::InvalidToken { character: '$', line: 1 }));
    assert!(lexer.tokens.is_empty());
}

#[test]
fn the_lexemes_of_a_source_lex_to_the_same_words() {
    let source = "int main(void){int a=3;a<<=2;\n\treturn a++>=--a?a&&1:a>>1;}";
    let mut lexer = Lexer::new(source);
    lexer.tokenize().expect("the source lexes");
    let spelled: String = lexer.tokens.iter().map(|token| format!("{} ", token.lexeme)).collect();
    let mut again = Lexer::new(&spelled);
    again.tokenize().expect("the spelling lexes");
    assert_eq!(again.tokens.len(), lexer.tokens.len());
    for (first, second) in lexer.tokens.iter().zip(again.tokens.iter()) {
        assert_eq!(first.kind, second.kind);
        assert_eq!(first.lexeme, second.lexeme);
    }
    assert!(again.tokens.iter().all(|token| token.line == 1));
}
