//! Spelling tokens back into text: the text made of the lexemes of a token
//! sequence, each followed by a blank, lexes to the same words. Maximal
//! munch is stable: a lexeme that a blank follows is read as one token of
//! its kind, whatever followed it in the text it was read from.

use vstd::prelude::*;
use crate::lexer::{
    Scan, digit_run, ident_run, is_blank, is_digit, is_ident_char, is_ident_start, lemma_scan_len,
    lex, punctuator_len, punctuator_prefix, scan,
};
use crate::token::TokenView;

verus! {

/// The text that spells a token sequence: the lexemes in order, each
/// followed by a blank.
pub open spec fn spell(tokens: Seq<TokenView>) -> Seq<char>
    decreases tokens.len(),
{
    if tokens.len() == 0 {
        Seq::empty()
    } else {
        tokens[0].lexeme + seq![' '] + spell(tokens.drop_first())
    }
}

/// Whether two token sequences are the same but for the lines: as many
/// tokens, of the same kinds and with the same lexemes.
pub open spec fn same_words(a: Seq<TokenView>, b: Seq<TokenView>) -> bool {
    &&& a.len() == b.len()
    &&& forall|i: int|
        0 <= i < a.len() ==> (#[trigger] a[i]).kind == b[i].kind && a[i].lexeme == b[i].lexeme
}

/// A run of digits is made of digits, and ends at the end of the text or
/// before a character that is no digit.
pub proof fn lemma_digit_run(rest: Seq<char>)
    ensures
        digit_run(rest) <= rest.len(),
        forall|i: int| 0 <= i < digit_run(rest) ==> is_digit(#[trigger] rest[i]),
        digit_run(rest) < rest.len() ==> !is_digit(rest[digit_run(rest) as int]),
    decreases rest.len(),
{
    if rest.len() > 0 && is_digit(rest[0]) {
        lemma_digit_run(rest.drop_first());
        assert forall|i: int| 0 <= i < digit_run(rest) implies is_digit(#[trigger] rest[i]) by {
            if i > 0 {
                assert(rest[i] == rest.drop_first()[i - 1]);
            }
        }
        if digit_run(rest) < rest.len() {
            assert(rest[digit_run(rest) as int] == rest.drop_first()[digit_run(rest) - 1]);
        }
    }
}

/// A text that starts with `n` digits, and goes on with none, has a run of
/// `n` digits.
pub proof fn lemma_digit_run_is(text: Seq<char>, n: nat)
    requires
        n <= text.len(),
        forall|i: int| 0 <= i < n ==> is_digit(#[trigger] text[i]),
        n < text.len() ==> !is_digit(text[n as int]),
    ensures
        digit_run(text) == n,
    decreases n,
{
    if n > 0 {
        assert(is_digit(text[0]));
        assert forall|i: int| 0 <= i < n - 1 implies is_digit(#[trigger] text.drop_first()[i]) by {
            assert(text.drop_first()[i] == text[i + 1]);
        }
        lemma_digit_run_is(text.drop_first(), (n - 1) as nat);
    }
}

/// A run of identifier characters is made of them, and ends at the end of
/// the text or before a character that is none of them.
pub proof fn lemma_ident_run(rest: Seq<char>)
    ensures
        ident_run(rest) <= rest.len(),
        forall|i: int| 0 <= i < ident_run(rest) ==> is_ident_char(#[trigger] rest[i]),
        ident_run(rest) < rest.len() ==> !is_ident_char(rest[ident_run(rest) as int]),
    decreases rest.len(),
{
    if rest.len() > 0 && is_ident_char(rest[0]) {
        lemma_ident_run(rest.drop_first());
        assert forall|i: int| 0 <= i < ident_run(rest) implies is_ident_char(
            #[trigger] rest[i],
        ) by {
            if i > 0 {
                assert(rest[i] == rest.drop_first()[i - 1]);
            }
        }
        if ident_run(rest) < rest.len() {
            assert(rest[ident_run(rest) as int] == rest.drop_first()[ident_run(rest) - 1]);
        }
    }
}

/// A text that starts with `n` identifier characters, and goes on with
/// none, has a run of `n` of them.
pub proof fn lemma_ident_run_is(text: Seq<char>, n: nat)
    requires
        n <= text.len(),
        forall|i: int| 0 <= i < n ==> is_ident_char(#[trigger] text[i]),
        n < text.len() ==> !is_ident_char(text[n as int]),
    ensures
        ident_run(text) == n,
    decreases n,
{
    if n > 0 {
        assert(is_ident_char(text[0]));
        assert forall|i: int| 0 <= i < n - 1 implies is_ident_char(
            #[trigger] text.drop_first()[i],
        ) by {
            assert(text.drop_first()[i] == text[i + 1]);
        }
        lemma_ident_run_is(text.drop_first(), (n - 1) as nat);
    }
}

/// Maximal munch is stable: the token at the head of a text is read again,
/// with the same kind and the same length, from its lexeme followed by a
/// blank and by any text.
pub proof fn lemma_scan_stable(rest: Seq<char>, tail: Seq<char>)
    requires
        rest.len() > 0,
        scan(rest) is Token,
    ensures
        scan(rest.take(scan(rest)->Token_1 as int) + seq![' '] + tail) == scan(rest),
        1 <= scan(rest)->Token_1 <= rest.len(),
{
    let n = scan(rest)->Token_1;
    lemma_scan_len(rest);
    let lexeme = rest.take(n as int);
    let text = lexeme + seq![' '] + tail;
    let c = rest[0];
    assert(text[0] == c);
    assert(text[n as int] == ' ');
    assert(text.take(n as int) =~= lexeme);
    assert forall|i: int| 0 <= i < n implies text[i] == rest[i] by {}
    if is_blank(c) || c == '\n' {
    } else if is_digit(c) {
        lemma_digit_run(rest);
        lemma_digit_run_is(text, n);
    } else if is_ident_start(c) {
        lemma_ident_run(rest);
        lemma_ident_run_is(text, n);
    } else {
        assert(n == punctuator_len(rest));
        if n == 3 {
            assert(text.take(3) =~= rest.take(3));
        } else if n == 2 {
            assert(text.take(2) =~= rest.take(2));
            assert(text.take(3)[2] == ' ');
            assert(!punctuator_prefix(text, 3));
        } else {
            assert(text.take(1) =~= rest.take(1));
            assert(text.take(2)[1] == ' ');
            assert(!punctuator_prefix(text, 2));
            if text.len() >= 3 {
                assert(text.take(3)[1] == ' ');
            }
            assert(!punctuator_prefix(text, 3));
        }
        assert(punctuator_len(text) == n);
    }
}

/// A lexeme that a blank follows is lexed as one token, and the lexing goes
/// on after the blank.
pub proof fn lemma_lex_spelled(rest: Seq<char>, tail: Seq<char>, line: nat)
    requires
        rest.len() > 0,
        scan(rest) is Token,
    ensures
        lex(rest.take(scan(rest)->Token_1 as int) + seq![' '] + tail, line).error == lex(
            tail,
            line,
        ).error,
        lex(rest.take(scan(rest)->Token_1 as int) + seq![' '] + tail, line).tokens == seq![
            TokenView {
                kind: scan(rest)->Token_0,
                lexeme: rest.take(scan(rest)->Token_1 as int),
                line,
            },
        ] + lex(tail, line).tokens,
{
    let n = scan(rest)->Token_1;
    let lexeme = rest.take(n as int);
    let text = lexeme + seq![' '] + tail;
    lemma_scan_stable(rest, tail);
    assert(text.take(n as int) =~= lexeme);
    let after = text.skip(n as int);
    assert(after =~= seq![' '] + tail);
    assert(after[0] == ' ');
    assert(scan(after) is Blank);
    assert(after.skip(1) =~= tail);
    assert(lex(after, line) == lex(tail, line));
}

/// Whether a token is spelled so that it lexes back: its lexeme, followed
/// by a blank, is read as one token of its kind.
#[verifier::opaque]
pub open spec fn well_spelled(token: TokenView) -> bool {
    &&& token.lexeme.len() > 0
    &&& scan(token.lexeme + seq![' ']) == Scan::Token(token.kind, token.lexeme.len())
}

/// Whether every token of a sequence is well spelled and stands on the
/// first line.
pub open spec fn all_well_spelled(tokens: Seq<TokenView>) -> bool {
    forall|i: int|
        0 <= i < tokens.len() ==> well_spelled(#[trigger] tokens[i]) && tokens[i].line == 1
}

/// Two sequences of well-spelled tokens, one after the other, are one.
pub proof fn lemma_well_spelled_append(a: Seq<TokenView>, b: Seq<TokenView>)
    requires
        all_well_spelled(a),
        all_well_spelled(b),
    ensures
        all_well_spelled(a + b),
{
    assert forall|i: int| 0 <= i < (a + b).len() implies well_spelled(#[trigger] (a + b)[i]) && (a
        + b)[i].line == 1 by {
        if i < a.len() {
            assert((a + b)[i] == a[i]);
        } else {
            assert((a + b)[i] == b[i - a.len()]);
        }
    }
}

/// The text that spells well-spelled tokens lexes to these tokens.
pub proof fn lemma_lex_well_spelled(tokens: Seq<TokenView>)
    requires
        all_well_spelled(tokens),
    ensures
        lex(spell(tokens), 1).error is None,
        lex(spell(tokens), 1).tokens == tokens,
    decreases tokens.len(),
{
    if tokens.len() > 0 {
        reveal(well_spelled);
        let token = tokens[0];
        let rest = tokens.drop_first();
        assert(well_spelled(token) && token.line == 1);
        assert forall|i: int| 0 <= i < rest.len() implies well_spelled(#[trigger] rest[i])
            && rest[i].line == 1 by {
            assert(rest[i] == tokens[i + 1]);
        }
        lemma_lex_well_spelled(rest);
        let head = token.lexeme + seq![' '];
        assert(head.take(token.lexeme.len() as int) =~= token.lexeme);
        lemma_lex_spelled(head, spell(rest), 1);
        assert(seq![token] + rest =~= tokens);
    }
}

/// Token fidelity: where a source lexes, the text that spells its tokens
/// lexes too, and to the same words.
pub proof fn lemma_token_fidelity(source: Seq<char>, line: nat)
    requires
        lex(source, line).error is None,
    ensures
        lex(spell(lex(source, line).tokens), 1).error is None,
        same_words(lex(spell(lex(source, line).tokens), 1).tokens, lex(source, line).tokens),
    decreases source.len(),
{
    if source.len() == 0 {
    } else {
        lemma_scan_len(source);
        match scan(source) {
            Scan::Token(kind, n) => {
                let rest = source.skip(n as int);
                let token = TokenView { kind, lexeme: source.take(n as int), line };
                let tokens = lex(source, line).tokens;
                assert(tokens == seq![token] + lex(rest, line).tokens);
                assert(tokens.drop_first() =~= lex(rest, line).tokens);
                assert(tokens[0] == token);
                lemma_token_fidelity(rest, line);
                let tail = spell(lex(rest, line).tokens);
                assert(spell(tokens) == token.lexeme + seq![' '] + tail);
                lemma_lex_spelled(source, tail, 1);
                let again = lex(spell(tokens), 1).tokens;
                assert(again == seq![TokenView { kind, lexeme: token.lexeme, line: 1 }] + lex(
                    tail,
                    1,
                ).tokens);
                assert forall|i: int| 0 <= i < again.len() implies (#[trigger] again[i]).kind
                    == tokens[i].kind && again[i].lexeme == tokens[i].lexeme by {
                    if i > 0 {
                        assert(again[i] == lex(tail, 1).tokens[i - 1]);
                        assert(tokens[i] == lex(rest, line).tokens[i - 1]);
                    }
                }
            },
            Scan::Blank => {
                lemma_token_fidelity(source.skip(1), line);
            },
            Scan::NewLine => {
                lemma_token_fidelity(source.skip(1), line + 1);
            },
            Scan::Malformed => {},
            Scan::Unexpected => {},
        }
    }
}

} // verus!
