//! A small compiler for a subset of C that targets x86-64 System V assembly.
//!
//! The pipeline is a chain of passes, each with a mathematical model of what
//! it computes: lexing, parsing, variable and label resolution, lowering to a
//! three-address code, instruction selection, stack-slot assignment,
//! instruction legalization and emission of AT&T assembly text.

use vstd::prelude::*;
use vstd::string::*;
use crate::ast::items_size;
use crate::code_emission::{emit_program, program_text};
use crate::code_gen::{
    assign_program, fix_instructions, fix_program, frame_size, gen_program, pseudo_names,
    replace_pseudo, select_program,
};
use crate::grammar::parse_program;
use crate::irc_gen::{IrcGenerator, items_names, lower_program};
use crate::lexer::{Lexer, lex, tokens_view};
use crate::limits::{lemma_frame_bound, lemma_items_counts, lemma_items_names};
use crate::parser::{ParseError, Parser, parse_error_text};
use crate::resolution::{
    ResolveError, Resolver, analysis_names, analyze_program, resolve_error_name,
};
use crate::text::{decimal, push_decimal};

pub mod asm_ast;
pub mod ast;
pub mod code_emission;
pub mod code_gen;
pub mod grammar;
pub mod image;
pub mod irc;
pub mod irc_gen;
pub mod label_resolution;
pub mod lexer;
pub mod limits;
pub mod machine;
pub mod names;
pub mod parser;
pub mod printer;
pub mod resolution;
pub mod spelling;
pub mod text;
pub mod token;
pub mod var_resolution;

verus! {

/// Why a compilation stopped.
#[derive(Debug, Clone, PartialEq, Eq)]
pub enum Error {
    /// A file could not be read or written.
    IO(String),
    /// The preprocessor failed.
    Preprocess(String),
    /// The assembler or the linker failed.
    Assemble(String),
    /// A number on this line runs into an identifier.
    Lexer { line: usize },
    /// No token starts with this character, found on this line.
    InvalidToken { character: char, line: usize },
    /// The tokens are not a program.
    Parser(ParseError),
    /// The program breaks a rule on variables, labels or loops.
    Resolver(ResolveError),
}

/// The message of an error: the kind of the error, and what is known of
/// it.
pub open spec fn error_text(error: Error) -> Seq<char> {
    match error {
        Error::IO(reason) => "IO: "@ + reason@,
        Error::Preprocess(reason) => "PreprocessFailed: "@ + reason@,
        Error::Assemble(reason) => "AssembleFailed: "@ + reason@,
        Error::Lexer { line } => "LexError: line "@ + decimal(line as nat)
            + ": a number runs into an identifier"@,
        Error::InvalidToken { character, line } => ("LexError: line "@ + decimal(line as nat)
            + ": unexpected character '"@).push(character) + "'"@,
        Error::Parser(error) => parse_error_text(error),
        Error::Resolver(error) => resolve_error_name(error),
    }
}

impl Error {
    /// The message of this error.
    pub fn message(&self) -> (text: String)
        ensures
            text@ == error_text(*self),
    {
        match self {
            Error::IO(reason) => {
                let mut text = String::from_str("IO: ");
                text.append(reason.as_str());
                text
            },
            Error::Preprocess(reason) => {
                let mut text = String::from_str("PreprocessFailed: ");
                text.append(reason.as_str());
                text
            },
            Error::Assemble(reason) => {
                let mut text = String::from_str("AssembleFailed: ");
                text.append(reason.as_str());
                text
            },
            Error::Lexer { line } => {
                let mut text = String::from_str("LexError: line ");
                push_decimal(&mut text, *line as u64);
                text.append(": a number runs into an identifier");
                text
            },
            Error::InvalidToken { character, line } => {
                let mut text = String::from_str("LexError: line ");
                push_decimal(&mut text, *line as u64);
                text.append(": unexpected character '");
                text.push(*character);
                text.append("'");
                text
            },
            Error::Parser(error) => error.message(),
            Error::Resolver(error) => String::from_str(error.name()),
        }
    }
}

impl From<ParseError> for Error {
    fn from(parser_error: ParseError) -> (error: Self) {
        Self::Parser(parser_error)
    }
}

impl vstd::std_specs::convert::FromSpecImpl<ParseError> for Error {
    open spec fn obeys_from_spec() -> bool {
        true
    }

    open spec fn from_spec(parser_error: ParseError) -> Self {
        Self::Parser(parser_error)
    }
}

/// The passes after which a compilation may stop without producing
/// assembly.
#[derive(Debug, Clone, Copy, PartialEq, Eq, Structural)]
pub struct Stops {
    /// Stop after lexing.
    pub lex: bool,
    /// Stop after parsing.
    pub parse: bool,
    /// Stop after lowering to the three-address code.
    pub irc: bool,
    /// Stop after the machine instructions are legalized.
    pub code_gen: bool,
}

/// A length up to which every source is within the limits of the machine:
/// a source has no more tokens than characters, its syntax tree no more
/// nodes than tokens, and what the passes mint and write for a node is
/// bounded.
pub const LONGEST_SOURCE: usize = usize::MAX / 256;

/// Whether the names that the passes mint of a source, and the frame of
/// the function, can be counted in a machine word, as far as the passes
/// run before the compilation stops.
pub open spec fn within_limits(source: Seq<char>, stops: Stops) -> bool {
    let lexed = lex(source, 1);
    lexed.error is None && !stops.lex ==> match parse_program(lexed.tokens, 0) {
        Err(_) => true,
        Ok(program) => !stops.parse ==> analysis_names(program) <= usize::MAX
            && match analyze_program(program, 0) {
            Err(_) => true,
            Ok(analyzed) => {
                let machine = select_program(lower_program(analyzed, analysis_names(program)));
                analysis_names(program) + items_names(analyzed.body, 0) <= usize::MAX && (
                !stops.irc ==> frame_size(pseudo_names(machine).len()) <= usize::MAX)
            },
        },
    }
}

/// What the compilation of a source yields: the text of the assembly file;
/// nothing, where it is told to stop after an earlier pass that succeeds;
/// or the error of the first pass that fails.
pub open spec fn compile_source(source: Seq<char>, stops: Stops) -> Result<
    Option<Seq<char>>,
    Error,
> {
    let lexed = lex(source, 1);
    match lexed.error {
        Some(error) => Err(error),
        None => {
            if stops.lex {
                Ok(None)
            } else {
                match parse_program(lexed.tokens, 0) {
                    Err(error) => Err(Error::Parser(error)),
                    Ok(program) => {
                        if stops.parse {
                            Ok(None)
                        } else {
                            match analyze_program(program, 0) {
                                Err(error) => Err(Error::Resolver(error)),
                                Ok(analyzed) => {
                                    if stops.irc {
                                        Ok(None)
                                    } else {
                                        let machine = select_program(
                                            lower_program(analyzed, analysis_names(program)),
                                        );
                                        let frame = frame_size(pseudo_names(machine).len());
                                        if stops.code_gen {
                                            Ok(None)
                                        } else {
                                            Ok(
                                                Some(
                                                    program_text(
                                                        fix_program(
                                                            assign_program(machine),
                                                            frame,
                                                        ),
                                                    ),
                                                ),
                                            )
                                        }
                                    }
                                },
                            }
                        }
                    },
                }
            }
        },
    }
}

/// Compiles a source text to the text of an assembly file, pass by pass,
/// and stops after the first pass that `stops` names.
pub fn compile(source: &str, stops: &Stops) -> (result: Result<Option<String>, Error>)
    requires
        source@.len() <= LONGEST_SOURCE || within_limits(source@, *stops),
    ensures
        match compile_source(source@, *stops) {
            Ok(Some(assembly)) => result is Ok && result->Ok_0 is Some && result->Ok_0->0@
                == assembly,
            Ok(None) => result is Ok && result->Ok_0 is None,
            Err(error) => result == Err::<Option<String>, Error>(error),
        },
{
    let mut lexer = Lexer::new(source);
    assert(tokens_view(lexer.tokens@) =~= Seq::empty());
    lexer.tokenize()?;
    assert(tokens_view(lexer.tokens@) =~= lex(source@, 1).tokens);
    if stops.lex {
        return Ok(None);
    }
    let mut parser = Parser::new(&lexer);
    let mut ast = match parser.parse() {
        Ok(ast) => ast,
        Err(error) => {
            return Err(Error::Parser(error));
        },
    };
    if stops.parse {
        return Ok(None);
    }
    let ghost parsed = ast@;
    let ghost size = items_size(parsed.body, 0);
    proof {
        // The tree has no more nodes than the source has characters.
        assert(source@.len() <= LONGEST_SOURCE ==> size <= LONGEST_SOURCE);
        lemma_items_counts(parsed.body, 0);
    }
    let mut resolver = Resolver::new(0);
    resolver.resolve_program(&mut ast)?;
    proof {
        lemma_items_names(ast@.body, 0);
        lemma_frame_bound(ast@, resolver.counter as nat);
    }
    let (irc, _counter) = IrcGenerator::gen_program(ast, resolver.counter);
    if stops.irc {
        return Ok(None);
    }
    let mut asm_program = gen_program(irc);
    let stack_allocation = replace_pseudo(&mut asm_program);
    fix_instructions(&mut asm_program, stack_allocation);
    if stops.code_gen {
        return Ok(None);
    }
    Ok(Some(emit_program(asm_program)))
}

/// Compiles a source text as [`compile`] does, where the source is no
/// longer than [`LONGEST_SOURCE`]; a longer source is not compiled.
pub fn try_compile(source: &str, stops: &Stops) -> (result: Option<
    Result<Option<String>, Error>,
>)
    ensures
        result is Some == (source@.len() <= LONGEST_SOURCE),
        result is Some ==> match compile_source(source@, *stops) {
            Ok(Some(assembly)) => result->0 is Ok && result->0->Ok_0 is Some
                && result->0->Ok_0->0@ == assembly,
            Ok(None) => result->0 is Ok && result->0->Ok_0 is None,
            Err(error) => result->0 == Err::<Option<String>, Error>(error),
        },
{
    if source.unicode_len() <= LONGEST_SOURCE {
        Some(compile(source, stops))
    } else {
        None
    }
}

} // verus!
