//! End-to-end scenarios: each source is compiled to legalized machine
//! instructions, which a small simulator of the machine then runs.

use std::collections::HashMap;

use comp::asm_ast::{BinaryOp, CondCode, Instruction, Operand, Program, Register, UnaryOp};
use comp::code_gen;
use comp::irc_gen::IrcGenerator;
use comp::lexer::Lexer;
use comp::parser::{ParseError, Parser};
use comp::resolution::{ResolveError, Resolver};
use comp::token::TokenKind;
use comp::{compile, try_compile, Error, Stops, LONGEST_SOURCE};

fn build_before_legalization(source: &str) -> Vec<Instruction> {
    let mut lexer = Lexer::new(source);
    lexer.tokenize().expect("the source lexes");
    let mut ast = Parser::new(&lexer).parse().expect("the source parses");
    let mut resolver = Resolver::new(0);
    resolver.resolve_program(&mut ast).expect("the program is valid");
    let (irc, _) = IrcGenerator::gen_program(ast, resolver.counter);
    let mut machine = code_gen::gen_program(irc);
    code_gen::replace_pseudo(&mut machine);
    let Program::Function(function) = machine;
    function.instructions
}

fn build(source: &str) -> Result<Vec<Instruction>, Error> {
    let mut lexer = Lexer::new(source);
    lexer.tokenize()?;
    let mut parser = Parser::new(&lexer);
    let mut ast = parser.parse().map_err(Error::Parser)?;
    let mut resolver = Resolver::new(0);
    resolver.resolve_program(&mut ast)?;
    let (irc, _) = IrcGenerator::gen_program(ast, resolver.counter);
    let mut machine = code_gen::gen_program(irc);
    let frame = code_gen::replace_pseudo(&mut machine);
    code_gen::fix_instructions(&mut machine, frame);
    let Program::Function(function) = machine;
    Ok(function.instructions)
}

struct Machine {
    registers: HashMap<&'static str, i32>,
    stack: HashMap<usize, i32>,
    compared: (i32, i32),
}

fn register_name(register: &Register) -> &'static str {
    match register {
        Register::AX => "ax",
        Register::DX => "dx",
        Register::CX => "cx",
        Register::R10 => "r10",
        Register::R11 => "r11",
    }
}

impl Machine {
    fn read(&self, operand: &Operand) -> i32 {
        match operand {
            Operand::Imm(value) => *value,
            Operand::Register(register) => {
                *self.registers.get(register_name(register)).unwrap_or(&0)
            }
            Operand::Stack(offset) => *self.stack.get(offset).unwrap_or(&0),
            Operand::Pseudo(name) => panic!("pseudo-register {name} left in the program"),
        }
    }

    fn write(&mut self, operand: &Operand, value: i32) {
        match operand {
            Operand::Register(register) => {
                self.registers.insert(register_name(register), value);
            }
            Operand::Stack(offset) => {
                self.stack.insert(*offset, value);
            }
            other => panic!("cannot write to {other:?}"),
        }
    }

    fn holds(&self, cond_code: &CondCode) -> bool {
        let (left, right) = self.compared;
        match cond_code {
            CondCode::E => left == right,
            CondCode::NE => left != right,
            CondCode::L => left < right,
            CondCode::LE => left <= right,
            CondCode::G => left > right,
            CondCode::GE => left >= right,
        }
    }
}

fn simulate(instructions: &[Instruction]) -> i32 {
    let mut labels = HashMap::new();
    for (index, instruction) in instructions.iter().enumerate() {
        if let Instruction::Label(label) = instruction {
            assert!(labels.insert(label.clone(), index).is_none(), "label {label} twice");
        }
    }
    let mut machine =
        Machine { registers: HashMap::new(), stack: HashMap::new(), compared: (0, 0) };
    let mut pc = 0;
    let mut steps = 0;
    loop {
        steps += 1;
        assert!(steps < 1_000_000, "the program does not stop");
        let instruction = &instructions[pc];
        pc += 1;
        match instruction {
            Instruction::Mov { src, dst } => {
                let value = machine.read(src);
                machine.write(dst, value);
            }
            Instruction::Return => return machine.read(&Operand::Register(Register::AX)),
            Instruction::Unary { operator, operand } => {
                let value = machine.read(operand);
                let result = match operator {
                    UnaryOp::Neg => value.wrapping_neg(),
                    UnaryOp::Not => !value,
                };
                machine.write(operand, result);
            }
            Instruction::Binary { operator, operand1, operand2 } => {
                let source = machine.read(operand1);
                let target = machine.read(operand2);
                let result = match operator {
                    BinaryOp::Add => target.wrapping_add(source),
                    BinaryOp::Sub => target.wrapping_sub(source),
                    BinaryOp::Mult => target.wrapping_mul(source),
                    BinaryOp::And => target & source,
                    BinaryOp::Or => target | source,
                    BinaryOp::Xor => target ^ source,
                    BinaryOp::Shl => target.wrapping_shl(source as u32 & 31),
                    BinaryOp::Shr => target.wrapping_shr(source as u32 & 31),
                };
                machine.write(operand2, result);
            }
            Instruction::Cmp { operand1, operand2 } => {
                // `cmp a, b` compares b with a.
                machine.compared = (machine.read(operand2), machine.read(operand1));
            }
            Instruction::Jmp(label) => pc = labels[label],
            Instruction::JumpCC { cond_code, target } => {
                if machine.holds(cond_code) {
                    pc = labels[target];
                }
            }
            Instruction::SetCC { cond_code, operand } => {
                let bit = if machine.holds(cond_code) { 1 } else { 0 };
                let value = machine.read(operand);
                machine.write(operand, (value & !0xff) | bit);
            }
            Instruction::Label(_) => {}
            Instruction::Idiv(operand) => {
                let low = machine.read(&Operand::Register(Register::AX)) as u32 as u64;
                let high = machine.read(&Operand::Register(Register::DX)) as u32 as u64;
                let dividend = ((high << 32) | low) as i64;
                let divisor = machine.read(operand) as i64;
                machine.write(&Operand::Register(Register::AX), (dividend / divisor) as i32);
                machine.write(&Operand::Register(Register::DX), (dividend % divisor) as i32);
            }
            Instruction::Cdq => {
                let value = machine.read(&Operand::Register(Register::AX));
                machine.write(&Operand::Register(Register::DX), if value < 0 { -1 } else { 0 });
            }
            Instruction::AllocateStack(_) => {}
        }
    }
}

fn run(source: &str) -> i32 {
    simulate(&build(source).expect("the source compiles"))
}

#[test]
fn returns_a_constant() {
    assert_eq!(run("int main(void){ return 2; }"), 2);
}

#[test]
fn multiplication_binds_tighter_than_addition() {
    assert_eq!(run("int main(void){ return 1 + 2 * 3; }"), 7);
}

#[test]
fn compound_assignment_updates_the_variable() {
    assert_eq!(run("int main(void){ int a=5; a+=3; return a; }"), 8);
}

#[test]
fn an_if_takes_the_branch_that_the_condition_selects() {
    assert_eq!(run("int main(void){ int x=0; if (1) x=7; else x=9; return x; }"), 7);
    assert_eq!(run("int main(void){ int x=0; if (0) x=7; else x=9; return x; }"), 9);
}

#[test]
fn a_for_loop_sums_the_first_integers() {
    assert_eq!(
        run("int main(void){ int s=0; for(int i=0;i<5;i=i+1) s=s+i; return s; }"),
        10
    );
}

#[test]
fn the_comma_operator_is_a_parse_error() {
    let result = build("int main(void){ int a=0, b=0; return a || (b=1), b; }");
    match result {
        Err(Error::Parser(ParseError::UnexpectedToken { expected, got, line })) => {
            assert_eq!(expected, Some(TokenKind::Semicolon));
            assert_eq!(got, Some(TokenKind::Comma));
            assert_eq!(line, 1);
        }
        other => panic!("expected a parse error, got {other:?}"),
    }
}

#[test]
fn postfix_yields_the_old_value_and_prefix_the_new_one() {
    assert_eq!(run("int main(void){ int a=3; return a++ + ++a; }"), 8);
}

#[test]
fn a_shadowing_declaration_does_not_leak() {
    assert_eq!(run("int main(void){ int a=1; { int a=2; } return a; }"), 1);
}

#[test]
fn a_function_without_return_returns_zero() {
    assert_eq!(run("int main(void){ int a = 5; a = a + 1; }"), 0);
}

#[test]
fn relational_operators_compare_in_the_order_written() {
    assert_eq!(run("int main(void){ return 1 < 2; }"), 1);
    assert_eq!(run("int main(void){ return 2 < 1; }"), 0);
    assert_eq!(run("int main(void){ return 2 > 1; }"), 1);
    assert_eq!(run("int main(void){ return 1 > 2; }"), 0);
    assert_eq!(run("int main(void){ int a = 3; int b = 4; return a <= b; }"), 1);
    assert_eq!(run("int main(void){ int a = 3; int b = 4; return a >= b; }"), 0);
    assert_eq!(run("int main(void){ int a = 4; int b = 4; return (a == b) + (a != b) * 2; }"), 1);
}

#[test]
fn division_truncates_toward_zero() {
    assert_eq!(run("int main(void){ return 7 / 2; }"), 3);
    assert_eq!(run("int main(void){ return -7 / 2; }"), -3);
    assert_eq!(run("int main(void){ return 7 % 3; }"), 1);
    assert_eq!(run("int main(void){ return -7 % 3; }"), -1);
    assert_eq!(run("int main(void){ int a = 20; int b = 6; return a / b * 10 + a % b; }"), 32);
}

#[test]
fn arithmetic_wraps_around_in_32_bits() {
    assert_eq!(run("int main(void){ int a = 2147483647; return a + 1; }"), -2147483648);
    assert_eq!(run("int main(void){ int a = 65536; return a * a; }"), 0);
}

#[test]
fn bitwise_operators_and_shifts() {
    assert_eq!(run("int main(void){ return (12 & 10) + (12 | 10) * 100 + (12 ^ 10) * 10000; }"), 61408);
    assert_eq!(run("int main(void){ int a = 3; int n = 4; return a << n; }"), 48);
    assert_eq!(run("int main(void){ int a = -16; int n = 2; return a >> n; }"), -4);
    assert_eq!(run("int main(void){ return 1 << 3; }"), 8);
    assert_eq!(run("int main(void){ return ~5; }"), -6);
    assert_eq!(run("int main(void){ return -(-5); }"), 5);
    assert_eq!(run("int main(void){ return !5 + !0 * 2; }"), 2);
}

#[test]
fn logical_operators_short_circuit() {
    assert_eq!(run("int main(void){ int a = 0; int b = 0; a && (b = 1); return b; }"), 0);
    assert_eq!(run("int main(void){ int a = 1; int b = 0; a && (b = 1); return b; }"), 1);
    assert_eq!(run("int main(void){ int a = 1; int b = 0; a || (b = 1); return b; }"), 0);
    assert_eq!(run("int main(void){ int a = 0; int b = 0; a || (b = 1); return b; }"), 1);
    assert_eq!(run("int main(void){ return (1 && 2) + (0 || 0) * 2 + (0 || 3) * 4; }"), 5);
}

#[test]
fn the_conditional_evaluates_one_branch() {
    assert_eq!(run("int main(void){ int a = 0; int b = 0; 1 ? (a = 1) : (b = 1); return a * 10 + b; }"), 10);
    assert_eq!(run("int main(void){ int a = 0; int b = 0; 0 ? (a = 1) : (b = 1); return a * 10 + b; }"), 1);
    assert_eq!(run("int main(void){ return 0 ? 1 : 0 ? 2 : 3; }"), 3);
}

#[test]
fn assignment_associates_to_the_right() {
    assert_eq!(run("int main(void){ int a; int b; a = b = 4; return a + b; }"), 8);
    assert_eq!(run("int main(void){ int a = 10; int b = 3; a -= b += 2; return a * 10 + b; }"), 55);
}

#[test]
fn every_compound_assignment() {
    assert_eq!(run("int main(void){ int a = 7; a -= 2; a *= 3; a /= 2; a %= 5; return a; }"), 2);
    assert_eq!(run("int main(void){ int a = 12; a &= 10; a |= 1; a ^= 3; return a; }"), 10);
    assert_eq!(run("int main(void){ int a = 3; a <<= 4; a >>= 1; return a; }"), 24);
}

#[test]
fn while_and_do_loops_with_break_and_continue() {
    assert_eq!(
        run("int main(void){ int i = 0; int s = 0; while (i < 10) { i = i + 1; if (i % 2) continue; s = s + i; } return s; }"),
        30
    );
    assert_eq!(
        run("int main(void){ int i = 0; while (1) { i = i + 1; if (i == 7) break; } return i; }"),
        7
    );
    assert_eq!(
        run("int main(void){ int i = 0; do { i = i + 3; } while (i < 10); return i; }"),
        12
    );
    assert_eq!(
        run("int main(void){ int i = 0; int n = 0; do { i = i + 1; if (i < 5) continue; n = n + 1; } while (i < 8); return n; }"),
        4
    );
    assert_eq!(
        run("int main(void){ int s = 0; for (int i = 0; i < 10; i++) { if (i == 3) continue; if (i == 6) break; s += i; } return s; }"),
        12
    );
}

#[test]
fn nested_loops_break_out_of_the_innermost() {
    assert_eq!(
        run("int main(void){ int n = 0; for (int i = 0; i < 3; i++) for (int j = 0; j < 10; j++) { if (j == 2) break; n++; } return n; }"),
        6
    );
}

#[test]
fn a_for_loop_may_leave_out_its_parts() {
    assert_eq!(run("int main(void){ int i = 0; for (;;) { i++; if (i > 4) break; } return i; }"), 5);
    assert_eq!(run("int main(void){ int i; for (i = 0; i < 3;) i++; return i; }"), 3);
}

#[test]
fn goto_jumps_to_its_label() {
    assert_eq!(
        run("int main(void){ int a = 1; goto end; a = 2; end: return a; }"),
        1
    );
    assert_eq!(
        run("int main(void){ int i = 0; again: i++; if (i < 5) goto again; return i; }"),
        5
    );
}

#[test]
fn a_for_declaration_is_scoped_to_the_loop() {
    assert_eq!(
        run("int main(void){ int i = 100; for (int i = 0; i < 3; i++) { int i = 50; } return i; }"),
        100
    );
}

#[test]
fn semantic_errors_stop_the_compilation() {
    let cases = [
        ("int main(void){ int a; int a; return 0; }", ResolveError::DuplicateDeclaration),
        ("int main(void){ return a; }", ResolveError::UndeclaredVariable),
        ("int main(void){ { int a; } return a; }", ResolveError::UndeclaredVariable),
        ("int main(void){ int a; 1 = a; return 0; }", ResolveError::InvalidLValue),
        ("int main(void){ int a; a + 1 = 2; return 0; }", ResolveError::InvalidLValue),
        ("int main(void){ int a; (a + 1)++; return 0; }", ResolveError::InvalidLValue),
        ("int main(void){ ++1; return 0; }", ResolveError::InvalidLValue),
        ("int main(void){ int a; a += 1 = 2; return 0; }", ResolveError::InvalidLValue),
        ("int main(void){ goto nowhere; return 0; }", ResolveError::UndefinedLabel),
        ("int main(void){ a: ; a: return 0; }", ResolveError::DuplicateLabel),
        ("int main(void){ break; }", ResolveError::InvalidBreakOrContinue),
        ("int main(void){ if (1) continue; return 0; }", ResolveError::InvalidBreakOrContinue),
    ];
    for (source, expected) in cases {
        match build(source) {
            Err(Error::Resolver(error)) => assert_eq!(error, expected, "{source}"),
            other => panic!("expected {expected:?} for {source}, got {other:?}"),
        }
    }
}

#[test]
fn compile_stops_where_it_is_told() {
    let source = "int main(void){ return 2; }";
    let all = Stops { lex: false, parse: false, irc: false, code_gen: false };
    assert!(compile(source, &all).unwrap().is_some());
    assert!(compile(source, &Stops { lex: true, ..all }).unwrap().is_none());
    assert!(compile(source, &Stops { parse: true, ..all }).unwrap().is_none());
    assert!(compile(source, &Stops { irc: true, ..all }).unwrap().is_none());
    assert!(compile(source, &Stops { code_gen: true, ..all }).unwrap().is_none());
    // A source that lexes but does not parse passes the first stop only.
    let broken = "int main(void){ return }";
    assert!(compile(broken, &Stops { lex: true, ..all }).unwrap().is_none());
    assert!(matches!(compile(broken, &Stops { parse: true, ..all }), Err(Error::Parser(_))));
    // A source that parses but names an unknown variable passes the second.
    let unbound = "int main(void){ return a; }";
    assert!(compile(unbound, &Stops { parse: true, ..all }).unwrap().is_none());
    assert!(matches!(
        compile(unbound, &Stops { irc: true, ..all }),
        Err(Error::Resolver(ResolveError::UndeclaredVariable))
    ));
}

#[test]
fn compile_emits_the_assembly_of_the_smallest_program() {
    let all = Stops { lex: false, parse: false, irc: false, code_gen: false };
    let assembly = compile("int main(void){ return 2; }", &all).unwrap().unwrap();
    let expected = "\n    .global main\nmain:\n    pushq    %rbp\n    movq    %rsp, %rbp\n    subq    $0, %rsp\n    movl    $2, %eax\n    movq    %rbp, %rsp\n    popq    %rbp\n    ret\n    movl    $0, %eax\n    movq    %rbp, %rsp\n    popq    %rbp\n    ret\n\n.section .note.GNU-stack,\"\",@progbits\n";
    assert_eq!(assembly, expected);
}

#[test]
fn errors_have_messages() {
    assert_eq!(Error::IO("no such file".to_string()).message(), "IO: no such file");
    assert_eq!(Error::Preprocess("exit 1".to_string()).message(), "PreprocessFailed: exit 1");
    assert_eq!(Error::Assemble("exit 2".to_string()).message(), "AssembleFailed: exit 2");
    assert_eq!(
        Error::Lexer { line: 12 }.message(),
        "LexError: line 12: a number runs into an identifier"
    );
    assert_eq!(
        Error::InvalidToken { character: '\u{e9}', line: 3 }.message(),
        "LexError: line 3: unexpected character '\u{e9}'"
    );
    assert_eq!(
        Error::Parser(ParseError::UnexpectedToken {
            expected: Some(TokenKind::Semicolon),
            got: Some(TokenKind::RightBrace),
            line: 1048576,
        })
        .message(),
        "ParseError: line 1048576: expected Semicolon, got RightBrace"
    );
    assert_eq!(
        ParseError::UnexpectedToken { expected: None, got: Some(TokenKind::Int), line: 2 }
            .message(),
        "ParseError: line 2: expected end of input, got Int"
    );
    assert_eq!(
        ParseError::UnexpectedToken { expected: Some(TokenKind::While), got: None, line: 0 }
            .message(),
        "ParseError: line 0: expected While, got end of input"
    );
    assert_eq!(ParseError::InvalidExpression { line: 5 }.message(), "InvalidExpression: line 5");
    assert_eq!(ParseError::InvalidFactor { line: 60 }.message(), "InvalidFactor: line 60");
    for (error, name) in [
        (ResolveError::DuplicateDeclaration, "DuplicateDeclaration"),
        (ResolveError::UndeclaredVariable, "UndeclaredVariable"),
        (ResolveError::InvalidLValue, "InvalidLValue"),
        (ResolveError::UndefinedLabel, "UndefinedLabel"),
        (ResolveError::DuplicateLabel, "DuplicateLabel"),
        (ResolveError::InvalidBreakOrContinue, "InvalidBreakOrContinue"),
    ] {
        assert_eq!(error.name(), name);
        assert_eq!(Error::Resolver(error).message(), name);
    }
}

#[test]
fn every_kind_of_token_has_its_name() {
    let source = "( ) { } ; , ~ - -= -- + ++ += * *= / /= % %= & &= | |= ^ ^= << <<= >> >>= ! = \
                  && || == != < > <= >= ? : a 1 int void return if else goto break continue \
                  while do for";
    let names = "LeftParen RightParen LeftBrace RightBrace Semicolon Comma Tilde Hyphen \
                 HyphenEqual DoubleHyphen Plus DoublePlus PlusEqual Asterisk AsteriskEqual \
                 ForwardSlash ForwardSlashEqual Percent PercentEqual Ampersand AmpersandEqual \
                 Bar BarEqual Caret CaretEqual LeftShift LeftShiftEqual RightShift \
                 RightShiftEqual Bang Equal DoubleAmpersand DoubleBar DoubleEqual BangEqual Less \
                 Greater LessEqual GreaterEqual Question Colon Identifier Constant Int Void \
                 Return If Else Goto Break Continue While Do For";
    let mut lexer = Lexer::new(source);
    lexer.tokenize().unwrap();
    let found: Vec<&str> = lexer.tokens.iter().map(|token| token.kind.name()).collect();
    let expected: Vec<&str> = names.split_whitespace().collect();
    assert_eq!(found, expected);
    for token in &lexer.tokens {
        assert_eq!(format!("{:?}", token.kind), token.kind.name());
    }
}

#[test]
fn try_compile_compiles_what_is_not_too_long() {
    let all = Stops { lex: false, parse: false, irc: false, code_gen: false };
    let source = "int main(void){ return 1 + 2 * 3; }";
    assert!(source.len() <= LONGEST_SOURCE);
    assert_eq!(LONGEST_SOURCE, usize::MAX / 256);
    assert_eq!(try_compile(source, &all), Some(compile(source, &all)));
    assert_eq!(
        try_compile("int main(void){ return @; }", &all),
        Some(Err(Error::InvalidToken { character: '@', line: 1 }))
    );
    assert_eq!(try_compile(source, &Stops { lex: true, ..all }), Some(Ok(None)));
}

// A reference interpreter of the syntax tree, with the arithmetic of a
// 32-bit machine: results wrap around, division truncates toward zero, and
// a shift count is taken modulo 32.

use comp::ast::{
    AssignmentOp, BinaryOp as SourceBinary, Block, BlockItem, Decleration, Expr, ForInit, Stmt,
    UnaryOp as SourceUnary,
};

enum Flow {
    Next,
    Break,
    Continue,
    Return(i32),
}

struct Interpreter {
    scopes: Vec<HashMap<String, i32>>,
}

fn apply(operator: SourceBinary, left: i32, right: i32) -> i32 {
    match operator {
        SourceBinary::Add => left.wrapping_add(right),
        SourceBinary::Subtract => left.wrapping_sub(right),
        SourceBinary::Multiply => left.wrapping_mul(right),
        SourceBinary::Divide => left.wrapping_div(right),
        SourceBinary::Remainder => left.wrapping_rem(right),
        SourceBinary::LeftShift => left.wrapping_shl(right as u32 & 31),
        SourceBinary::RightShift => left.wrapping_shr(right as u32 & 31),
        SourceBinary::BitAnd => left & right,
        SourceBinary::Xor => left ^ right,
        SourceBinary::BitOr => left | right,
        SourceBinary::Equal => (left == right) as i32,
        SourceBinary::NotEqual => (left != right) as i32,
        SourceBinary::LessThan => (left < right) as i32,
        SourceBinary::LessOrEqual => (left <= right) as i32,
        SourceBinary::GreaterThan => (left > right) as i32,
        SourceBinary::GreaterOrEqual => (left >= right) as i32,
        SourceBinary::And | SourceBinary::Or => unreachable!(),
    }
}

fn compound(operator: AssignmentOp) -> Option<SourceBinary> {
    match operator {
        AssignmentOp::Equal => None,
        AssignmentOp::PlusEqual => Some(SourceBinary::Add),
        AssignmentOp::SubtractEqual => Some(SourceBinary::Subtract),
        AssignmentOp::MultipleEqual => Some(SourceBinary::Multiply),
        AssignmentOp::DivideEqual => Some(SourceBinary::Divide),
        AssignmentOp::RemainderEqual => Some(SourceBinary::Remainder),
        AssignmentOp::BitAndEqual => Some(SourceBinary::BitAnd),
        AssignmentOp::BitOrEqual => Some(SourceBinary::BitOr),
        AssignmentOp::XorEqual => Some(SourceBinary::Xor),
        AssignmentOp::RightShiftEqual => Some(SourceBinary::RightShift),
        AssignmentOp::LeftShiftEqual => Some(SourceBinary::LeftShift),
    }
}

impl Interpreter {
    fn slot(&mut self, name: &str) -> &mut i32 {
        self.scopes
            .iter_mut()
            .rev()
            .find_map(|scope| scope.get_mut(name))
            .unwrap_or_else(|| panic!("{name} is not declared"))
    }

    fn target<'a>(&mut self, expr: &'a Expr) -> &'a str {
        match expr {
            Expr::Var(name) => name,
            other => panic!("{other:?} is no variable"),
        }
    }

    fn eval(&mut self, expr: &Expr) -> i32 {
        match expr {
            Expr::Constant(value) => *value,
            Expr::Var(name) => *self.slot(name),
            Expr::Unary { operator, right } => match operator {
                SourceUnary::Complement => !self.eval(right),
                SourceUnary::Negate => self.eval(right).wrapping_neg(),
                SourceUnary::Not => (self.eval(right) == 0) as i32,
                SourceUnary::PrefixInc | SourceUnary::PrefixDec => {
                    let name = self.target(right);
                    let slot = self.slot(name);
                    *slot = if matches!(operator, SourceUnary::PrefixInc) {
                        slot.wrapping_add(1)
                    } else {
                        slot.wrapping_sub(1)
                    };
                    *slot
                }
                SourceUnary::PostFixInc | SourceUnary::PostFixDec => {
                    let name = self.target(right);
                    let slot = self.slot(name);
                    let before = *slot;
                    *slot = if matches!(operator, SourceUnary::PostFixInc) {
                        slot.wrapping_add(1)
                    } else {
                        slot.wrapping_sub(1)
                    };
                    before
                }
            },
            Expr::Binary { operator: SourceBinary::And, left, right } => {
                (self.eval(left) != 0 && self.eval(right) != 0) as i32
            }
            Expr::Binary { operator: SourceBinary::Or, left, right } => {
                (self.eval(left) != 0 || self.eval(right) != 0) as i32
            }
            Expr::Binary { operator, left, right } => {
                let left = self.eval(left);
                let right = self.eval(right);
                apply(*operator, left, right)
            }
            Expr::Assignment { operator, left, right } => {
                let name = self.target(left);
                let value = self.eval(right);
                let slot = self.slot(name);
                *slot = match compound(*operator) {
                    Some(operator) => apply(operator, *slot, value),
                    None => value,
                };
                *slot
            }
            Expr::Conditional { condition, then_branch, else_branch } => {
                if self.eval(condition) != 0 {
                    self.eval(then_branch)
                } else {
                    self.eval(else_branch)
                }
            }
        }
    }

    fn declare(&mut self, decleration: &Decleration) {
        let Decleration::Decleration { name, init } = decleration;
        self.scopes.last_mut().unwrap().insert(name.clone(), 0);
        if let Some(init) = init {
            let value = self.eval(init);
            *self.slot(name) = value;
        }
    }

    fn block(&mut self, block: &Block) -> Flow {
        self.scopes.push(HashMap::new());
        let mut flow = Flow::Next;
        for item in &block.items {
            match item {
                BlockItem::Decleration(decleration) => self.declare(decleration),
                BlockItem::Statement(stmt) => {
                    flow = self.exec(stmt);
                    if !matches!(flow, Flow::Next) {
                        break;
                    }
                }
            }
        }
        self.scopes.pop();
        flow
    }

    fn exec(&mut self, stmt: &Stmt) -> Flow {
        match stmt {
            Stmt::Return(expr) => Flow::Return(self.eval(expr)),
            Stmt::Expression(expr) => {
                self.eval(expr);
                Flow::Next
            }
            Stmt::If { condition, then_branch, else_branch } => {
                if self.eval(condition) != 0 {
                    self.exec(then_branch)
                } else if let Some(else_branch) = else_branch {
                    self.exec(else_branch)
                } else {
                    Flow::Next
                }
            }
            Stmt::Null => Flow::Next,
            Stmt::Break { .. } => Flow::Break,
            Stmt::Continue { .. } => Flow::Continue,
            Stmt::While { condition, body, .. } => {
                while self.eval(condition) != 0 {
                    match self.exec(body) {
                        Flow::Break => break,
                        Flow::Return(value) => return Flow::Return(value),
                        Flow::Next | Flow::Continue => {}
                    }
                }
                Flow::Next
            }
            Stmt::DoWhile { body, condition, .. } => {
                loop {
                    match self.exec(body) {
                        Flow::Break => break,
                        Flow::Return(value) => return Flow::Return(value),
                        Flow::Next | Flow::Continue => {}
                    }
                    if self.eval(condition) == 0 {
                        break;
                    }
                }
                Flow::Next
            }
            Stmt::For { init, condition, post, body, .. } => {
                self.scopes.push(HashMap::new());
                match init {
                    ForInit::InitDecl(decleration) => self.declare(decleration),
                    ForInit::InitExp(Some(expr)) => {
                        self.eval(expr);
                    }
                    ForInit::InitExp(None) => {}
                }
                let mut flow = Flow::Next;
                while condition.as_ref().map_or(true, |condition| self.eval(condition) != 0) {
                    match self.exec(body) {
                        Flow::Break => break,
                        Flow::Return(value) => {
                            flow = Flow::Return(value);
                            break;
                        }
                        Flow::Next | Flow::Continue => {}
                    }
                    if let Some(post) = post {
                        self.eval(post);
                    }
                }
                self.scopes.pop();
                flow
            }
            Stmt::Compound(block) => self.block(block),
            Stmt::Goto(_) | Stmt::Label(_, _) => panic!("the interpreter knows no goto"),
        }
    }
}

fn interpret(source: &str) -> i32 {
    let mut lexer = Lexer::new(source);
    lexer.tokenize().expect("the source lexes");
    let mut parser = Parser::new(&lexer);
    let comp::ast::Program::Function(function) = parser.parse().expect("the source parses");
    let mut interpreter = Interpreter { scopes: Vec::new() };
    match interpreter.block(&function.body) {
        Flow::Return(value) => value,
        _ => 0,
    }
}

#[test]
fn the_compiled_program_returns_what_the_source_means() {
    let corpus = [
        "int main(void){ return 2; }",
        "int main(void){ return 1 + 2 * 3; }",
        "int main(void){ int a=5; a+=3; return a; }",
        "int main(void){ int x=0; if (1) x=7; else x=9; return x; }",
        "int main(void){ int s=0; for(int i=0;i<5;i=i+1) s=s+i; return s; }",
        "int main(void){ int a=3; return a++ + ++a; }",
        "int main(void){ int a=1; { int a=2; } return a; }",
        "int main(void){ }",
        "int main(void){ int a = 10; int b = 3; return a / b * 100 + a % b * 10 + (a - b); }",
        "int main(void){ int a = -17; int b = 5; return a / b * 100 + a % b; }",
        "int main(void){ int a = 7; return -a + ~a * 2 + !a + !!a; }",
        "int main(void){ int a = 6; int b = 3; return (a & b) | (a ^ b) << 2 | a >> 1; }",
        "int main(void){ int a = -64; int n = 3; return (a >> n) + (a << n); }",
        "int main(void){ int a = 1; int n = 33; return a << n; }",
        "int main(void){ int a = 5; int b = 0; return (a && b) + (a || b) * 2 + (b && a++) * 4 + a; }",
        "int main(void){ int a = 0; int b = 0; (a = 1) || (b = 2); (a = 0) && (b = 3); return a * 10 + b; }",
        "int main(void){ int a = 4; return a > 3 ? a < 5 ? 11 : 12 : 13; }",
        "int main(void){ int a = 1; int b = 2; int c = 3; a = b = c += 4; return a * 100 + b * 10 + c; }",
        "int main(void){ int a = 50; a -= 8; a *= 3; a /= 4; a %= 20; a <<= 3; a >>= 1; a &= 60; a |= 3; a ^= 5; return a; }",
        "int main(void){ int a = 2; int b = a++ * a-- + --a - ++a; return a * 1000 + b; }",
        "int main(void){ int i = 0; int s = 0; while (i < 20) { i++; if (i % 3 == 0) continue; if (i > 15) break; s += i; } return s; }",
        "int main(void){ int i = 10; int s = 0; do { s = s * 2 + i; i -= 3; } while (i > 0); return s; }",
        "int main(void){ int s = 0; for (int i = 0; i < 6; i++) for (int j = i; j < 6; j++) { if ((i + j) % 4 == 0) continue; s += i * j; } return s; }",
        "int main(void){ int n = 27; int steps = 0; while (n != 1) { if (n % 2) n = 3 * n + 1; else n = n / 2; steps++; } return steps; }",
        "int main(void){ int a = 0; int b = 1; for (int i = 0; i < 40; i++) { int t = a + b; a = b; b = t; } return a; }",
        "int main(void){ int x = 1; for (int i = 0; i < 40; i++) x = x * 3 + 1; return x; }",
        "int main(void){ int a = 3; if (a < 2) return 1; else if (a < 4) { int a = 9; return a; } return 0; }",
        "int main(void){ int a = 2147483647; a++; return a < 0; }",
        "int main(void){ int i = 0; for (;;) { i += 2; if (i >= 9) break; } return i; }",
        "int main(void){ int r = 0; for (int i = 0; i < 3; i++) { int i = 7; r += i; } return r; }",
        "int main(void){ int a = 5; int b = 7; return (a < b) + (a <= b) * 2 + (a > b) * 4 + (a >= b) * 8 + (a == b) * 16 + (a != b) * 32; }",
        "int main(void){ int a = 1; { int b = a + 1; { int a = b * 2; b = a + b; } a = a + b; } return a; }",
    ];
    for source in corpus {
        assert_eq!(run(source), interpret(source), "{source}");
    }
}

#[test]
fn legalization_keeps_what_a_program_computes() {
    let corpus = [
        "int main(void){ int a = 6; int b = 7; return a * b + a / b - a % b; }",
        "int main(void){ int a = 5; int n = 3; int c = a << n; return (c >> 1) + (a < n) + (a >= n) * 2; }",
        "int main(void){ int a = 12; int b = 10; a &= b; b |= a; a ^= b; return a + b * 16; }",
        "int main(void){ int a = -9; int b = 4; int c = a; c = b; return a / 2 + c * b - (a == c); }",
        "int main(void){ int s = 0; for (int i = 1; i <= 10; i++) s += i * i; return s; }",
    ];
    for source in corpus {
        let before = build_before_legalization(source);
        let after = build(source).unwrap();
        assert!(after.len() > before.len());
        assert_eq!(simulate(&before), simulate(&after), "{source}");
    }
}
