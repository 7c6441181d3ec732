use comp::irc::{BinaryOp, Instruction, Program, UnaryOp, Value};
use comp::irc_gen::IrcGenerator;
use comp::lexer::Lexer;
use comp::parser::Parser;
use comp::resolution::Resolver;

fn lower(body: &str) -> (Vec<Instruction>, usize) {
    let source = format!("int main(void) {{ {body} }}");
    let mut lexer = Lexer::new(&source);
    lexer.tokenize().expect("the source lexes");
    let mut parser = Parser::new(&lexer);
    let mut program = parser.parse().expect("the source parses");
    let mut resolver = Resolver::new(0);
    resolver.resolve_program(&mut program).expect("the program is valid");
    let (lowered, counter) = IrcGenerator::gen_program(program, resolver.counter);
    let Program::Function(function) = lowered;
    assert_eq!(function.name, "main");
    let mut instructions = function.instructions;
    assert_eq!(instructions.pop(), Some(Instruction::Ret(Value::Constant(0))));
    (instructions, counter)
}

fn name(text: &str) -> String {
    text.to_string()
}

fn var(text: &str) -> Value {
    Value::Var(text.to_string())
}

fn copy(src: Value, dst: &str) -> Instruction {
    Instruction::Copy { src, dst: name(dst) }
}

fn binary(operator: BinaryOp, src1: Value, src2: Value, dst: &str) -> Instruction {
    Instruction::Binary { operator, src1, src2, dst: name(dst) }
}

fn label(text: &str) -> Instruction {
    Instruction::Label(name(text))
}

fn jump(target: &str) -> Instruction {
    Instruction::Jump { target: name(target) }
}

fn jump_if_zero(condition: Value, target: &str) -> Instruction {
    Instruction::JumpIfZero { condition, target: name(target) }
}

fn jump_if_not_zero(condition: Value, target: &str) -> Instruction {
    Instruction::JumpIfNotZero { condition, target: name(target) }
}

#[test]
fn the_default_generator_starts_at_zero() {
    assert_eq!(IrcGenerator::default().counter, 0);
}

#[test]
fn an_empty_function_returns_zero() {
    let (instructions, counter) = lower("");
    assert_eq!(instructions, vec![]);
    assert_eq!(counter, 0);
}

#[test]
fn constants_and_variables_need_no_instruction() {
    assert_eq!(lower("return 2;").0, vec![Instruction::Ret(Value::Constant(2))]);
    assert_eq!(lower("int a; return a;").0, vec![Instruction::Ret(var("a.0"))]);
    assert_eq!(lower("int a; a; 5; ;").0, vec![]);
}

#[test]
fn a_declaration_copies_its_initializer() {
    assert_eq!(lower("int a; int b = 3;").0, vec![copy(Value::Constant(3), "b.1")]);
}

#[test]
fn unary_operators_go_into_a_temporary() {
    let (instructions, counter) = lower("return -~!1;");
    assert_eq!(counter, 3);
    assert_eq!(
        instructions,
        vec![
            Instruction::Unary { operator: UnaryOp::Not, src: Value::Constant(1), dst: name("temp.0") },
            Instruction::Unary { operator: UnaryOp::Complement, src: var("temp.0"), dst: name("temp.1") },
            Instruction::Unary { operator: UnaryOp::Negate, src: var("temp.1"), dst: name("temp.2") },
            Instruction::Ret(var("temp.2")),
        ]
    );
}

#[test]
fn binary_operators_evaluate_left_then_right() {
    let (instructions, counter) = lower("return (1 + 2) * (3 - 4);");
    assert_eq!(counter, 3);
    assert_eq!(
        instructions,
        vec![
            binary(BinaryOp::Add, Value::Constant(1), Value::Constant(2), "temp.0"),
            binary(BinaryOp::Subtract, Value::Constant(3), Value::Constant(4), "temp.1"),
            binary(BinaryOp::Multiply, var("temp.0"), var("temp.1"), "temp.2"),
            Instruction::Ret(var("temp.2")),
        ]
    );
}

#[test]
fn every_binary_operator_has_its_instruction() {
    let table = [
        ("+", BinaryOp::Add),
        ("-", BinaryOp::Subtract),
        ("*", BinaryOp::Multiply),
        ("/", BinaryOp::Divide),
        ("%", BinaryOp::Remainder),
        ("<<", BinaryOp::LeftShift),
        (">>", BinaryOp::RightShift),
        ("&", BinaryOp::BitAnd),
        ("^", BinaryOp::Xor),
        ("|", BinaryOp::BitOr),
        ("==", BinaryOp::Equal),
        ("!=", BinaryOp::NotEqual),
        ("<", BinaryOp::LessThan),
        ("<=", BinaryOp::LessOrEqual),
        (">", BinaryOp::GreaterThan),
        (">=", BinaryOp::GreaterOrEqual),
    ];
    for (text, operator) in table {
        assert_eq!(
            lower(&format!("return 6 {text} 3;")).0,
            vec![
                binary(operator, Value::Constant(6), Value::Constant(3), "temp.0"),
                Instruction::Ret(var("temp.0")),
            ],
            "{text}"
        );
    }
}

#[test]
fn every_compound_assignment_reads_the_variable_again() {
    let table = [
        ("+=", BinaryOp::Add),
        ("-=", BinaryOp::Subtract),
        ("*=", BinaryOp::Multiply),
        ("/=", BinaryOp::Divide),
        ("%=", BinaryOp::Remainder),
        ("&=", BinaryOp::BitAnd),
        ("|=", BinaryOp::BitOr),
        ("^=", BinaryOp::Xor),
        (">>=", BinaryOp::RightShift),
        ("<<=", BinaryOp::LeftShift),
    ];
    for (text, operator) in table {
        assert_eq!(
            lower(&format!("int a; return a {text} 3;")).0,
            vec![
                binary(operator, var("a.0"), Value::Constant(3), "a.0"),
                Instruction::Ret(var("a.0")),
            ],
            "{text}"
        );
    }
    assert_eq!(
        lower("int a; return a = 3;").0,
        vec![copy(Value::Constant(3), "a.0"), Instruction::Ret(var("a.0"))]
    );
}

#[test]
fn increments_and_decrements() {
    assert_eq!(
        lower("int a; return ++a;").0,
        vec![
            binary(BinaryOp::Add, var("a.0"), Value::Constant(1), "a.0"),
            Instruction::Ret(var("a.0")),
        ]
    );
    assert_eq!(
        lower("int a; return --a;").0,
        vec![
            binary(BinaryOp::Subtract, var("a.0"), Value::Constant(1), "a.0"),
            Instruction::Ret(var("a.0")),
        ]
    );
    assert_eq!(
        lower("int a; return a++;").0,
        vec![
            copy(var("a.0"), "temp.1"),
            binary(BinaryOp::Add, var("a.0"), Value::Constant(1), "a.0"),
            Instruction::Ret(var("temp.1")),
        ]
    );
    assert_eq!(
        lower("int a; return a--;").0,
        vec![
            copy(var("a.0"), "temp.1"),
            binary(BinaryOp::Subtract, var("a.0"), Value::Constant(1), "a.0"),
            Instruction::Ret(var("temp.1")),
        ]
    );
}

#[test]
fn and_branches_over_its_right_operand() {
    let (instructions, counter) = lower("int a; int b; return a && !b;");
    assert_eq!(counter, 6);
    assert_eq!(
        instructions,
        vec![
            jump_if_zero(var("a.0"), "and_false.3"),
            Instruction::Unary { operator: UnaryOp::Not, src: var("b.1"), dst: name("temp.5") },
            jump_if_zero(var("temp.5"), "and_false.3"),
            copy(Value::Constant(1), "temp.2"),
            jump("and_end.4"),
            label("and_false.3"),
            copy(Value::Constant(0), "temp.2"),
            label("and_end.4"),
            Instruction::Ret(var("temp.2")),
        ]
    );
}

#[test]
fn or_branches_over_its_right_operand() {
    let (instructions, counter) = lower("int a; int b; return -a || b;");
    assert_eq!(counter, 6);
    assert_eq!(
        instructions,
        vec![
            Instruction::Unary { operator: UnaryOp::Negate, src: var("a.0"), dst: name("temp.3") },
            jump_if_not_zero(var("temp.3"), "or_true.4"),
            jump_if_not_zero(var("b.1"), "or_true.4"),
            copy(Value::Constant(0), "temp.2"),
            jump("or_end.5"),
            label("or_true.4"),
            copy(Value::Constant(1), "temp.2"),
            label("or_end.5"),
            Instruction::Ret(var("temp.2")),
        ]
    );
}

#[test]
fn a_conditional_copies_the_selected_branch() {
    let (instructions, counter) = lower("int a; return a ? a + 1 : 7;");
    assert_eq!(counter, 5);
    assert_eq!(
        instructions,
        vec![
            jump_if_zero(var("a.0"), "ter_else.3"),
            binary(BinaryOp::Add, var("a.0"), Value::Constant(1), "temp.4"),
            copy(var("temp.4"), "temp.1"),
            jump("ter_end.2"),
            label("ter_else.3"),
            copy(Value::Constant(7), "temp.1"),
            label("ter_end.2"),
            Instruction::Ret(var("temp.1")),
        ]
    );
}

#[test]
fn an_if_jumps_over_its_branch() {
    assert_eq!(
        lower("int a; if (a) a = 1;").0,
        vec![
            jump_if_zero(var("a.0"), "if_end.1"),
            copy(Value::Constant(1), "a.0"),
            label("if_end.1"),
        ]
    );
    assert_eq!(
        lower("int a; if (a == 0) a = 1; else a = 2;").0,
        vec![
            binary(BinaryOp::Equal, var("a.0"), Value::Constant(0), "temp.3"),
            jump_if_zero(var("temp.3"), "if_else.2"),
            copy(Value::Constant(1), "a.0"),
            jump("if_end.1"),
            label("if_else.2"),
            copy(Value::Constant(2), "a.0"),
            label("if_end.1"),
        ]
    );
}

#[test]
fn goto_and_labels_keep_their_names() {
    assert_eq!(
        lower("goto out; out: return 1;").0,
        vec![jump("out"), label("out"), Instruction::Ret(Value::Constant(1))]
    );
}

#[test]
fn a_while_loop_starts_over_at_its_test() {
    assert_eq!(
        lower("int a; while (a) { if (a) break; continue; }").0,
        vec![
            label("continue.loop.1"),
            jump_if_zero(var("a.0"), "break.loop.1"),
            jump_if_zero(var("a.0"), "if_end.2"),
            jump("break.loop.1"),
            label("if_end.2"),
            jump("continue.loop.1"),
            jump("continue.loop.1"),
            label("break.loop.1"),
        ]
    );
}

#[test]
fn a_do_loop_tests_after_its_body() {
    assert_eq!(
        lower("int a; do { continue; break; } while (a < 3);").0,
        vec![
            label("start.loop.1"),
            jump("continue.loop.1"),
            jump("break.loop.1"),
            label("continue.loop.1"),
            binary(BinaryOp::LessThan, var("a.0"), Value::Constant(3), "temp.2"),
            jump_if_not_zero(var("temp.2"), "start.loop.1"),
            label("break.loop.1"),
        ]
    );
}

#[test]
fn a_for_loop_steps_after_its_body() {
    assert_eq!(
        lower("for (int i = 0; i < 5; i = i + 1) continue;").0,
        vec![
            copy(Value::Constant(0), "i.0"),
            label("start.loop.1"),
            binary(BinaryOp::LessThan, var("i.0"), Value::Constant(5), "temp.2"),
            jump_if_zero(var("temp.2"), "break.loop.1"),
            jump("continue.loop.1"),
            label("continue.loop.1"),
            binary(BinaryOp::Add, var("i.0"), Value::Constant(1), "temp.3"),
            copy(var("temp.3"), "i.0"),
            jump("start.loop.1"),
            label("break.loop.1"),
        ]
    );
    assert_eq!(
        lower("for (;;) break;").0,
        vec![
            label("start.loop.0"),
            jump("break.loop.0"),
            label("continue.loop.0"),
            jump("start.loop.0"),
            label("break.loop.0"),
        ]
    );
}

#[test]
fn the_counter_is_handed_on() {
    let source = "int main(void) { return !1; }";
    let mut lexer = Lexer::new(source);
    lexer.tokenize().unwrap();
    let mut parser = Parser::new(&lexer);
    let program = parser.parse().unwrap();
    let (lowered, counter) = IrcGenerator::gen_program(program, 100);
    assert_eq!(counter, 101);
    let Program::Function(function) = lowered;
    assert_eq!(
        function.instructions,
        vec![
            Instruction::Unary {
                operator: UnaryOp::Not,
                src: Value::Constant(1),
                dst: name("temp.100"),
            },
            Instruction::Ret(var("temp.100")),
            Instruction::Ret(Value::Constant(0)),
        ]
    );
    assert_eq!(var("x").duplicate(), var("x"));
    assert_eq!(Value::Constant(-4).duplicate(), Value::Constant(-4));
}
