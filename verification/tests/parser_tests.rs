use comp::ast::{
    AssignmentOp, BinaryOp, Block, BlockItem, Decleration, Expr, ForInit, Function, Program, Stmt,
    UnaryOp,
};
use comp::lexer::Lexer;
use comp::parser::{constant_of, ParseError, Parser};
use comp::token::TokenKind;
use comp::Error;

fn var(name: &str) -> Expr {
    Expr::Var(name.to_string())
}

fn boxed(expr: Expr) -> Box<Expr> {
    Box::new(expr)
}

fn binary(operator: BinaryOp, left: Expr, right: Expr) -> Expr {
    Expr::Binary { operator, left: boxed(left), right: boxed(right) }
}

fn assign(operator: AssignmentOp, left: Expr, right: Expr) -> Expr {
    Expr::Assignment { operator, left: boxed(left), right: boxed(right) }
}

fn unary(operator: UnaryOp, right: Expr) -> Expr {
    Expr::Unary { operator, right: boxed(right) }
}

fn parse_body(body: &str) -> Result<Vec<BlockItem>, ParseError> {
    let source = format!("int main(void) {{ {body} }}");
    let mut lexer = Lexer::new(&source);
    lexer.tokenize().expect("the source lexes");
    let mut parser = Parser::new(&lexer);
    let Program::Function(function) = parser.parse()?;
    assert_eq!(function.name, "main");
    Ok(function.body.items)
}

fn parse_expr(text: &str) -> Expr {
    let mut items = parse_body(&format!("return {text};")).expect("the expression parses");
    assert_eq!(items.len(), 1);
    match items.remove(0) {
        BlockItem::Statement(Stmt::Return(expr)) => expr,
        other => panic!("expected a return, got {other:?}"),
    }
}

fn parse_stmt(text: &str) -> Stmt {
    let mut items = parse_body(text).expect("the statement parses");
    assert_eq!(items.len(), 1);
    match items.remove(0) {
        BlockItem::Statement(stmt) => stmt,
        other => panic!("expected a statement, got {other:?}"),
    }
}

fn parse_error(source: &str) -> ParseError {
    let mut lexer = Lexer::new(source);
    lexer.tokenize().expect("the source lexes");
    let mut parser = Parser::new(&lexer);
    parser.parse().expect_err("the source does not parse")
}

#[test]
fn parses_the_smallest_program() {
    let source = "int main(void) { return 2; }";
    let mut lexer = Lexer::new(source);
    lexer.tokenize().unwrap();
    let mut parser = Parser::new(&lexer);
    let program = parser.parse().unwrap();
    assert_eq!(
        program,
        Program::Function(Function {
            name: "main",
            body: Block { items: vec![BlockItem::Statement(Stmt::Return(Expr::Constant(2)))] },
        })
    );
}

#[test]
fn constants_are_read_in_base_ten() {
    assert_eq!(constant_of("0"), Some(0));
    assert_eq!(constant_of("007"), Some(7));
    assert_eq!(constant_of("2147483647"), Some(2147483647));
    assert_eq!(constant_of("2147483648"), None);
    assert_eq!(constant_of("99999999999999999999999999"), None);
    assert_eq!(constant_of(""), None);
    assert_eq!(constant_of("12a"), None);
    assert_eq!(constant_of("-1"), None);
    assert_eq!(constant_of("\u{661}"), None);
}

#[test]
fn a_constant_that_does_not_fit_is_an_invalid_expression() {
    assert_eq!(
        parse_error("int main(void) {\n return 2147483648; }"),
        ParseError::InvalidExpression { line: 2 }
    );
    assert_eq!(
        parse_error("int main(void) { return 1 + 99999999999999999999 * 2; }"),
        ParseError::InvalidExpression { line: 1 }
    );
    assert_eq!(parse_expr("2147483647"), Expr::Constant(2147483647));
}

#[test]
fn higher_precedence_binds_tighter() {
    assert_eq!(
        parse_expr("1 + 2 * 3"),
        binary(
            BinaryOp::Add,
            Expr::Constant(1),
            binary(BinaryOp::Multiply, Expr::Constant(2), Expr::Constant(3))
        )
    );
    assert_eq!(
        parse_expr("1 * 2 + 3"),
        binary(
            BinaryOp::Add,
            binary(BinaryOp::Multiply, Expr::Constant(1), Expr::Constant(2)),
            Expr::Constant(3)
        )
    );
    assert_eq!(
        parse_expr("a || b && c | d ^ e & f == g < h << i + j * k"),
        binary(
            BinaryOp::Or,
            var("a"),
            binary(
                BinaryOp::And,
                var("b"),
                binary(
                    BinaryOp::BitOr,
                    var("c"),
                    binary(
                        BinaryOp::Xor,
                        var("d"),
                        binary(
                            BinaryOp::BitAnd,
                            var("e"),
                            binary(
                                BinaryOp::Equal,
                                var("f"),
                                binary(
                                    BinaryOp::LessThan,
                                    var("g"),
                                    binary(
                                        BinaryOp::LeftShift,
                                        var("h"),
                                        binary(
                                            BinaryOp::Add,
                                            var("i"),
                                            binary(BinaryOp::Multiply, var("j"), var("k"))
                                        )
                                    )
                                )
                            )
                        )
                    )
                )
            )
        )
    );
}

#[test]
fn binary_operators_associate_to_the_left() {
    assert_eq!(
        parse_expr("1 - 2 - 3"),
        binary(
            BinaryOp::Subtract,
            binary(BinaryOp::Subtract, Expr::Constant(1), Expr::Constant(2)),
            Expr::Constant(3)
        )
    );
    assert_eq!(
        parse_expr("8 / 4 % 3 * 2"),
        binary(
            BinaryOp::Multiply,
            binary(
                BinaryOp::Remainder,
                binary(BinaryOp::Divide, Expr::Constant(8), Expr::Constant(4)),
                Expr::Constant(3)
            ),
            Expr::Constant(2)
        )
    );
    assert_eq!(
        parse_expr("a >= b != c <= d"),
        binary(
            BinaryOp::NotEqual,
            binary(BinaryOp::GreaterOrEqual, var("a"), var("b")),
            binary(BinaryOp::LessOrEqual, var("c"), var("d"))
        )
    );
    assert_eq!(
        parse_expr("a > b >> c"),
        binary(BinaryOp::GreaterThan, var("a"), binary(BinaryOp::RightShift, var("b"), var("c")))
    );
}

#[test]
fn assignment_and_conditional_associate_to_the_right() {
    assert_eq!(
        parse_expr("a = b = 3"),
        assign(
            AssignmentOp::Equal,
            var("a"),
            assign(AssignmentOp::Equal, var("b"), Expr::Constant(3))
        )
    );
    assert_eq!(
        parse_expr("a ? 1 : b ? 2 : 3"),
        Expr::Conditional {
            condition: boxed(var("a")),
            then_branch: boxed(Expr::Constant(1)),
            else_branch: boxed(Expr::Conditional {
                condition: boxed(var("b")),
                then_branch: boxed(Expr::Constant(2)),
                else_branch: boxed(Expr::Constant(3)),
            }),
        }
    );
    // The middle of a conditional is a whole expression.
    assert_eq!(
        parse_expr("a ? b = 1 : 2"),
        Expr::Conditional {
            condition: boxed(var("a")),
            then_branch: boxed(assign(AssignmentOp::Equal, var("b"), Expr::Constant(1))),
            else_branch: boxed(Expr::Constant(2)),
        }
    );
    // A conditional binds tighter than an assignment, and looser than `||`.
    assert_eq!(
        parse_expr("a = b || c ? 1 : 2"),
        assign(
            AssignmentOp::Equal,
            var("a"),
            Expr::Conditional {
                condition: boxed(binary(BinaryOp::Or, var("b"), var("c"))),
                then_branch: boxed(Expr::Constant(1)),
                else_branch: boxed(Expr::Constant(2)),
            }
        )
    );
}

#[test]
fn every_assignment_operator_parses() {
    let table = [
        ("=", AssignmentOp::Equal),
        ("+=", AssignmentOp::PlusEqual),
        ("-=", AssignmentOp::SubtractEqual),
        ("*=", AssignmentOp::MultipleEqual),
        ("/=", AssignmentOp::DivideEqual),
        ("%=", AssignmentOp::RemainderEqual),
        ("&=", AssignmentOp::BitAndEqual),
        ("|=", AssignmentOp::BitOrEqual),
        ("^=", AssignmentOp::XorEqual),
        (">>=", AssignmentOp::RightShiftEqual),
        ("<<=", AssignmentOp::LeftShiftEqual),
    ];
    for (text, operator) in table {
        assert_eq!(
            parse_expr(&format!("a {text} 1")),
            assign(operator, var("a"), Expr::Constant(1)),
            "{text}"
        );
    }
}

#[test]
fn prefix_and_postfix_operators() {
    assert_eq!(parse_expr("-a"), unary(UnaryOp::Negate, var("a")));
    assert_eq!(parse_expr("~a"), unary(UnaryOp::Complement, var("a")));
    assert_eq!(parse_expr("!a"), unary(UnaryOp::Not, var("a")));
    assert_eq!(parse_expr("++a"), unary(UnaryOp::PrefixInc, var("a")));
    assert_eq!(parse_expr("--a"), unary(UnaryOp::PrefixDec, var("a")));
    assert_eq!(parse_expr("a++"), unary(UnaryOp::PostFixInc, var("a")));
    assert_eq!(parse_expr("a--"), unary(UnaryOp::PostFixDec, var("a")));
    assert_eq!(parse_expr("-a++"), unary(UnaryOp::Negate, unary(UnaryOp::PostFixInc, var("a"))));
    assert_eq!(parse_expr("(a)++"), unary(UnaryOp::PostFixInc, var("a")));
    assert_eq!(parse_expr("- -a"), unary(UnaryOp::Negate, unary(UnaryOp::Negate, var("a"))));
    assert_eq!(
        parse_expr("a++ + ++a"),
        binary(
            BinaryOp::Add,
            unary(UnaryOp::PostFixInc, var("a")),
            unary(UnaryOp::PrefixInc, var("a"))
        )
    );
    assert_eq!(
        parse_expr("-a * b"),
        binary(BinaryOp::Multiply, unary(UnaryOp::Negate, var("a")), var("b"))
    );
}

#[test]
fn parentheses_group() {
    assert_eq!(
        parse_expr("(1 + 2) * 3"),
        binary(
            BinaryOp::Multiply,
            binary(BinaryOp::Add, Expr::Constant(1), Expr::Constant(2)),
            Expr::Constant(3)
        )
    );
    assert_eq!(parse_expr("((7))"), Expr::Constant(7));
}

#[test]
fn declarations_with_and_without_initializer() {
    assert_eq!(
        parse_body("int a; int b = a + 1;").unwrap(),
        vec![
            BlockItem::Decleration(Decleration::Decleration { name: "a".to_string(), init: None }),
            BlockItem::Decleration(Decleration::Decleration {
                name: "b".to_string(),
                init: Some(binary(BinaryOp::Add, var("a"), Expr::Constant(1))),
            }),
        ]
    );
}

#[test]
fn statements_of_every_form() {
    assert_eq!(parse_stmt(";"), Stmt::Null);
    assert_eq!(parse_stmt("a;"), Stmt::Expression(var("a")));
    assert_eq!(parse_stmt("goto out;"), Stmt::Goto("out".to_string()));
    assert_eq!(parse_stmt("break;"), Stmt::Break { label: None });
    assert_eq!(parse_stmt("continue;"), Stmt::Continue { label: None });
    assert_eq!(
        parse_stmt("out: return 1;"),
        Stmt::Label("out".to_string(), Box::new(Stmt::Return(Expr::Constant(1))))
    );
    assert_eq!(
        parse_stmt("if (a) b; else c;"),
        Stmt::If {
            condition: var("a"),
            then_branch: Box::new(Stmt::Expression(var("b"))),
            else_branch: Some(Box::new(Stmt::Expression(var("c")))),
        }
    );
    assert_eq!(
        parse_stmt("while (a) ;"),
        Stmt::While { condition: var("a"), body: Box::new(Stmt::Null), label: None }
    );
    assert_eq!(
        parse_stmt("do a; while (b);"),
        Stmt::DoWhile {
            body: Box::new(Stmt::Expression(var("a"))),
            condition: var("b"),
            label: None,
        }
    );
    assert_eq!(
        parse_stmt("{ ; { } }"),
        Stmt::Compound(Block {
            items: vec![
                BlockItem::Statement(Stmt::Null),
                BlockItem::Statement(Stmt::Compound(Block { items: vec![] })),
            ],
        })
    );
}

#[test]
fn an_else_belongs_to_the_nearest_if() {
    assert_eq!(
        parse_stmt("if (a) if (b) c; else d;"),
        Stmt::If {
            condition: var("a"),
            then_branch: Box::new(Stmt::If {
                condition: var("b"),
                then_branch: Box::new(Stmt::Expression(var("c"))),
                else_branch: Some(Box::new(Stmt::Expression(var("d")))),
            }),
            else_branch: None,
        }
    );
}

#[test]
fn for_loops_with_every_header() {
    assert_eq!(
        parse_stmt("for (int i = 0; i < 5; i = i + 1) ;"),
        Stmt::For {
            init: ForInit::InitDecl(Decleration::Decleration {
                name: "i".to_string(),
                init: Some(Expr::Constant(0)),
            }),
            condition: Some(binary(BinaryOp::LessThan, var("i"), Expr::Constant(5))),
            post: Some(assign(
                AssignmentOp::Equal,
                var("i"),
                binary(BinaryOp::Add, var("i"), Expr::Constant(1))
            )),
            body: Box::new(Stmt::Null),
            label: None,
        }
    );
    assert_eq!(
        parse_stmt("for (;;) ;"),
        Stmt::For {
            init: ForInit::InitExp(None),
            condition: None,
            post: None,
            body: Box::new(Stmt::Null),
            label: None,
        }
    );
    assert_eq!(
        parse_stmt("for (i = 0;; i++) break;"),
        Stmt::For {
            init: ForInit::InitExp(Some(assign(AssignmentOp::Equal, var("i"), Expr::Constant(0)))),
            condition: None,
            post: Some(unary(UnaryOp::PostFixInc, var("i"))),
            body: Box::new(Stmt::Break { label: None }),
            label: None,
        }
    );
}

#[test]
fn a_broken_for_header_is_an_error() {
    assert_eq!(
        parse_body("for (; 1 + ;) ;"),
        Err(ParseError::InvalidFactor { line: 1 })
    );
    assert_eq!(
        parse_body("for (int 5;;) ;"),
        Err(ParseError::UnexpectedToken {
            expected: Some(TokenKind::Identifier),
            got: Some(TokenKind::Constant),
            line: 1,
        })
    );
    assert_eq!(
        parse_body("for (;;;) ;"),
        Err(ParseError::InvalidFactor { line: 1 })
    );
}

#[test]
fn an_identifier_before_a_colon_is_a_label() {
    assert_eq!(
        parse_stmt("a ? b : c;"),
        Stmt::Expression(Expr::Conditional {
            condition: boxed(var("a")),
            then_branch: boxed(var("b")),
            else_branch: boxed(var("c")),
        })
    );
    assert_eq!(
        parse_stmt("a: b: ;"),
        Stmt::Label(
            "a".to_string(),
            Box::new(Stmt::Label("b".to_string(), Box::new(Stmt::Null)))
        )
    );
}

#[test]
fn unexpected_tokens_are_reported_with_their_line() {
    assert_eq!(
        parse_error("int main(void) {\n  return 2\n}"),
        ParseError::UnexpectedToken {
            expected: Some(TokenKind::Semicolon),
            got: Some(TokenKind::RightBrace),
            line: 3,
        }
    );
    assert_eq!(
        parse_error("main(void) { }"),
        ParseError::UnexpectedToken {
            expected: Some(TokenKind::Int),
            got: Some(TokenKind::Identifier),
            line: 1,
        }
    );
    assert_eq!(
        parse_error("int main(int) { }"),
        ParseError::UnexpectedToken {
            expected: Some(TokenKind::Void),
            got: Some(TokenKind::Int),
            line: 1,
        }
    );
    assert_eq!(
        parse_error("int main(void) { return (1; }"),
        ParseError::UnexpectedToken {
            expected: Some(TokenKind::RightParen),
            got: Some(TokenKind::Semicolon),
            line: 1,
        }
    );
    assert_eq!(
        parse_error("int main(void) { return a ? 1; }"),
        ParseError::UnexpectedToken {
            expected: Some(TokenKind::Colon),
            got: Some(TokenKind::Semicolon),
            line: 1,
        }
    );
    assert_eq!(
        parse_error("int main(void) { do ; until (1); }"),
        ParseError::UnexpectedToken {
            expected: Some(TokenKind::While),
            got: Some(TokenKind::Identifier),
            line: 1,
        }
    );
}

#[test]
fn the_end_of_the_tokens_is_reported_with_the_last_line() {
    assert_eq!(
        parse_error("int main(void) {\n  return 2;\n"),
        ParseError::UnexpectedToken {
            expected: Some(TokenKind::RightBrace),
            got: None,
            line: 2,
        }
    );
    assert_eq!(
        parse_error(""),
        ParseError::UnexpectedToken { expected: Some(TokenKind::Int), got: None, line: 0 }
    );
    assert_eq!(
        parse_error("int main(void) { return"),
        ParseError::InvalidFactor { line: 1 }
    );
}

#[test]
fn tokens_after_the_function_are_an_error() {
    assert_eq!(
        parse_error("int main(void) { return 0; }\nint"),
        ParseError::UnexpectedToken { expected: None, got: Some(TokenKind::Int), line: 2 }
    );
}

#[test]
fn an_expression_needs_a_factor() {
    assert_eq!(
        parse_error("int main(void) { return 1 + ; }"),
        ParseError::InvalidFactor { line: 1 }
    );
    assert_eq!(
        parse_error("int main(void) {\n\n return * 2; }"),
        ParseError::InvalidFactor { line: 3 }
    );
    assert_eq!(
        parse_error("int main(void) { return else; }"),
        ParseError::InvalidFactor { line: 1 }
    );
}

#[test]
fn a_parse_error_converts_into_an_error() {
    let error = ParseError::InvalidFactor { line: 4 };
    assert_eq!(Error::from(error), Error::Parser(ParseError::InvalidFactor { line: 4 }));
}
