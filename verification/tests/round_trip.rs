//! Printing a syntax tree, lexing the text and parsing the tokens gives the
//! tree back.

use comp::ast::{
    AssignmentOp, BinaryOp, Block, BlockItem, Decleration, Expr, ForInit, Function, Program, Stmt,
    UnaryOp,
};
use comp::lexer::Lexer;
use comp::parser::Parser;

fn write(out: &mut String, word: &str) {
    out.push_str(word);
    out.push(' ');
}

fn binary_word(operator: BinaryOp) -> &'static str {
    match operator {
        BinaryOp::Add => "+",
        BinaryOp::Subtract => "-",
        BinaryOp::Multiply => "*",
        BinaryOp::Divide => "/",
        BinaryOp::Remainder => "%",
        BinaryOp::LeftShift => "<<",
        BinaryOp::RightShift => ">>",
        BinaryOp::BitAnd => "&",
        BinaryOp::Xor => "^",
        BinaryOp::BitOr => "|",
        BinaryOp::And => "&&",
        BinaryOp::Or => "||",
        BinaryOp::Equal => "==",
        BinaryOp::NotEqual => "!=",
        BinaryOp::LessThan => "<",
        BinaryOp::LessOrEqual => "<=",
        BinaryOp::GreaterThan => ">",
        BinaryOp::GreaterOrEqual => ">=",
    }
}

fn assignment_word(operator: AssignmentOp) -> &'static str {
    match operator {
        AssignmentOp::Equal => "=",
        AssignmentOp::PlusEqual => "+=",
        AssignmentOp::SubtractEqual => "-=",
        AssignmentOp::MultipleEqual => "*=",
        AssignmentOp::DivideEqual => "/=",
        AssignmentOp::RemainderEqual => "%=",
        AssignmentOp::BitAndEqual => "&=",
        AssignmentOp::BitOrEqual => "|=",
        AssignmentOp::XorEqual => "^=",
        AssignmentOp::RightShiftEqual => ">>=",
        AssignmentOp::LeftShiftEqual => "<<=",
    }
}

fn unary_word(operator: UnaryOp) -> &'static str {
    match operator {
        UnaryOp::Complement => "~",
        UnaryOp::Negate => "-",
        UnaryOp::Not => "!",
        UnaryOp::PrefixInc | UnaryOp::PostFixInc => "++",
        UnaryOp::PrefixDec | UnaryOp::PostFixDec => "--",
    }
}

fn print_operand(out: &mut String, expr: &Expr) {
    write(out, "(");
    print_expr(out, expr);
    write(out, ")");
}

fn print_expr(out: &mut String, expr: &Expr) {
    match expr {
        Expr::Constant(value) => write(out, &value.to_string()),
        Expr::Var(name) => write(out, name),
        Expr::Unary { operator, right } => {
            if matches!(operator, UnaryOp::PostFixInc | UnaryOp::PostFixDec) {
                print_operand(out, right);
                write(out, unary_word(*operator));
            } else {
                write(out, unary_word(*operator));
                print_operand(out, right);
            }
        }
        Expr::Binary { operator, left, right } => {
            print_operand(out, left);
            write(out, binary_word(*operator));
            print_operand(out, right);
        }
        Expr::Assignment { operator, left, right } => {
            print_operand(out, left);
            write(out, assignment_word(*operator));
            print_operand(out, right);
        }
        Expr::Conditional { condition, then_branch, else_branch } => {
            print_operand(out, condition);
            write(out, "?");
            print_operand(out, then_branch);
            write(out, ":");
            print_operand(out, else_branch);
        }
    }
}

fn print_optional(out: &mut String, expr: &Option<Expr>) {
    if let Some(expr) = expr {
        print_operand(out, expr);
    }
}

fn print_decleration(out: &mut String, decleration: &Decleration) {
    let Decleration::Decleration { name, init } = decleration;
    write(out, "int");
    write(out, name);
    if let Some(init) = init {
        write(out, "=");
        print_operand(out, init);
    }
    write(out, ";");
}

fn print_stmt(out: &mut String, stmt: &Stmt) {
    match stmt {
        Stmt::Return(expr) => {
            write(out, "return");
            print_operand(out, expr);
            write(out, ";");
        }
        Stmt::Expression(expr) => {
            print_operand(out, expr);
            write(out, ";");
        }
        Stmt::Null => write(out, ";"),
        Stmt::If { condition, then_branch, else_branch } => {
            write(out, "if");
            print_operand(out, condition);
            print_stmt(out, then_branch);
            if let Some(else_branch) = else_branch {
                write(out, "else");
                print_stmt(out, else_branch);
            }
        }
        Stmt::Goto(label) => {
            write(out, "goto");
            write(out, label);
            write(out, ";");
        }
        Stmt::Label(label, stmt) => {
            write(out, label);
            write(out, ":");
            print_stmt(out, stmt);
        }
        Stmt::Break { .. } => {
            write(out, "break");
            write(out, ";");
        }
        Stmt::Continue { .. } => {
            write(out, "continue");
            write(out, ";");
        }
        Stmt::While { condition, body, .. } => {
            write(out, "while");
            print_operand(out, condition);
            print_stmt(out, body);
        }
        Stmt::DoWhile { body, condition, .. } => {
            write(out, "do");
            print_stmt(out, body);
            write(out, "while");
            print_operand(out, condition);
            write(out, ";");
        }
        Stmt::For { init, condition, post, body, .. } => {
            write(out, "for");
            write(out, "(");
            match init {
                ForInit::InitDecl(decleration) => print_decleration(out, decleration),
                ForInit::InitExp(expr) => {
                    print_optional(out, expr);
                    write(out, ";");
                }
            }
            print_optional(out, condition);
            write(out, ";");
            print_optional(out, post);
            write(out, ")");
            print_stmt(out, body);
        }
        Stmt::Compound(block) => print_block(out, block),
    }
}

fn print_block(out: &mut String, block: &Block) {
    write(out, "{");
    for item in &block.items {
        match item {
            BlockItem::Statement(stmt) => print_stmt(out, stmt),
            BlockItem::Decleration(decleration) => print_decleration(out, decleration),
        }
    }
    write(out, "}");
}

fn print_program(program: &Program) -> String {
    let Program::Function(function) = program;
    let mut out = String::new();
    write(&mut out, "int");
    write(&mut out, function.name);
    write(&mut out, "(");
    write(&mut out, "void");
    write(&mut out, ")");
    print_block(&mut out, &function.body);
    out
}

fn read_back(program: &Program) {
    let text = print_program(program);
    let mut lexer = Lexer::new(&text);
    lexer.tokenize().expect("what is printed lexes");
    assert!(lexer.tokens.iter().all(|token| token.line == 1));
    let mut parser = Parser::new(&lexer);
    let again = parser.parse().expect("what is printed parses");
    assert_eq!(&again, program, "{text}");
}

fn variable(name: &str) -> Box<Expr> {
    Box::new(Expr::Var(name.to_string()))
}

#[test]
fn a_printed_tree_is_read_back() {
    let deep = Expr::Conditional {
        condition: Box::new(Expr::Binary {
            operator: BinaryOp::Or,
            left: Box::new(Expr::Unary { operator: UnaryOp::Not, right: variable("a") }),
            right: Box::new(Expr::Assignment {
                operator: AssignmentOp::LeftShiftEqual,
                left: variable("b"),
                right: Box::new(Expr::Constant(2147483647)),
            }),
        }),
        then_branch: Box::new(Expr::Unary {
            operator: UnaryOp::PostFixDec,
            right: Box::new(Expr::Unary { operator: UnaryOp::PrefixInc, right: variable("c") }),
        }),
        else_branch: Box::new(Expr::Binary {
            operator: BinaryOp::Subtract,
            left: Box::new(Expr::Unary { operator: UnaryOp::Negate, right: variable("_d9") }),
            right: Box::new(Expr::Unary {
                operator: UnaryOp::Complement,
                right: Box::new(Expr::Constant(0)),
            }),
        }),
    };
    // An assignment to what is no variable is printed and read back too:
    // the parser does not judge it.
    let odd = Expr::Assignment {
        operator: AssignmentOp::Equal,
        left: Box::new(Expr::Constant(1)),
        right: variable("x"),
    };
    let program = Program::Function(Function {
        name: "main",
        body: Block {
            items: vec![
                BlockItem::Decleration(Decleration::Decleration {
                    name: "a".to_string(),
                    init: None,
                }),
                BlockItem::Decleration(Decleration::Decleration {
                    name: "intx".to_string(),
                    init: Some(deep),
                }),
                BlockItem::Statement(Stmt::If {
                    condition: odd,
                    then_branch: Box::new(Stmt::Compound(Block {
                        items: vec![BlockItem::Statement(Stmt::If {
                            condition: Expr::Constant(1),
                            then_branch: Box::new(Stmt::Null),
                            else_branch: None,
                        })],
                    })),
                    else_branch: Some(Box::new(Stmt::While {
                        condition: Expr::Constant(0),
                        body: Box::new(Stmt::If {
                            condition: Expr::Constant(2),
                            then_branch: Box::new(Stmt::Break { label: None }),
                            else_branch: None,
                        }),
                        label: None,
                    })),
                }),
                BlockItem::Statement(Stmt::For {
                    init: ForInit::InitDecl(Decleration::Decleration {
                        name: "i".to_string(),
                        init: Some(Expr::Constant(0)),
                    }),
                    condition: None,
                    post: Some(Expr::Unary { operator: UnaryOp::PostFixInc, right: variable("i") }),
                    body: Box::new(Stmt::DoWhile {
                        body: Box::new(Stmt::Continue { label: None }),
                        condition: Expr::Var("i".to_string()),
                        label: None,
                    }),
                    label: None,
                }),
                BlockItem::Statement(Stmt::For {
                    init: ForInit::InitExp(None),
                    condition: Some(Expr::Constant(1)),
                    post: None,
                    body: Box::new(Stmt::Label(
                        "out".to_string(),
                        Box::new(Stmt::Goto("out".to_string())),
                    )),
                    label: None,
                }),
                BlockItem::Statement(Stmt::Return(Expr::Var("a".to_string()))),
            ],
        },
    });
    read_back(&program);
}

#[test]
fn what_the_parser_reads_is_read_back_from_its_print() {
    let corpus = [
        "int main(void){ return 2; }",
        "int main(void){ return 1 + 2 * 3 - 4 / 5 % 6; }",
        "int f(void){ int a = 1; int b; a = b = a ? b : a ? 1 : 2; return a || b && !a; }",
        "int g(void){ if (1) if (2) ; else ; else { } }",
        "int h(void){ if (1) while (2) if (3) return 4; }",
        "int k(void){ for (int i = 0; i < 3; i++) ; for (;;) break; for (i = 1; ; ) continue; }",
        "int l(void){ again: do { x += -~!y--; } while (x <<= 2); goto again; }",
        "int m(void){ a >>= b >= c >> d > e; a: b: { { ; } } if (a) b: ; else c: ; }",
        "int n(void){ return (a = 1, 2); }",
    ];
    for source in corpus {
        let mut lexer = Lexer::new(source);
        lexer.tokenize().expect("the source lexes");
        let mut parser = Parser::new(&lexer);
        match parser.parse() {
            Ok(program) => read_back(&program),
            Err(_) => assert!(source.contains(','), "{source}"),
        }
    }
}
