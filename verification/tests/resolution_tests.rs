use comp::ast::{
    AssignmentOp, BinaryOp, Block, BlockItem, Decleration, Expr, ForInit, Program, Stmt,
};
use comp::label_resolution::{clone_decleration, clone_expr, clone_optional_expr, LabelResolver};
use comp::lexer::Lexer;
use comp::names::{find_name, has_duplicates};
use comp::parser::Parser;
use comp::resolution::{ResolveError, Resolver};
use comp::text::make_unique_name;
use comp::var_resolution::{clone_label, VarResolver};
use comp::Error;

fn variable(name: &str) -> Expr {
    Expr::Var(name.to_string())
}

fn declare(name: &str, init: Option<Expr>) -> BlockItem {
    BlockItem::Decleration(Decleration::Decleration { name: name.to_string(), init })
}

fn resolved_variables(body: &str, counter: usize) -> (Result<Vec<BlockItem>, Error>, usize) {
    let source = format!("int main(void) {{ {body} }}");
    let mut lexer = Lexer::new(&source);
    lexer.tokenize().expect("the source lexes");
    let mut parser = Parser::new(&lexer);
    let mut program = parser.parse().expect("the source parses");
    let mut resolver = VarResolver::new(counter);
    let result = resolver.resolve_program(&mut program);
    let Program::Function(function) = program;
    (result.map(|()| function.body.items), resolver.counter)
}

fn labelled(body: &str, counter: usize) -> (Result<Vec<BlockItem>, Error>, usize) {
    let source = format!("int main(void) {{ {body} }}");
    let mut lexer = Lexer::new(&source);
    lexer.tokenize().expect("the source lexes");
    let mut parser = Parser::new(&lexer);
    let mut program = parser.parse().expect("the source parses");
    let mut resolver = LabelResolver::new(counter);
    let result = resolver.resolve_program(&mut program);
    let Program::Function(function) = program;
    (result.map(|()| function.body.items), resolver.counter)
}

fn declared(items: &[BlockItem], names: &mut Vec<String>) {
    for item in items {
        match item {
            BlockItem::Decleration(Decleration::Decleration { name, .. }) => {
                names.push(name.clone())
            }
            BlockItem::Statement(stmt) => declared_in(stmt, names),
        }
    }
}

fn declared_in(stmt: &Stmt, names: &mut Vec<String>) {
    match stmt {
        Stmt::If { then_branch, else_branch, .. } => {
            declared_in(then_branch, names);
            if let Some(else_branch) = else_branch {
                declared_in(else_branch, names);
            }
        }
        Stmt::Label(_, stmt) => declared_in(stmt, names),
        Stmt::While { body, .. } | Stmt::DoWhile { body, .. } => declared_in(body, names),
        Stmt::For { init, body, .. } => {
            if let ForInit::InitDecl(Decleration::Decleration { name, .. }) = init {
                names.push(name.clone());
            }
            declared_in(body, names);
        }
        Stmt::Compound(block) => declared(&block.items, names),
        _ => {}
    }
}

#[test]
fn unique_names_are_the_base_a_dot_and_the_number() {
    assert_eq!(make_unique_name("a", 0), "a.0");
    assert_eq!(make_unique_name("loop", 9), "loop.9");
    assert_eq!(make_unique_name("temp", 10), "temp.10");
    assert_eq!(make_unique_name("x_1", 1234567890), "x_1.1234567890");
    assert_eq!(make_unique_name("", 407), ".407");
    assert_eq!(
        make_unique_name("n", usize::MAX),
        format!("n.{}", usize::MAX)
    );
}

#[test]
fn names_are_found_at_their_first_place() {
    let names = vec!["a".to_string(), "b".to_string(), "a".to_string()];
    assert_eq!(find_name(&names, "a"), 0);
    assert_eq!(find_name(&names, "b"), 1);
    assert_eq!(find_name(&names, "c"), 3);
    assert_eq!(find_name(&Vec::new(), "a"), 0);
    assert!(has_duplicates(&names));
    assert!(!has_duplicates(&names[..2].to_vec()));
    assert!(!has_duplicates(&Vec::new()));
}

#[test]
fn each_declaration_gets_a_name_of_its_own() {
    let (items, counter) = resolved_variables("int a = 1; int b = a; return a + b;", 0);
    assert_eq!(counter, 2);
    assert_eq!(
        items.unwrap(),
        vec![
            declare("a.0", Some(Expr::Constant(1))),
            declare("b.1", Some(variable("a.0"))),
            BlockItem::Statement(Stmt::Return(Expr::Binary {
                operator: BinaryOp::Add,
                left: Box::new(variable("a.0")),
                right: Box::new(variable("b.1")),
            })),
        ]
    );
}

#[test]
fn the_counter_goes_on_from_where_it_starts() {
    let (items, counter) = resolved_variables("int a; a = 2;", 41);
    assert_eq!(counter, 42);
    assert_eq!(
        items.unwrap(),
        vec![
            declare("a.41", None),
            BlockItem::Statement(Stmt::Expression(Expr::Assignment {
                operator: AssignmentOp::Equal,
                left: Box::new(variable("a.41")),
                right: Box::new(Expr::Constant(2)),
            })),
        ]
    );
}

#[test]
fn an_inner_declaration_shadows_until_its_block_ends() {
    let (items, counter) = resolved_variables("int a = 1; { a = 2; int a = a; a; } return a;", 0);
    assert_eq!(counter, 2);
    assert_eq!(
        items.unwrap(),
        vec![
            declare("a.0", Some(Expr::Constant(1))),
            BlockItem::Statement(Stmt::Compound(Block {
                items: vec![
                    BlockItem::Statement(Stmt::Expression(Expr::Assignment {
                        operator: AssignmentOp::Equal,
                        left: Box::new(variable("a.0")),
                        right: Box::new(Expr::Constant(2)),
                    })),
                    // The initializer is in the scope of the new variable.
                    declare("a.1", Some(variable("a.1"))),
                    BlockItem::Statement(Stmt::Expression(variable("a.1"))),
                ],
            })),
            BlockItem::Statement(Stmt::Return(variable("a.0"))),
        ]
    );
}

#[test]
fn a_for_loop_has_a_scope_of_its_own() {
    let (items, counter) =
        resolved_variables("int i = 9; for (int i = 0; i < 3; i++) { int i = 5; } return i;", 0);
    assert_eq!(counter, 3);
    let items = items.unwrap();
    let mut names = Vec::new();
    declared(&items, &mut names);
    assert_eq!(names, vec!["i.0", "i.1", "i.2"]);
    assert_eq!(items[2], BlockItem::Statement(Stmt::Return(variable("i.0"))));
}

#[test]
fn no_two_declarations_bind_the_same_name() {
    let (items, counter) = resolved_variables(
        "int a; int b; { int a; { int a; int b; } if (a) { int a; } else { int b; } } \
         for (int a = 0;;) { int a; while (1) { int a; } do { int b; } while (0); }",
        7,
    );
    let mut names = Vec::new();
    declared(&items.unwrap(), &mut names);
    assert_eq!(names.len(), 11);
    assert_eq!(counter, 18);
    let mut sorted = names.clone();
    sorted.sort();
    sorted.dedup();
    assert_eq!(sorted.len(), names.len());
    assert!(!has_duplicates(&names));
}

#[test]
fn variable_errors() {
    let cases = [
        ("int a; int a;", ResolveError::DuplicateDeclaration),
        ("int a; { int b; int b; }", ResolveError::DuplicateDeclaration),
        ("for (int i = 0;;) ; i;", ResolveError::UndeclaredVariable),
        ("a;", ResolveError::UndeclaredVariable),
        ("int a = b; int b;", ResolveError::UndeclaredVariable),
        ("int a; 2 = a;", ResolveError::InvalidLValue),
        ("int a; -a = 1;", ResolveError::InvalidLValue),
        ("int a; a++ = 1;", ResolveError::InvalidLValue),
        ("int a; ++a++;", ResolveError::InvalidLValue),
        ("int a; --3;", ResolveError::InvalidLValue),
        ("int a; (a = 1)--;", ResolveError::InvalidLValue),
        ("int a; a ? a : a = 1;", ResolveError::InvalidLValue),
        // The right operand of a binary operator is resolved first.
        ("int a; (1 = a) + b;", ResolveError::UndeclaredVariable),
        // The target of an assignment is checked before its operands.
        ("1 = b;", ResolveError::InvalidLValue),
    ];
    for (body, expected) in cases {
        let (result, _) = resolved_variables(body, 0);
        assert_eq!(result, Err(Error::Resolver(expected)), "{body}");
    }
}

#[test]
fn a_failed_resolution_leaves_the_program_as_it_was() {
    let source = "int main(void) { int a; b; }";
    let mut lexer = Lexer::new(source);
    lexer.tokenize().unwrap();
    let mut parser = Parser::new(&lexer);
    let mut program = parser.parse().unwrap();
    let mut other = Parser::new(&lexer);
    let untouched = other.parse().unwrap();
    let mut resolver = VarResolver::new(5);
    assert!(resolver.resolve_program(&mut program).is_err());
    assert_eq!(program, untouched);
    assert_eq!(resolver.counter, 5);
    let mut labels = LabelResolver::new(7);
    let source = "int main(void) { while (1) { while (2) ; } break; }";
    let mut lexer = Lexer::new(source);
    lexer.tokenize().unwrap();
    let mut program = Parser::new(&lexer).parse().unwrap();
    let untouched = Parser::new(&lexer).parse().unwrap();
    assert_eq!(
        labels.resolve_program(&mut program),
        Err(Error::Resolver(ResolveError::InvalidBreakOrContinue))
    );
    assert_eq!(program, untouched);
    assert_eq!(labels.counter, 7);
}

#[test]
fn loops_get_labels_and_jumps_get_the_label_of_their_loop() {
    let (items, counter) = labelled(
        "while (1) { break; do { continue; } while (0); continue; } for (;;) break;",
        5,
    );
    assert_eq!(counter, 8);
    assert_eq!(
        items.unwrap(),
        vec![
            BlockItem::Statement(Stmt::While {
                condition: Expr::Constant(1),
                body: Box::new(Stmt::Compound(Block {
                    items: vec![
                        BlockItem::Statement(Stmt::Break { label: Some("loop.5".to_string()) }),
                        BlockItem::Statement(Stmt::DoWhile {
                            body: Box::new(Stmt::Compound(Block {
                                items: vec![BlockItem::Statement(Stmt::Continue {
                                    label: Some("loop.6".to_string()),
                                })],
                            })),
                            condition: Expr::Constant(0),
                            label: Some("loop.6".to_string()),
                        }),
                        BlockItem::Statement(Stmt::Continue { label: Some("loop.5".to_string()) }),
                    ],
                })),
                label: Some("loop.5".to_string()),
            }),
            BlockItem::Statement(Stmt::For {
                init: ForInit::InitExp(None),
                condition: None,
                post: None,
                body: Box::new(Stmt::Break { label: Some("loop.7".to_string()) }),
                label: Some("loop.7".to_string()),
            }),
        ]
    );
}

#[test]
fn label_errors() {
    let cases = [
        ("break;", ResolveError::InvalidBreakOrContinue),
        ("continue;", ResolveError::InvalidBreakOrContinue),
        ("while (1) ; break;", ResolveError::InvalidBreakOrContinue),
        ("{ if (1) ; else continue; }", ResolveError::InvalidBreakOrContinue),
        ("goto a;", ResolveError::UndefinedLabel),
        ("a: goto b;", ResolveError::UndefinedLabel),
        ("a: ; { a: ; }", ResolveError::DuplicateLabel),
        ("a: while (1) { a: ; }", ResolveError::DuplicateLabel),
        // A label that is declared twice is found before anything else.
        ("break; a: a: ;", ResolveError::DuplicateLabel),
        // The statements are checked in the order of the text.
        ("goto a; break;", ResolveError::UndefinedLabel),
        ("break; goto a;", ResolveError::InvalidBreakOrContinue),
    ];
    for (body, expected) in cases {
        let (result, _) = labelled(body, 0);
        assert_eq!(result, Err(Error::Resolver(expected)), "{body}");
    }
}

#[test]
fn a_goto_may_jump_forward_and_into_blocks() {
    let (items, counter) = labelled("goto b; a: ; { b: goto a; }", 3);
    assert_eq!(counter, 3);
    assert_eq!(
        items.unwrap(),
        vec![
            BlockItem::Statement(Stmt::Goto("b".to_string())),
            BlockItem::Statement(Stmt::Label("a".to_string(), Box::new(Stmt::Null))),
            BlockItem::Statement(Stmt::Compound(Block {
                items: vec![BlockItem::Statement(Stmt::Label(
                    "b".to_string(),
                    Box::new(Stmt::Goto("a".to_string()))
                ))],
            })),
        ]
    );
}

#[test]
fn the_resolver_runs_both_passes_with_one_counter() {
    let source = "int main(void) { int a = 0; while (a < 3) { int b = a; a = b + 1; } return a; }";
    let mut lexer = Lexer::new(source);
    lexer.tokenize().unwrap();
    let mut parser = Parser::new(&lexer);
    let mut program = parser.parse().unwrap();
    let mut resolver = Resolver::new(10);
    assert_eq!(resolver.resolve_program(&mut program), Ok(()));
    assert_eq!(resolver.counter, 13);
    let Program::Function(function) = program;
    assert_eq!(function.body.items[0], declare("a.10", Some(Expr::Constant(0))));
    match &function.body.items[1] {
        BlockItem::Statement(Stmt::While { label, body, .. }) => {
            assert_eq!(label.as_deref(), Some("loop.12"));
            match body.as_ref() {
                Stmt::Compound(block) => {
                    assert_eq!(block.items[0], declare("b.11", Some(variable("a.10"))))
                }
                other => panic!("expected a block, got {other:?}"),
            }
        }
        other => panic!("expected a loop, got {other:?}"),
    }
}

#[test]
fn the_resolver_reports_the_first_pass_that_fails() {
    for (source, expected) in [
        ("int main(void) { a; break; }", ResolveError::UndeclaredVariable),
        ("int main(void) { int a; break; }", ResolveError::InvalidBreakOrContinue),
    ] {
        let mut lexer = Lexer::new(source);
        lexer.tokenize().unwrap();
        let mut parser = Parser::new(&lexer);
        let mut program = parser.parse().unwrap();
        let untouched = Parser::new(&lexer).parse().unwrap();
        let mut resolver = Resolver::new(3);
        assert_eq!(resolver.resolve_program(&mut program), Err(Error::Resolver(expected)));
        assert_eq!(program, untouched);
        assert_eq!(resolver.counter, 3);
    }
}

#[test]
fn copies_are_equal_to_what_they_copy() {
    let expr = Expr::Conditional {
        condition: Box::new(Expr::Unary {
            operator: comp::ast::UnaryOp::Not,
            right: Box::new(variable("a")),
        }),
        then_branch: Box::new(Expr::Assignment {
            operator: AssignmentOp::PlusEqual,
            left: Box::new(variable("b")),
            right: Box::new(Expr::Constant(-3)),
        }),
        else_branch: Box::new(Expr::Binary {
            operator: BinaryOp::Xor,
            left: Box::new(variable("c")),
            right: Box::new(Expr::Constant(8)),
        }),
    };
    assert_eq!(clone_expr(&expr), expr);
    assert_eq!(clone_optional_expr(&None), None);
    assert_eq!(clone_optional_expr(&Some(clone_expr(&expr))), Some(clone_expr(&expr)));
    let decleration = Decleration::Decleration { name: "d".to_string(), init: Some(expr) };
    assert_eq!(clone_decleration(&decleration), decleration);
    assert_eq!(clone_label(&Some("loop.1".to_string())), Some("loop.1".to_string()));
    assert_eq!(clone_label(&None), None);
}
