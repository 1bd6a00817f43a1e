use klc::ast::{AtomKind, Expr, Program, Type, UnionNode, VarType};
use klc::diagnostics::{DiagHandler, Diagnostic, Severity};
use klc::lexer::{Lexer, LocData};
use klc::parser::{ParseError, Parser};

fn parse(src: &str) -> (Result<Program, ParseError>, Vec<Diagnostic>) {
    let mut lex = Lexer::new();
    lex.tokenize(src).expect("tokenizes");
    let mut p = Parser::new(lex, DiagHandler::new());
    let r = p.create_program();
    let d = p.diagnostics().diagnostics.clone();
    (r, d)
}

fn shape(e: &Expr) -> String {
    match (&e.lhs, &e.rhs) {
        (Some(l), Some(r)) => format!("({} {} {})", shape(l), e.op.symbol(), shape(r)),
        _ => match e.atom {
            AtomKind::IntLit(lit) => lit.val.to_string(),
            AtomKind::Ident(id) => format!("#{}", id.name.0),
            AtomKind::NoAtom => "_".to_string(),
        },
    }
}

fn decl_value_shape(src: &str) -> String {
    let (r, d) = parse(src);
    assert!(d.is_empty(), "unexpected diagnostics: {:?}", d);
    let p = r.expect("parses");
    match &p.stmts[0] {
        UnionNode::VarDecl(decl) => shape(&decl.value),
        other => panic!("not a declaration: {:?}", other),
    }
}

#[test]
fn power_is_right_associative() {
    assert_eq!(decl_value_shape("let x = 2 ** 3 ** 2;"), "(2 ** (3 ** 2))");
}

#[test]
fn subtraction_is_left_associative() {
    assert_eq!(decl_value_shape("let z = 10 - 4 - 3;"), "((10 - 4) - 3)");
}

#[test]
fn multiplication_binds_tighter_than_addition() {
    assert_eq!(decl_value_shape("let y = 1 + 2 * 3;"), "(1 + (2 * 3))");
    assert_eq!(decl_value_shape("let y = 1 * 2 + 3;"), "((1 * 2) + 3)");
}

#[test]
fn logic_comparison_and_equality_levels() {
    assert_eq!(
        decl_value_shape("let c = 1 < 2 && 3 == 4 || 5;"),
        "(((1 < 2) && (3 == 4)) || 5)"
    );
    assert_eq!(decl_value_shape("let c = 1 | 2 ^ 3 & 4;"), "(1 | (2 ^ (3 & 4)))");
    assert_eq!(decl_value_shape("let c = 1 << 2 + 3;"), "(1 << (2 + 3))");
}

#[test]
fn parentheses_group() {
    assert_eq!(decl_value_shape("let w = (1 + 2) * 3;"), "((1 + 2) * 3)");
    assert_eq!(decl_value_shape("let w = 2 * (1 + 2);"), "(2 * (1 + 2))");
}

#[test]
fn assignment_is_right_associative() {
    let (r, d) = parse("mut y = 0; x = y = 1;");
    assert!(d.is_empty());
    let p = r.unwrap();
    match &p.stmts[1] {
        UnionNode::VarDecl(decl) => {
            assert!(decl.is_reassign);
            assert_eq!(decl.kind, VarType::Mut);
            assert_eq!(shape(&decl.value), "(#0 = 1)");
        }
        other => panic!("not an assignment: {:?}", other),
    }
}

#[test]
fn declaration_fields() {
    let (r, d) = parse("let a: u8 = 5;");
    assert!(d.is_empty());
    let p = r.unwrap();
    assert_eq!(p.stmts.len(), 1);
    match &p.stmts[0] {
        UnionNode::VarDecl(decl) => {
            assert_eq!(decl.kind, VarType::Let);
            assert!(!decl.is_reassign);
            assert_eq!(decl.decl_type, Some(Type::U8));
            assert_eq!(decl.ty, None);
            assert_eq!(p.sym.get(decl.id.name), Some("a".to_string()));
        }
        other => panic!("not a declaration: {:?}", other),
    }
}

#[test]
fn missing_semicolon_is_reported() {
    let (r, d) = parse("let x = 5 let y = 6;");
    let p = r.unwrap();
    assert_eq!(p.stmts.len(), 2);
    assert_eq!(d.len(), 1);
    assert_eq!(d[0].severity, Severity::Error);
    assert_eq!(d[0].msg, "expected `;`");
    assert_eq!(d[0].loc, LocData { line: 1, col: 11 });
}

#[test]
fn invalid_type_specifier_is_reported() {
    let (r, d) = parse("let a: int = 5;");
    assert!(r.is_ok());
    assert_eq!(d.len(), 1);
    assert_eq!(d[0].msg, "expected valid type specifier; got KwInt instead");
}

#[test]
fn else_without_if_is_reported() {
    let (r, d) = parse("else;");
    assert_eq!(r.unwrap().stmts.len(), 0);
    assert_eq!(d.len(), 1);
    assert_eq!(d[0].severity, Severity::Error);
    assert_eq!(d[0].msg, "expected accompanying `if` statement for `else`");
}

#[test]
fn if_with_else() {
    let (r, d) = parse("if a { exit 1; } else { exit 2; }");
    assert!(d.is_empty(), "{:?}", d);
    let p = r.unwrap();
    assert_eq!(p.stmts.len(), 1);
    match &p.stmts[0] {
        UnionNode::StmtIf(x) => {
            assert_eq!(shape(&x.cond), "#0");
            assert_eq!(x.scope.stmts.len(), 1);
            assert!(matches!(x.scope.stmts[0], UnionNode::StmtExit(_)));
            assert!(x._elif.is_empty());
            let els = x._else.as_ref().expect("else branch");
            assert_eq!(els.scope.stmts.len(), 1);
            assert!(matches!(els.scope.stmts[0], UnionNode::StmtExit(_)));
        }
        other => panic!("not an if: {:?}", other),
    }
}

#[test]
fn elif_branch_is_read() {
    let (r, d) = parse("if a { exit 1; } elif b { exit 2; }");
    assert!(d.is_empty(), "{:?}", d);
    let p = r.unwrap();
    assert_eq!(p.stmts.len(), 1);
    match &p.stmts[0] {
        UnionNode::StmtIf(x) => {
            assert_eq!(x._elif.len(), 1);
            let e = x._elif[0].as_ref().expect("elif branch");
            assert_eq!(shape(&e.cond), "#1");
            assert_eq!(e.scope.stmts.len(), 1);
            assert!(x._else.is_none());
        }
        other => panic!("not an if: {:?}", other),
    }
}

#[test]
fn empty_if_elif_else() {
    let (r, d) = parse("if a { } elif b { } else { }");
    assert!(d.is_empty(), "{:?}", d);
    let p = r.unwrap();
    assert_eq!(p.stmts.len(), 1);
    match &p.stmts[0] {
        UnionNode::StmtIf(x) => {
            assert_eq!(shape(&x.cond), "#0");
            assert!(x.scope.stmts.is_empty());
            assert_eq!(x._elif.len(), 1);
            let e = x._elif[0].as_ref().expect("elif branch");
            assert_eq!(shape(&e.cond), "#1");
            assert!(e.scope.stmts.is_empty());
            assert!(x._else.as_ref().expect("else branch").scope.stmts.is_empty());
        }
        other => panic!("not an if: {:?}", other),
    }
}

#[test]
fn two_elif_branches_then_more_statements() {
    let (r, d) = parse("if a { exit 1; } elif b { exit 2; } elif c { exit 3; } else { exit 4; } exit 5;");
    assert!(d.is_empty(), "{:?}", d);
    let p = r.unwrap();
    assert_eq!(p.stmts.len(), 2);
    match &p.stmts[0] {
        UnionNode::StmtIf(x) => {
            assert_eq!(x._elif.len(), 2);
            assert_eq!(shape(&x._elif[1].as_ref().unwrap().cond), "#2");
            assert_eq!(x._else.as_ref().unwrap().scope.stmts.len(), 1);
        }
        other => panic!("not an if: {:?}", other),
    }
    assert!(matches!(p.stmts[1], UnionNode::StmtExit(_)));
}

#[test]
fn parenthesized_conditions_before_a_block() {
    let (r, d) = parse("mut x = 3; while (x > 0) { x = x - 1; } if (x == 0) { exit 1; }");
    assert!(d.is_empty(), "{:?}", d);
    let p = r.unwrap();
    assert_eq!(p.stmts.len(), 3);
    match &p.stmts[1] {
        UnionNode::StmtWhile(w) => assert_eq!(shape(&w.cond), "(#0 > 0)"),
        other => panic!("not a while: {:?}", other),
    }
    match &p.stmts[2] {
        UnionNode::StmtIf(x) => assert_eq!(shape(&x.cond), "(#0 == 0)"),
        other => panic!("not an if: {:?}", other),
    }
}

#[test]
fn while_loop() {
    let (r, d) = parse("mut x = 3; while x { x = x - 1; }");
    assert!(d.is_empty(), "{:?}", d);
    let p = r.unwrap();
    assert_eq!(p.stmts.len(), 2);
    match &p.stmts[1] {
        UnionNode::StmtWhile(w) => {
            assert_eq!(shape(&w.cond), "#0");
            assert_eq!(w.scope.stmts.len(), 1);
            match &w.scope.stmts[0] {
                UnionNode::VarDecl(decl) => {
                    assert!(decl.is_reassign);
                    assert_eq!(shape(&decl.value), "(#0 - 1)");
                }
                other => panic!("not an assignment: {:?}", other),
            }
        }
        other => panic!("not a while: {:?}", other),
    }
}

#[test]
fn exit_statement() {
    let (r, d) = parse("exit 3 + 4;");
    assert!(d.is_empty());
    let p = r.unwrap();
    match &p.stmts[0] {
        UnionNode::StmtExit(x) => assert_eq!(shape(&x.exit_code), "(3 + 4)"),
        other => panic!("not an exit: {:?}", other),
    }
}

#[test]
fn unary_minus_negates() {
    assert_eq!(decl_value_shape("let x = - 1;"), "-1");
    assert_eq!(decl_value_shape("let x = -5;"), "-5");
    assert_eq!(decl_value_shape("let x = -a * 2;"), "((0 - #1) * 2)");
    assert_eq!(decl_value_shape("let x = -2 ** 2;"), "(0 - (2 ** 2))");
    assert_eq!(decl_value_shape("let x = 3 - -2;"), "(3 - -2)");
    assert_eq!(decl_value_shape("let x = -(1 + 2);"), "(0 - (1 + 2))");
}

#[test]
fn leading_plus_gives_no_expression() {
    let (r, d) = parse("let x = +7;");
    assert!(r.is_ok());
    assert!(!d.is_empty());
    assert_eq!(d[0].msg, "expected variable declaration");
    assert_eq!(d[0].severity, Severity::Error);
}

#[test]
fn operator_after_parentheses() {
    assert_eq!(decl_value_shape("let w = (1 + 2) - 4;"), "((1 + 2) - 4)");
    assert_eq!(decl_value_shape("let w = (1 + 2) + 4;"), "((1 + 2) + 4)");
    assert_eq!(decl_value_shape("let w = (1 + 2) * 3 - 4;"), "(((1 + 2) * 3) - 4)");
}

#[test]
fn function_without_return_type() {
    let (r, d) = parse("fn foo() { exit 0; }");
    assert!(d.is_empty(), "{:?}", d);
    let p = r.unwrap();
    assert_eq!(p.stmts.len(), 1);
    match &p.stmts[0] {
        UnionNode::StmtFn(f) => {
            assert_eq!(p.sym.get(f.name), Some("foo".to_string()));
            assert!(f.args.is_none());
            assert_eq!(f.return_ty, Type::Void);
            assert_eq!(f.body.stmts.len(), 1);
            assert!(matches!(f.body.stmts[0], UnionNode::StmtExit(_)));
        }
        other => panic!("not a function: {:?}", other),
    }
}

#[test]
fn call_without_arguments() {
    let (r, d) = parse("fn f() { exit 0; } f();");
    assert!(d.is_empty(), "{:?}", d);
    let p = r.unwrap();
    assert_eq!(p.stmts.len(), 2);
    match &p.stmts[1] {
        UnionNode::Call(c) => assert!(c.args.is_none()),
        other => panic!("not a call: {:?}", other),
    }
}

#[test]
fn call_with_two_arguments() {
    let (r, d) = parse("fn g(a: i32, b: i32) -> i32 { exit a; } g(1, 2 + 3);");
    assert!(d.is_empty(), "{:?}", d);
    let p = r.unwrap();
    match &p.stmts[0] {
        UnionNode::StmtFn(f) => assert_eq!(f.args.as_ref().map(|a| a.len()), Some(2)),
        other => panic!("not a function: {:?}", other),
    }
    match &p.stmts[1] {
        UnionNode::Call(c) => {
            let a = c.args.as_ref().expect("arguments");
            assert_eq!(a.len(), 2);
            assert_eq!(shape(&a[0]), "1");
            assert_eq!(shape(&a[1]), "(2 + 3)");
        }
        other => panic!("not a call: {:?}", other),
    }
}

#[test]
fn function_definition_records_its_return_type() {
    let (r, d) = parse("fn f(a: i32) -> u8 { exit a; }");
    assert!(d.is_empty(), "{:?}", d);
    let p = r.unwrap();
    assert_eq!(p.fns.len(), 1);
    assert_eq!(p.fns[0].1, Type::U8);
    match &p.stmts[0] {
        UnionNode::StmtFn(f) => {
            assert_eq!(f.return_ty, Type::U8);
            assert_eq!(f.args.as_ref().map(|a| a.len()), Some(1));
            assert_eq!(f.body.stmts.len(), 1);
        }
        other => panic!("not a function: {:?}", other),
    }
}

#[test]
fn earlier_diagnostics_are_kept_in_front() {
    let mut lex = Lexer::new();
    lex.tokenize("let x = 5 let y = 6;").unwrap();
    let mut diag = DiagHandler::new();
    diag.push_warn(LocData { line: 9, col: 9 }, "before");
    let mut p = Parser::new(lex, diag);
    assert!(p.create_program().is_ok());
    let d = &p.diagnostics().diagnostics;
    assert_eq!(d.len(), 2);
    assert_eq!(d[0].msg, "before");
    assert_eq!(d[0].severity, Severity::Warn);
    assert_eq!(d[1].msg, "expected `;`");
}

#[test]
fn the_program_takes_the_symbol_table() {
    let mut lex = Lexer::new();
    lex.tokenize("let x = 5;\nexit x;").unwrap();
    let mut p = Parser::new(lex, DiagHandler::new());
    let prog = p.create_program().unwrap();
    assert_eq!(prog.stmts.len(), 2);
    assert_eq!(prog.sym.get(klc::lexer::Symbol(0)), Some("x".to_string()));
    assert!(prog.fns.is_empty());
    let (lex, diag) = p.into_parts();
    assert!(lex.sym.symbols.is_empty());
    assert!(diag.diagnostics.is_empty());
}
