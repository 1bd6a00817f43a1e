use klc::ast::{Program, Type, UnionNode};
use klc::diagnostics::{DiagHandler, Diagnostic, Severity};
use klc::lexer::{Lexer, SymbolTable};
use klc::parser::Parser;
use klc::semantics::{Sema, SemaError};

fn analyze(src: &str) -> (Result<(), SemaError>, Program, Vec<Diagnostic>) {
    let mut lex = Lexer::new();
    lex.tokenize(src).expect("tokenizes");
    let mut p = Parser::new(lex, DiagHandler::new());
    let mut program = p.create_program().expect("parses");
    let (_lex, diag) = p.into_parts();
    let sym = std::mem::replace(&mut program.sym, SymbolTable::new());
    let mut sema = Sema::new(program, diag, sym);
    let r = sema.validate_program();
    let (program, diag, _sym) = sema.into_parts();
    (r, program, diag.diagnostics)
}

fn msgs(d: &[Diagnostic]) -> Vec<(Severity, String)> {
    d.iter().map(|x| (x.severity, x.msg.clone())).collect()
}

#[test]
fn declaration_and_use_are_typed() {
    let (r, p, d) = analyze("let x = 5; exit x;");
    assert_eq!(r, Ok(()));
    assert!(d.is_empty());
    match &p.stmts[0] {
        UnionNode::VarDecl(decl) => {
            assert_eq!(decl.ty, Some(Type::I32));
            assert_eq!(decl.value.ty, Some(Type::I32));
        }
        other => panic!("{:?}", other),
    }
    match &p.stmts[1] {
        UnionNode::StmtExit(x) => assert_eq!(x.exit_code.ty, Some(Type::I32)),
        other => panic!("{:?}", other),
    }
}

#[test]
fn every_node_of_a_declared_value_gets_the_declared_type() {
    let (r, p, _) = analyze("let x = 3000000000 + 1;");
    assert_eq!(r, Ok(()));
    match &p.stmts[0] {
        UnionNode::VarDecl(decl) => {
            assert_eq!(decl.ty, Some(Type::I64));
            assert_eq!(decl.value.ty, Some(Type::I64));
            assert_eq!(decl.value.lhs.as_ref().unwrap().ty, Some(Type::I64));
            assert_eq!(decl.value.rhs.as_ref().unwrap().ty, Some(Type::I64));
        }
        other => panic!("{:?}", other),
    }
}

#[test]
fn let_cannot_be_reassigned() {
    let (r, _, d) = analyze("let x = 5; x = 6;");
    assert_eq!(r, Ok(()));
    assert_eq!(
        msgs(&d),
        vec![
            (Severity::Error, "cannot re-assign `x` declared with `let`".to_string()),
            (Severity::Note, "consider using `mut` instead".to_string()),
        ]
    );
}

#[test]
fn mut_can_be_reassigned() {
    let (r, _, d) = analyze("mut x = 5; x = 6;");
    assert_eq!(r, Ok(()));
    assert!(d.is_empty());
}

#[test]
fn assignment_to_undeclared_variable() {
    let (r, _, d) = analyze("y = 1;");
    assert_eq!(r, Ok(()));
    assert_eq!(msgs(&d), vec![(Severity::Error, "use of undeclared identifier `y`".to_string())]);
}

#[test]
fn use_of_undeclared_variable() {
    let (r, p, d) = analyze("exit y;");
    assert_eq!(r, Ok(()));
    assert_eq!(
        msgs(&d),
        vec![
            (Severity::Error, "use of undeclared identifier `y`".to_string()),
            (Severity::Error, "could not resolve symbol or type for `y`".to_string()),
        ]
    );
    match &p.stmts[0] {
        UnionNode::StmtExit(x) => assert_eq!(x.exit_code.ty, None),
        other => panic!("{:?}", other),
    }
}

#[test]
fn literal_beyond_i32_defaults_to_i64() {
    let (r, p, d) = analyze("let big = 3000000000;");
    assert_eq!(r, Ok(()));
    assert!(d.is_empty());
    match &p.stmts[0] {
        UnionNode::VarDecl(decl) => assert_eq!(decl.ty, Some(Type::I64)),
        other => panic!("{:?}", other),
    }
}

#[test]
fn literal_beyond_i64_stops_the_analysis() {
    let (r, _, d) = analyze("let huge = 10000000000000000000;");
    assert_eq!(r, Err(SemaError::Abort));
    assert_eq!(
        msgs(&d)[..2].to_vec(),
        vec![
            (
                Severity::Error,
                "integer literal `10000000000000000000` exceeds the range of default type i64".to_string()
            ),
            (
                Severity::Note,
                "consider annotating the type at declaration `let digit: u64 = ...`".to_string()
            ),
        ]
    );
}

#[test]
fn literal_beyond_u64_is_warned_about() {
    let (r, _, d) = analyze("let huge = 100000000000000000000;");
    assert_eq!(r, Err(SemaError::Abort));
    assert_eq!(
        msgs(&d)[1],
        (
            Severity::Warn,
            "use of excessively large integer literal `100000000000000000000`; consider using a smaller value"
                .to_string()
        )
    );
}

#[test]
fn declared_type_that_does_not_fit() {
    let (r, p, d) = analyze("let a: u8 = 5;");
    assert_eq!(r, Ok(()));
    assert_eq!(
        msgs(&d),
        vec![
            (Severity::Error, "expected u8 and got i32".to_string()),
            (Severity::Note, "consider changing `u8` to `i32`".to_string()),
        ]
    );
    match &p.stmts[0] {
        UnionNode::VarDecl(decl) => assert_eq!(decl.ty, Some(Type::I32)),
        other => panic!("{:?}", other),
    }
}

#[test]
fn declared_type_that_fits() {
    let (r, p, d) = analyze("let a: i64 = 5;");
    assert_eq!(r, Ok(()));
    assert!(d.is_empty());
    match &p.stmts[0] {
        UnionNode::VarDecl(decl) => {
            assert_eq!(decl.decl_type, Some(Type::I64));
            assert_eq!(decl.ty, Some(Type::I64));
            assert_eq!(decl.value.ty, Some(Type::I64));
        }
        other => panic!("{:?}", other),
    }
}

#[test]
fn block_declarations_stay_in_the_block() {
    let (r, _, d) = analyze("{ let x = 1; } exit x;");
    assert_eq!(r, Ok(()));
    assert_eq!(msgs(&d), vec![(Severity::Error, "use of undeclared identifier `x`".to_string())]);
}

#[test]
fn outer_variables_are_visible_in_blocks() {
    let (r, _, d) = analyze("let x = 1; { exit x; } while x { exit x; }");
    assert_eq!(r, Ok(()));
    assert!(d.is_empty(), "{:?}", d);
}

#[test]
fn function_definitions_stop_the_analysis() {
    let (r, _, _) = analyze("fn main() { exit 0; }");
    assert_eq!(r, Err(SemaError::Abort));
}

#[test]
fn earlier_diagnostics_stay_first() {
    let (r, _, d) = analyze("let x = 5 x = 6;");
    assert_eq!(r, Ok(()));
    assert_eq!(
        msgs(&d),
        vec![
            (Severity::Error, "expected `;`".to_string()),
            (Severity::Error, "cannot re-assign `x` declared with `let`".to_string()),
            (Severity::Note, "consider using `mut` instead".to_string()),
        ]
    );
}

#[test]
fn nested_declarations_are_typed_throughout() {
    let (r, p, d) = analyze("mut x = 1; while x { let y = 3000000000 + 2 * 3; }");
    assert_eq!(r, Ok(()));
    assert!(d.is_empty(), "{:?}", d);
    match &p.stmts[1] {
        UnionNode::StmtWhile(w) => match &w.scope.stmts[0] {
            UnionNode::VarDecl(decl) => {
                assert_eq!(decl.ty, Some(Type::I64));
                let v = &decl.value;
                assert_eq!(v.ty, Some(Type::I64));
                let rhs = v.rhs.as_ref().unwrap();
                assert_eq!(rhs.ty, Some(Type::I64));
                assert_eq!(rhs.lhs.as_ref().unwrap().ty, Some(Type::I64));
                assert_eq!(rhs.rhs.as_ref().unwrap().ty, Some(Type::I64));
            }
            other => panic!("{:?}", other),
        },
        other => panic!("{:?}", other),
    }
}
