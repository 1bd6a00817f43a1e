use klc::ast::Type;
use klc::compiler::{CompileError, Compiler};
use klc::diagnostics::{DiagHandler, Diagnostic, Severity};
use klc::irgenerator::{IrGenerator, Target};
use klc::lexer::{LexError, Lexer, LocData, Op};
use klc::parser::{ParseError, Parser};
use klc::semantics::{Sema, SemaError};

#[test]
fn top_level_statements_compile_into_main() {
    let r = Compiler::compile_to_asm("let x = 5; exit x;", "aarch64");
    assert_eq!(
        r.ok(),
        Some(
            ".global _main\n.align 4\n_main:\n    mov     w8, 0x5\n    str     w8, [sp, 0]\n    ldrsw   x0, [sp, 0]\n    bl      _exit\n    add     sp, sp, 0\n    sub     sp, sp, 0\n"
                .to_string()
        )
    );
}

#[test]
fn empty_source_compiles_to_the_entry_frame() {
    let r = Compiler::compile_to_asm("", "aarch64");
    assert_eq!(
        r.ok(),
        Some(".global _main\n.align 4\n    add     sp, sp, 0\n    sub     sp, sp, 0\n".to_string())
    );
}

#[test]
fn checking_errors_refuse_the_program() {
    match Compiler::compile_to_asm("let x = 5; x = 6;", "aarch64") {
        Err(CompileError::Rejected(d)) => {
            assert!(d.has_errors());
            assert_eq!(d.diagnostics[0].msg, "cannot re-assign `x` declared with `let`");
        }
        Ok(_) => panic!("compiled"),
        Err(_) => panic!("wrong error"),
    }
}

#[test]
fn parse_errors_also_refuse_the_program() {
    match Compiler::compile_to_asm("let x = 5 exit x;", "aarch64") {
        Err(CompileError::Rejected(d)) => {
            assert_eq!(d.diagnostics.len(), 1);
            assert_eq!(d.diagnostics[0].msg, "expected `;`");
        }
        _ => panic!("not refused"),
    }
}

#[test]
fn lexer_error_is_passed_on() {
    assert!(matches!(
        Compiler::compile_to_asm("exit 999999999999999999999999999999999999999999;", "aarch64"),
        Err(CompileError::Lex(LexError::IntLitOverflow))
    ));
}

#[test]
fn parser_stop_is_passed_on() {
    assert!(matches!(
        Compiler::compile_to_asm("exit 1 $ 2;", "aarch64"),
        Err(CompileError::Parse(ParseError::Abort))
    ));
}

#[test]
fn analysis_stop_is_passed_on() {
    assert!(matches!(
        Compiler::compile_to_asm("fn main() { exit 0; }", "aarch64"),
        Err(CompileError::Sema(SemaError::Abort))
    ));
}

#[test]
fn stages_run_one_after_another() {
    let mut lex = Lexer::new();
    lex.tokenize("mut x = 1; while x { x = x - 1; }").unwrap();
    let mut parser = Parser::new(lex, DiagHandler::new());
    let mut program = parser.create_program().unwrap();
    let (_lex, diag) = parser.into_parts();
    let sym = std::mem::replace(&mut program.sym, klc::lexer::SymbolTable::new());
    let mut sema = Sema::new(program, diag, sym);
    sema.validate_program().unwrap();
    let (program, diag, sym) = sema.into_parts();
    assert!(!diag.has_errors());
    let mut gen = IrGenerator::new(program, diag, sym);
    gen.emit_klir("x86_64").unwrap();
    assert_eq!(gen.target, Target::X86_64);
    let scopes = gen.into_scopes();
    assert_eq!(scopes.len(), 1);
    assert_eq!(scopes[0].id, "main");
}

#[test]
fn diagnostics_record_severity() {
    let mut d = DiagHandler::new();
    assert!(!d.has_errors());
    d.push_warn(LocData { line: 1, col: 2 }, "w");
    d.push_note(LocData { line: 1, col: 2 }, "n");
    assert!(!d.has_errors());
    d.push_err(LocData { line: 3, col: 4 }, "e");
    assert!(d.has_errors());
    assert_eq!(d.diagnostics.len(), 3);
    assert_eq!(d.diagnostics[2].severity, Severity::Error);
}

#[test]
fn diagnostic_text() {
    let e = Diagnostic { severity: Severity::Error, loc: LocData { line: 3, col: 14 }, msg: "bad".to_string() };
    assert_eq!(e.to_text(), "[3:14] \x1b[0;91mError\x1b[0m: bad");
    let w = Diagnostic { severity: Severity::Warn, loc: LocData { line: 1, col: 2 }, msg: "hm".to_string() };
    assert_eq!(w.to_text(), "[1:2] \x1b[1;93mWarn\x1b[0m: hm");
    assert_eq!(Severity::Note.text(), "\x1b[1;95mNote\x1b[0m");
}

#[test]
fn type_fitting() {
    assert!(Type::I8.is_digit_convertible_to(&Type::I16));
    assert!(!Type::I16.is_digit_convertible_to(&Type::I8));
    assert!(!Type::U8.is_digit_convertible_to(&Type::I8));
    assert!(!Type::U8.is_digit_convertible_to(&Type::I16));
    assert!(Type::I32.is_digit_convertible_to(&Type::F64));
    assert!(!Type::I64.is_digit_convertible_to(&Type::F64));
    assert!(!Type::U16.is_digit_convertible_to(&Type::F32));
    assert!(Type::I32.is_digit_convertible_to(&Type::I32));
    assert!(!Type::Bool.is_digit_convertible_to(&Type::Bool));
    assert!(!Type::F32.is_digit_convertible_to(&Type::I32));
    assert!(!Type::F64.is_digit_convertible_to(&Type::I64));
    assert!(!Type::I32.is_digit_convertible_to(&Type::F32));
    assert!(Type::F32.is_digit_convertible_to(&Type::F64));
    assert!(Type::I16.is_signed());
    assert!(!Type::U64.is_signed());
    assert_eq!(Type::U16.name(), "u16");
    assert_eq!(Type::NoType.name(), "None");
}

#[test]
fn operator_texts() {
    assert_eq!(Op::Pwr.symbol(), "**");
    assert_eq!(Op::Lsr.symbol(), ">>");
    assert_eq!(Op::Add.name(), "Add");
}
