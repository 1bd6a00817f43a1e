use vstd::prelude::*;

use crate::backend::{spec_generate, CodeGenerator, CodegenError};
use crate::diagnostics::{spec_has_errors, DiagHandler, DiagView};
use crate::irgenerator::{spec_gen_stmts, spec_with_main, GState, IrError, IrGenerator};
use crate::lexer::{spec_tokenize, LexError, LexState, Lexer, SymbolTable};
use crate::parser::{spec_program, PState, ParseError, Parser};
use crate::semantics::{spec_sema_stmts, SState, Sema, SemaError};

verus! {

/// Where the source is, and where and under which name the program goes.
pub struct CompileOptions {
    pub src_pth: String,
    pub dst_pth: String,
    pub dst_name: String,
    /// Flags with their values.
    pub options: Vec<(String, String)>,
}

pub struct Compiler {
    pub has_errors: bool,
    pub has_warns: bool,
    pub has_notes: bool,
}

/// Why a compilation stopped.
pub enum CompileError {
    Lex(LexError),
    Parse(ParseError),
    Sema(SemaError),
    /// Checking found errors; these are all the diagnostics.
    Rejected(DiagHandler),
    Ir(IrError),
    Codegen(CodegenError),
}

pub enum CompileErrorV {
    Lex(LexError),
    Parse(ParseError),
    Sema(SemaError),
    Rejected(Seq<DiagView>),
    Ir(IrError),
    Codegen(CodegenError),
}

pub open spec fn error_view(e: CompileError) -> CompileErrorV {
    match e {
        CompileError::Lex(x) => CompileErrorV::Lex(x),
        CompileError::Parse(x) => CompileErrorV::Parse(x),
        CompileError::Sema(x) => CompileErrorV::Sema(x),
        CompileError::Rejected(d) => CompileErrorV::Rejected(d@),
        CompileError::Ir(x) => CompileErrorV::Ir(x),
        CompileError::Codegen(x) => CompileErrorV::Codegen(x),
    }
}

pub open spec fn result_view(r: Result<String, CompileError>) -> Result<Seq<char>, CompileErrorV> {
    match r {
        Ok(s) => Ok(s@),
        Err(e) => Err(error_view(e)),
    }
}

pub open spec fn initial_lex_state() -> LexState {
    LexState { tokens: Seq::empty(), buf: Seq::empty(), line: 1, col: 1, syms: Seq::empty() }
}

/// The whole pipeline on a source text: tokens, syntax tree, checked and
/// typed tree (refused when checking found an error), intermediate language,
/// assembly text.
pub open spec fn spec_compile(src: Seq<char>) -> Result<Seq<char>, CompileErrorV> {
    let (lst, le) = spec_tokenize(src, initial_lex_state());
    match le {
        Some(e) => Err(CompileErrorV::Lex(e)),
        None => match spec_program(lst.tokens, PState { pos: 0, diags: Seq::empty(), fns: Seq::empty() }) {
            Err(e) => Err(CompileErrorV::Parse(e)),
            Ok((ps, stmts)) => match spec_sema_stmts(
                lst.syms,
                SState { diags: ps.diags, cached: Seq::empty() },
                Seq::empty(),
                stmts,
            ) {
                Err(e) => Err(CompileErrorV::Sema(e)),
                Ok((ss, _, typed)) => if spec_has_errors(ss.diags) {
                    Err(CompileErrorV::Rejected(ss.diags))
                } else {
                    match spec_gen_stmts(lst.syms, GState { regs: 0, labels: 0, fns: Seq::empty() }, typed) {
                        Err(e) => Err(CompileErrorV::Ir(e)),
                        Ok((g, top)) => match spec_generate(Seq::empty(), 0, Seq::empty(), spec_with_main(g.fns, top)) {
                            Err(e) => Err(CompileErrorV::Codegen(e)),
                            Ok(t) => Ok(t),
                        },
                    }
                },
            },
        },
    }
}

impl Compiler {
    /// Compiles a source text to assembly text for the target named by
    /// `arch`.
    pub fn compile_to_asm(source: &str, arch: &str) -> (r: Result<String, CompileError>)
        requires
            2 * source@.len() + 3 < usize::MAX,
            source@.len() + 1 < u32::MAX,
        ensures
            result_view(r) == spec_compile(source@),
    {
        let mut lex = Lexer::new();
        match lex.tokenize(source) {
            Ok(()) => {},
            Err(e) => {
                return Err(CompileError::Lex(e));
            },
        }
        let diagnostics = DiagHandler::new();
        let mut parser = Parser::new(lex, diagnostics);
        let mut program = match parser.create_program() {
            Ok(p) => p,
            Err(e) => {
                return Err(CompileError::Parse(e));
            },
        };
        let (_lex, diagnostics) = parser.into_parts();
        let mut symbol_table = SymbolTable::new();
        std::mem::swap(&mut symbol_table, &mut program.sym);
        let mut sema = Sema::new(program, diagnostics, symbol_table);
        match sema.validate_program() {
            Ok(()) => {},
            Err(e) => {
                return Err(CompileError::Sema(e));
            },
        }
        let (program, diagnostics, symbol_table) = sema.into_parts();
        if diagnostics.has_errors() {
            return Err(CompileError::Rejected(diagnostics));
        }
        let mut irgenerator = IrGenerator::new(program, diagnostics, symbol_table);
        match irgenerator.emit_klir(arch) {
            Ok(()) => {},
            Err(e) => {
                return Err(CompileError::Ir(e));
            },
        }
        let mut backend = CodeGenerator::new(irgenerator.into_scopes());
        match backend.generate() {
            Ok(()) => {},
            Err(e) => {
                return Err(CompileError::Codegen(e));
            },
        }
        Ok(backend.into_text())
    }
}

} // verus!
