use std::rc::Rc;
use vstd::prelude::*;
use vstd::string::*;

use crate::assoc::{assoc_copy, assoc_get, assoc_insert, assoc_lookup, assoc_set};
use crate::ast::{
    elifs_view, if_view, lemma_elifs_view_push, lemma_nodes_view_push, node_view, nodes_view,
    scope_view, spec_convertible, spec_type_name, while_view, AtomKind, ElifV, ElseV, Expr, NodeV, Program, Scope, ScopeV, StmtElif, StmtElse,
    StmtExit, StmtIf, StmtIfV, StmtWhile, Type, UnionNode, VarDecl, VarType, WhileV,
};
use crate::diagnostics::{DiagHandler, DiagView, Severity};
use crate::lexer::{LocData, Symbol, SymbolTable};
use crate::text::{push_int, spec_int_text};

verus! {

/// Semantic analysis stopped on a tree it cannot type: a value whose type
/// fits no integer type, or a node of a form the checker does not handle.
#[derive(Debug, Clone, Copy, PartialEq, Eq, Structural)]
pub enum SemaError {
    Abort,
}

/// What the analysis carries from one statement to the next: the diagnostics,
/// and the type of every variable declared so far (in any block).
pub struct SState {
    pub diags: Seq<DiagView>,
    pub cached: Seq<(Symbol, Type)>,
}

pub open spec fn sdiag(st: SState, severity: Severity, loc: LocData, msg: Seq<char>) -> SState {
    SState { diags: st.diags.push(DiagView { severity, loc, msg }), ..st }
}

/// The name of a symbol, if the table has it.
pub open spec fn sym_name(syms: Seq<Seq<char>>, s: Symbol) -> Option<Seq<char>> {
    if s.0 < syms.len() {
        Some(syms[s.0 as int])
    } else {
        None
    }
}

pub open spec fn fits_i32(v: i128) -> bool {
    i32::MIN <= v <= i32::MAX
}

pub open spec fn fits_i64(v: i128) -> bool {
    i64::MIN <= v <= i64::MAX
}

pub open spec fn fits_u64(v: i128) -> bool {
    0 <= v <= u64::MAX
}

/// The default type of an integer literal: `i32`, else `i64`, else none (with
/// an error and a hint).
pub open spec fn spec_int_resolution(st: SState, val: i128, loc: LocData) -> (SState, Option<Type>) {
    if fits_i32(val) {
        (st, Some(Type::I32))
    } else if fits_i64(val) {
        (st, Some(Type::I64))
    } else {
        let s1 = sdiag(
            st,
            Severity::Error,
            loc,
            "integer literal `"@ + spec_int_text(val as int) + "` exceeds the range of default type i64"@,
        );
        if fits_u64(val) {
            (
                sdiag(
                    s1,
                    Severity::Note,
                    loc,
                    "consider annotating the type at declaration `let digit: u64 = ...`"@,
                ),
                None,
            )
        } else {
            (
                sdiag(
                    s1,
                    Severity::Warn,
                    loc,
                    "use of excessively large integer literal `"@ + spec_int_text(val as int)
                        + "`; consider using a smaller value"@,
                ),
                None,
            )
        }
    }
}

/// The narrowest type that holds an integer literal, signed types first.
pub open spec fn spec_resolve_int(val: i128) -> Option<Type> {
    if i8::MIN <= val <= i8::MAX {
        Some(Type::I8)
    } else if i16::MIN <= val <= i16::MAX {
        Some(Type::I16)
    } else if fits_i32(val) {
        Some(Type::I32)
    } else if fits_i64(val) {
        Some(Type::I64)
    } else if 0 <= val <= u8::MAX {
        Some(Type::U8)
    } else if 0 <= val <= u16::MAX {
        Some(Type::U16)
    } else if 0 <= val <= u32::MAX {
        Some(Type::U32)
    } else if fits_u64(val) {
        Some(Type::U64)
    } else {
        None
    }
}

pub open spec fn boxed(e: Option<Expr>) -> Option<Box<Expr>> {
    match e {
        Some(x) => Some(Box::new(x)),
        None => None,
    }
}

/// The expression with every node's type set to `ty`.
pub open spec fn spec_set_all_types(e: Expr, ty: Type) -> Expr
    decreases e,
{
    Expr {
        lhs: match e.lhs {
            Some(l) => Some(Box::new(spec_set_all_types(*l, ty))),
            None => None,
        },
        rhs: match e.rhs {
            Some(r) => Some(Box::new(spec_set_all_types(*r, ty))),
            None => None,
        },
        ty: Some(ty),
        ..e
    }
}

/// Types an expression bottom-up in a scope.
pub open spec fn spec_sema_expr(
    syms: Seq<Seq<char>>,
    st: SState,
    scope: Seq<(Symbol, VarType)>,
    e: Expr,
) -> Result<(SState, Expr), SemaError>
    decreases e,
{
    let rl: Result<(SState, Option<Expr>), SemaError> = match e.lhs {
        Some(l) => match spec_sema_expr(syms, st, scope, *l) {
            Ok((s, x)) => Ok((s, Some(x))),
            Err(x) => Err(x),
        },
        None => Ok((st, None)),
    };
    match rl {
        Err(x) => Err(x),
        Ok((s1, nl)) => {
            let rr: Result<(SState, Option<Expr>), SemaError> = match e.rhs {
                Some(r) => match spec_sema_expr(syms, s1, scope, *r) {
                    Ok((s, x)) => Ok((s, Some(x))),
                    Err(x) => Err(x),
                },
                None => Ok((s1, None)),
            };
            match rr {
                Err(x) => Err(x),
                Ok((s2, nr)) => {
                    let base = Expr { lhs: boxed(nl), rhs: boxed(nr), ..e };
                    match e.atom {
                        AtomKind::Ident(id) => {
                            let s3r: Result<SState, SemaError> = if assoc_get(scope, id.name) is None {
                                match sym_name(syms, id.name) {
                                    None => Err(SemaError::Abort),
                                    Some(n) => Ok(
                                        sdiag(
                                            s2,
                                            Severity::Error,
                                            id.loc,
                                            "use of undeclared identifier `"@ + n + "`"@,
                                        ),
                                    ),
                                }
                            } else {
                                Ok(s2)
                            };
                            match s3r {
                                Err(x) => Err(x),
                                Ok(s3) => match assoc_get(s3.cached, id.name) {
                                    Some(t) => Ok((s3, Expr { ty: Some(t), ..base })),
                                    None => match sym_name(syms, id.name) {
                                        None => Err(SemaError::Abort),
                                        Some(n) => Ok(
                                            (
                                                sdiag(
                                                    s3,
                                                    Severity::Error,
                                                    id.loc,
                                                    "could not resolve symbol or type for `"@ + n
                                                        + "`"@,
                                                ),
                                                Expr { ty: None, ..base },
                                            ),
                                        ),
                                    },
                                },
                            }
                        },
                        AtomKind::IntLit(lit) => {
                            let (s3, t) = spec_int_resolution(s2, lit.val, lit.loc);
                            Ok((s3, Expr { ty: t, ..base }))
                        },
                        AtomKind::NoAtom => match (nl, nr) {
                            (Some(l), Some(r)) => match (l.ty, r.ty) {
                                (Some(lt), Some(rt)) => if lt != rt && !spec_convertible(lt, rt)
                                    && !spec_convertible(rt, lt) {
                                    Ok(
                                        (
                                            sdiag(
                                                s2,
                                                Severity::Error,
                                                l.loc,
                                                "incompatible types found in expression `"@
                                                    + spec_type_name(lt) + "` & `"@ + spec_type_name(
                                                    rt,
                                                ) + "`"@,
                                            ),
                                            Expr { ty: Some(Type::NoType), ..base },
                                        ),
                                    )
                                } else {
                                    Ok((s2, Expr { ty: Some(lt), ..base }))
                                },
                                _ => Err(SemaError::Abort),
                            },
                            (Some(l), None) => Ok((s2, Expr { ty: l.ty, ..base })),
                            (None, Some(r)) => Ok((s2, Expr { ty: r.ty, ..base })),
                            (None, None) => Ok((s2, Expr { ty: None, ..base })),
                        },
                    }
                },
            }
        },
    }
}

/// Types a declaration and binds its name in the scope.
pub open spec fn spec_sema_decl(
    syms: Seq<Seq<char>>,
    st: SState,
    scope: Seq<(Symbol, VarType)>,
    d: VarDecl,
) -> Result<(SState, Seq<(Symbol, VarType)>, VarDecl), SemaError> {
    match spec_sema_expr(syms, st, scope, *d.value) {
        Err(x) => Err(x),
        Ok((s1, v)) => {
            let (s2, dty) = if v.ty is None {
                (
                    sdiag(s1, Severity::Error, d.loc, "could not resolve type for variable declaration"@),
                    d.ty,
                )
            } else {
                (s1, v.ty)
            };
            let r3: Result<(SState, Option<Type>, Expr), SemaError> = if d.decl_type is Some
                && dty is Some && d.decl_type != dty {
                let dt = d.decl_type->Some_0;
                let it = dty->Some_0;
                if spec_convertible(it, dt) {
                    Ok((s2, Some(dt), Expr { ty: Some(dt), ..v }))
                } else {
                    let s3 = sdiag(
                        s2,
                        Severity::Error,
                        d.id.loc,
                        "expected "@ + spec_type_name(dt) + " and got "@ + spec_type_name(it),
                    );
                    Ok(
                        (
                            sdiag(
                                s3,
                                Severity::Note,
                                d.id.loc,
                                "consider changing `"@ + spec_type_name(dt) + "` to `"@
                                    + spec_type_name(it) + "`"@,
                            ),
                            dty,
                            v,
                        ),
                    )
                }
            } else if dty is Some && d.decl_type is None {
                let it = dty->Some_0;
                if spec_convertible(it, Type::I32) {
                    Ok((s2, Some(Type::I32), v))
                } else if spec_convertible(it, Type::I64) {
                    Ok((s2, Some(Type::I64), v))
                } else {
                    Err(SemaError::Abort)
                }
            } else {
                Ok((s2, dty, v))
            };
            match r3 {
                Err(x) => Err(x),
                Ok((s3, dty2, v2)) => match dty2 {
                    None => Err(SemaError::Abort),
                    Some(t) => Ok(
                        (
                            SState { cached: assoc_insert(s3.cached, d.id.name, t), ..s3 },
                            assoc_insert(scope, d.id.name, d.kind),
                            VarDecl { ty: Some(t), value: Box::new(spec_set_all_types(v2, t)), ..d },
                        ),
                    ),
                },
            }
        },
    }
}

/// The check on a declaration's name before it is typed.
pub open spec fn spec_decl_check(
    syms: Seq<Seq<char>>,
    st: SState,
    scope: Seq<(Symbol, VarType)>,
    d: VarDecl,
) -> Result<SState, SemaError> {
    if assoc_get(scope, d.id.name) == Some(VarType::Let) {
        match sym_name(syms, d.id.name) {
            None => Err(SemaError::Abort),
            Some(n) => Ok(
                sdiag(
                    sdiag(
                        st,
                        Severity::Error,
                        d.id.loc,
                        "cannot re-assign `"@ + n + "` declared with `let`"@,
                    ),
                    Severity::Note,
                    d.id.loc,
                    "consider using `mut` instead"@,
                ),
            ),
        }
    } else if d.is_reassign && assoc_get(scope, d.id.name) is None {
        match sym_name(syms, d.id.name) {
            None => Err(SemaError::Abort),
            Some(n) => Ok(
                sdiag(st, Severity::Error, d.id.loc, "use of undeclared identifier `"@ + n + "`"@),
            ),
        }
    } else {
        Ok(st)
    }
}

/// A declaration statement: the check on its name, then the declaration.
pub open spec fn spec_sema_var_decl(
    syms: Seq<Seq<char>>,
    st: SState,
    scope: Seq<(Symbol, VarType)>,
    d: VarDecl,
) -> Result<(SState, Seq<(Symbol, VarType)>, VarDecl), SemaError> {
    match spec_decl_check(syms, st, scope, d) {
        Err(x) => Err(x),
        Ok(s1) => spec_sema_decl(syms, s1, scope, d),
    }
}

pub open spec fn spec_sema_stmt(
    syms: Seq<Seq<char>>,
    st: SState,
    scope: Seq<(Symbol, VarType)>,
    n: NodeV,
) -> Result<(SState, Seq<(Symbol, VarType)>, NodeV), SemaError>
    decreases n,
{
    match n {
        NodeV::VarDecl(d) => match spec_sema_var_decl(syms, st, scope, d) {
            Err(x) => Err(x),
            Ok((s2, sc2, d2)) => Ok((s2, sc2, NodeV::VarDecl(d2))),
        },
        NodeV::Expr(e) => match spec_sema_expr(syms, st, scope, e) {
            Err(x) => Err(x),
            Ok((s1, e2)) => Ok((s1, scope, NodeV::Expr(e2))),
        },
        NodeV::StmtExit(x) => match spec_sema_expr(syms, st, scope, *x.exit_code) {
            Err(e) => Err(e),
            Ok((s1, e2)) => Ok((s1, scope, NodeV::StmtExit(StmtExit { exit_code: Box::new(e2), loc: x.loc }))),
        },
        NodeV::StmtIf(x) => match spec_sema_if(syms, st, scope, x) {
            Err(e) => Err(e),
            Ok((s1, x2)) => Ok((s1, scope, NodeV::StmtIf(x2))),
        },
        NodeV::StmtElif(v) => Ok(
            (
                sdiag(st, Severity::Error, v.loc, "expected accompanying `if` statement for `elif`"@),
                scope,
                n,
            ),
        ),
        NodeV::StmtElse(v) => Ok(
            (
                sdiag(st, Severity::Error, v.loc, "expected accompanying `if` statement for `else`"@),
                scope,
                n,
            ),
        ),
        NodeV::StmtWhile(x) => match spec_sema_while(syms, st, scope, x) {
            Err(e) => Err(e),
            Ok((s1, x2)) => Ok((s1, scope, NodeV::StmtWhile(x2))),
        },
        NodeV::Scope(s) => match spec_sema_scope(syms, st, scope, s) {
            Err(e) => Err(e),
            Ok((s1, sc)) => Ok((s1, scope, NodeV::Scope(sc))),
        },
        _ => Err(SemaError::Abort),
    }
}

/// A block: its statements in a copy of the outer scope, which the block
/// cannot change.
pub open spec fn spec_sema_scope(
    syms: Seq<Seq<char>>,
    st: SState,
    scope: Seq<(Symbol, VarType)>,
    s: ScopeV,
) -> Result<(SState, ScopeV), SemaError>
    decreases s,
{
    match spec_sema_stmts(syms, st, scope, s.stmts) {
        Err(e) => Err(e),
        Ok((s1, _, stmts)) => Ok((s1, ScopeV { stmts, ..s })),
    }
}

pub open spec fn spec_sema_stmts(
    syms: Seq<Seq<char>>,
    st: SState,
    scope: Seq<(Symbol, VarType)>,
    stmts: Seq<NodeV>,
) -> Result<(SState, Seq<(Symbol, VarType)>, Seq<NodeV>), SemaError>
    decreases stmts,
{
    if stmts.len() == 0 {
        Ok((st, scope, Seq::empty()))
    } else {
        match spec_sema_stmt(syms, st, scope, stmts[0]) {
            Err(e) => Err(e),
            Ok((s1, sc1, n1)) => match spec_sema_stmts(
                syms,
                s1,
                sc1,
                stmts.subrange(1, stmts.len() as int),
            ) {
                Err(e) => Err(e),
                Ok((s2, sc2, rest)) => Ok((s2, sc2, seq![n1] + rest)),
            },
        }
    }
}

pub open spec fn spec_sema_if(
    syms: Seq<Seq<char>>,
    st: SState,
    scope: Seq<(Symbol, VarType)>,
    x: StmtIfV,
) -> Result<(SState, StmtIfV), SemaError>
    decreases x,
{
    match spec_sema_expr(syms, st, scope, x.cond) {
        Err(e) => Err(e),
        Ok((s1, c)) => match spec_sema_scope(syms, s1, scope, x.scope) {
            Err(e) => Err(e),
            Ok((s2, sc)) => match spec_sema_elifs(syms, s2, scope, x.elifs) {
                Err(e) => Err(e),
                Ok((s3, elifs)) => match x.els {
                    Some(e) => match spec_sema_scope(syms, s3, scope, e.scope) {
                        Err(er) => Err(er),
                        Ok((s4, esc)) => Ok(
                            (
                                s4,
                                StmtIfV {
                                    cond: c,
                                    scope: sc,
                                    elifs,
                                    els: Some(ElseV { scope: esc, loc: e.loc }),
                                    loc: x.loc,
                                },
                            ),
                        ),
                    },
                    None => Ok((s3, StmtIfV { cond: c, scope: sc, elifs, els: None, loc: x.loc })),
                },
            },
        },
    }
}

pub open spec fn spec_sema_while(
    syms: Seq<Seq<char>>,
    st: SState,
    scope: Seq<(Symbol, VarType)>,
    x: WhileV,
) -> Result<(SState, WhileV), SemaError>
    decreases x,
{
    match spec_sema_expr(syms, st, scope, x.cond) {
        Err(e) => Err(e),
        Ok((s1, c)) => match spec_sema_scope(syms, s1, scope, x.scope) {
            Err(e) => Err(e),
            Ok((s2, sc)) => Ok((s2, WhileV { cond: c, scope: sc, loc: x.loc })),
        },
    }
}

pub open spec fn spec_sema_elifs(
    syms: Seq<Seq<char>>,
    st: SState,
    scope: Seq<(Symbol, VarType)>,
    elifs: Seq<Option<ElifV>>,
) -> Result<(SState, Seq<Option<ElifV>>), SemaError>
    decreases elifs,
{
    if elifs.len() == 0 {
        Ok((st, Seq::empty()))
    } else {
        match spec_sema_elif(syms, st, scope, elifs[0]) {
            Err(er) => Err(er),
            Ok((s1, first)) => match spec_sema_elifs(syms, s1, scope, elifs.subrange(1, elifs.len() as int)) {
                Err(er) => Err(er),
                Ok((s2, rest)) => Ok((s2, seq![first] + rest)),
            },
        }
    }
}


// ---------------------------------------------------------------------------
// The analysis

/// The elements of a vector, last first.
fn reversed<T>(v: Vec<T>) -> (r: Vec<T>)
    ensures
        r@.len() == v@.len(),
        forall|j: int| 0 <= j < v@.len() ==> #[trigger] r@[j] == v@[v@.len() - 1 - j],
{
    let ghost orig = v@;
    let mut v = v;
    let mut r: Vec<T> = Vec::new();
    while v.len() > 0
        invariant
            v@ == orig.subrange(0, v@.len() as int),
            r@.len() + v@.len() == orig.len(),
            forall|j: int| 0 <= j < r@.len() ==> #[trigger] r@[j] == orig[orig.len() - 1 - j],
        decreases v@.len(),
    {
        let x = v.pop();
        match x {
            Some(x) => {
                r.push(x);
            },
            None => {},
        }
    }
    r
}

pub open spec fn stmts_result(
    spec_r: Result<(SState, Seq<(Symbol, VarType)>, Seq<NodeV>), SemaError>,
    done: Seq<NodeV>,
) -> Result<(SState, Seq<(Symbol, VarType)>, Seq<NodeV>), SemaError> {
    match spec_r {
        Ok((s, sc, rest)) => Ok((s, sc, done + rest)),
        Err(e) => Err(e),
    }
}

/// One step of the statement list: the first statement's result, then the rest.
proof fn lemma_stmts_step(
    syms: Seq<Seq<char>>,
    st: SState,
    scope: Seq<(Symbol, VarType)>,
    ss: Seq<NodeV>,
    done: Seq<NodeV>,
)
    requires
        ss.len() > 0,
        spec_sema_stmt(syms, st, scope, ss[0]) is Ok,
    ensures
        ({
            let (s1, sc1, n1) = spec_sema_stmt(syms, st, scope, ss[0])->Ok_0;
            stmts_result(spec_sema_stmts(syms, s1, sc1, ss.subrange(1, ss.len() as int)), done.push(n1))
                == stmts_result(spec_sema_stmts(syms, st, scope, ss), done)
        }),
{
    let (s1, sc1, n1) = spec_sema_stmt(syms, st, scope, ss[0])->Ok_0;
    match spec_sema_stmts(syms, s1, sc1, ss.subrange(1, ss.len() as int)) {
        Ok((s2, sc2, rest)) => {
            assert(done.push(n1) + rest =~= done + (seq![n1] + rest));
        },
        Err(_) => {},
    }
}

pub open spec fn elifs_result(
    spec_r: Result<(SState, Seq<Option<ElifV>>), SemaError>,
    done: Seq<Option<ElifV>>,
) -> Result<(SState, Seq<Option<ElifV>>), SemaError> {
    match spec_r {
        Ok((s, rest)) => Ok((s, done + rest)),
        Err(e) => Err(e),
    }
}

/// The first branch of an `elif` list.
pub open spec fn spec_sema_elif(
    syms: Seq<Seq<char>>,
    st: SState,
    scope: Seq<(Symbol, VarType)>,
    e: Option<ElifV>,
) -> Result<(SState, Option<ElifV>), SemaError>
    decreases e,
{
    match e {
        None => Ok((st, None)),
        Some(e) => match spec_sema_expr(syms, st, scope, e.cond) {
            Err(er) => Err(er),
            Ok((s1, c)) => match spec_sema_scope(syms, s1, scope, e.scope) {
                Err(er) => Err(er),
                Ok((s2, sc)) => Ok((s2, Some(ElifV { cond: c, scope: sc, loc: e.loc }))),
            },
        },
    }
}

proof fn lemma_elifs_step(
    syms: Seq<Seq<char>>,
    st: SState,
    scope: Seq<(Symbol, VarType)>,
    es: Seq<Option<ElifV>>,
    done: Seq<Option<ElifV>>,
)
    requires
        es.len() > 0,
        spec_sema_elif(syms, st, scope, es[0]) is Ok,
    ensures
        ({
            let (s1, e1) = spec_sema_elif(syms, st, scope, es[0])->Ok_0;
            elifs_result(spec_sema_elifs(syms, s1, scope, es.subrange(1, es.len() as int)), done.push(e1))
                == elifs_result(spec_sema_elifs(syms, st, scope, es), done)
        }),
{
    let (s1, e1) = spec_sema_elif(syms, st, scope, es[0])->Ok_0;
    match spec_sema_elifs(syms, s1, scope, es.subrange(1, es.len() as int)) {
        Ok((s2, rest)) => {
            assert(done.push(e1) + rest =~= done + (seq![e1] + rest));
        },
        Err(_) => {},
    }
}

/// Checks and types a parsed program.
pub struct Sema {
    prog: Program,
    diag: DiagHandler,
    sym: SymbolTable,
    cached_ty: Vec<(Symbol, Type)>,
    vars: Vec<(Symbol, VarType)>,
}

impl Sema {
    pub closed spec fn sst(&self) -> SState {
        SState { diags: self.diag@, cached: self.cached_ty@ }
    }

    pub closed spec fn syms(&self) -> Seq<Seq<char>> {
        self.sym@
    }

    pub closed spec fn prog_stmts(&self) -> Seq<NodeV> {
        nodes_view(self.prog.stmts@)
    }

    pub fn new(prog: Program, diag: DiagHandler, sym: SymbolTable) -> (r: Sema)
        ensures
            r.sst() == (SState { diags: diag@, cached: Seq::empty() }),
            r.syms() == sym@,
            r.prog_stmts() == nodes_view(prog.stmts@),
    {
        Sema { prog, diag, sym, cached_ty: Vec::new(), vars: Vec::new() }
    }

    /// Gives back the (typed) program, the diagnostics and the symbol table.
    pub fn into_parts(self) -> (r: (Program, DiagHandler, SymbolTable))
        ensures
            nodes_view(r.0.stmts@) == self.prog_stmts(),
            r.1@ == self.sst().diags,
            r.2@ == self.syms(),
    {
        (self.prog, self.diag, self.sym)
    }

    fn push_diag(&mut self, severity: Severity, loc: LocData, msg: String)
        ensures
            final(self).sst() == sdiag(old(self).sst(), severity, loc, msg@),
            final(self).syms() == old(self).syms(),
            final(self).prog_stmts() == old(self).prog_stmts(),
    {
        self.diag.push(severity, loc, msg);
    }

    fn name_of(&self, s: Symbol) -> (r: Option<String>)
        ensures
            match r {
                Some(n) => sym_name(self.syms(), s) == Some(n@),
                None => sym_name(self.syms(), s) is None,
            },
    {
        self.sym.get(s)
    }

    fn default_integer_resolution(&mut self, val: i128, loc: LocData) -> (r: Option<Type>)
        ensures
            (final(self).sst(), r) == spec_int_resolution(old(self).sst(), val, loc),
            final(self).syms() == old(self).syms(),
            final(self).prog_stmts() == old(self).prog_stmts(),
    {
        if val >= i32::MIN as i128 && val <= i32::MAX as i128 {
            Some(Type::I32)
        } else if val >= i64::MIN as i128 && val <= i64::MAX as i128 {
            Some(Type::I64)
        } else {
            let mut m = String::new();
            m.append("integer literal `");
            push_int(&mut m, val);
            m.append("` exceeds the range of default type i64");
            self.push_diag(Severity::Error, loc, m);
            if val >= 0 && val <= u64::MAX as i128 {
                self.push_diag(
                    Severity::Note,
                    loc,
                    "consider annotating the type at declaration `let digit: u64 = ...`".to_owned(),
                );
            } else {
                let mut w = String::new();
                w.append("use of excessively large integer literal `");
                push_int(&mut w, val);
                w.append("`; consider using a smaller value");
                self.push_diag(Severity::Warn, loc, w);
            }
            None
        }
    }

    /// The narrowest type of an integer literal; when none holds it, the same
    /// diagnostics as `default_integer_resolution`.
    fn resolve_integer_resolution(&mut self, val: i128, loc: LocData) -> (r: Option<Type>)
        ensures
            r == spec_resolve_int(val),
            r is Some ==> final(self).sst() == old(self).sst(),
            r is None ==> final(self).sst() == spec_int_resolution(old(self).sst(), val, loc).0,
            final(self).syms() == old(self).syms(),
            final(self).prog_stmts() == old(self).prog_stmts(),
    {
        if val >= i8::MIN as i128 && val <= i8::MAX as i128 {
            Some(Type::I8)
        } else if val >= i16::MIN as i128 && val <= i16::MAX as i128 {
            Some(Type::I16)
        } else if val >= i32::MIN as i128 && val <= i32::MAX as i128 {
            Some(Type::I32)
        } else if val >= i64::MIN as i128 && val <= i64::MAX as i128 {
            Some(Type::I64)
        } else if val >= 0 && val <= u8::MAX as i128 {
            Some(Type::U8)
        } else if val >= 0 && val <= u16::MAX as i128 {
            Some(Type::U16)
        } else if val >= 0 && val <= u32::MAX as i128 {
            Some(Type::U32)
        } else if val >= 0 && val <= u64::MAX as i128 {
            Some(Type::U64)
        } else {
            self.default_integer_resolution(val, loc)
        }
    }

    /// The expression with every node's type set to `ty`.
    fn set_all_types_expr(expr: Expr, ty: Type) -> (r: Expr)
        ensures
            r == spec_set_all_types(expr, ty),
        decreases expr,
    {
        let lhs = match expr.lhs {
            Some(l) => Some(Box::new(Self::set_all_types_expr(*l, ty))),
            None => None,
        };
        let rhs = match expr.rhs {
            Some(r) => Some(Box::new(Self::set_all_types_expr(*r, ty))),
            None => None,
        };
        Expr { atom: expr.atom, op: expr.op, lhs, rhs, ty: Some(ty), loc: expr.loc }
    }

    fn visit_expr(&mut self, expr: &Expr, outer_scp: &Vec<(Symbol, VarType)>) -> (r: Result<Expr, SemaError>)
        ensures
            final(self).syms() == old(self).syms(),
            final(self).prog_stmts() == old(self).prog_stmts(),
            match spec_sema_expr(old(self).syms(), old(self).sst(), outer_scp@, *expr) {
                Ok((s, e)) => r == Ok::<Expr, SemaError>(e) && final(self).sst() == s,
                Err(e) => r == Err::<Expr, SemaError>(e),
            },
        decreases expr,
    {
        let nl = match &expr.lhs {
            Some(l) => match self.visit_expr(&**l, outer_scp) {
                Ok(x) => Some(x),
                Err(e) => {
                    return Err(e);
                },
            },
            None => None,
        };
        let nr = match &expr.rhs {
            Some(r) => match self.visit_expr(&**r, outer_scp) {
                Ok(x) => Some(x),
                Err(e) => {
                    return Err(e);
                },
            },
            None => None,
        };
        let ty: Option<Type> = match expr.atom {
            AtomKind::Ident(id) => {
                if assoc_lookup(outer_scp, id.name).is_none() {
                    match self.name_of(id.name) {
                        None => {
                            return Err(SemaError::Abort);
                        },
                        Some(n) => {
                            let mut m = String::new();
                            m.append("use of undeclared identifier `");
                            m.append(n.as_str());
                            m.append("`");
                            self.push_diag(Severity::Error, id.loc, m);
                        },
                    }
                }
                match assoc_lookup(&self.cached_ty, id.name) {
                    Some(t) => Some(t),
                    None => match self.name_of(id.name) {
                        None => {
                            return Err(SemaError::Abort);
                        },
                        Some(n) => {
                            let mut m = String::new();
                            m.append("could not resolve symbol or type for `");
                            m.append(n.as_str());
                            m.append("`");
                            self.push_diag(Severity::Error, id.loc, m);
                            None
                        },
                    },
                }
            },
            AtomKind::IntLit(lit) => self.default_integer_resolution(lit.val, lit.loc),
            AtomKind::NoAtom => match (&nl, &nr) {
                (Some(l), Some(r)) => match (l.ty, r.ty) {
                    (Some(lty), Some(rty)) => {
                        if lty != rty && !lty.is_digit_convertible_to(&rty)
                            && !rty.is_digit_convertible_to(&lty) {
                            let mut m = String::new();
                            m.append("incompatible types found in expression `");
                            m.append(lty.name());
                            m.append("` & `");
                            m.append(rty.name());
                            m.append("`");
                            self.push_diag(Severity::Error, l.loc, m);
                            Some(Type::NoType)
                        } else {
                            Some(lty)
                        }
                    },
                    _ => {
                        return Err(SemaError::Abort);
                    },
                },
                (Some(l), None) => l.ty,
                (None, Some(r)) => r.ty,
                (None, None) => None,
            },
        };
        let lhs = match nl {
            Some(x) => Some(Box::new(x)),
            None => None,
        };
        let rhs = match nr {
            Some(x) => Some(Box::new(x)),
            None => None,
        };
        Ok(Expr { atom: expr.atom, op: expr.op, lhs, rhs, ty, loc: expr.loc })
    }
    fn visit_decl(&mut self, decl: &VarDecl, outer_scp: &mut Vec<(Symbol, VarType)>) -> (r: Result<VarDecl, SemaError>)
        ensures
            final(self).syms() == old(self).syms(),
            final(self).prog_stmts() == old(self).prog_stmts(),
            match spec_sema_decl(old(self).syms(), old(self).sst(), old(outer_scp)@, *decl) {
                Ok((s, sc, d)) => r == Ok::<VarDecl, SemaError>(d) && final(self).sst() == s
                    && final(outer_scp)@ == sc,
                Err(e) => r == Err::<VarDecl, SemaError>(e),
            },
    {
        let v = match self.visit_expr(&*decl.value, outer_scp) {
            Ok(x) => x,
            Err(e) => {
                return Err(e);
            },
        };
        let dty = if v.ty.is_none() {
            self.push_diag(
                Severity::Error,
                decl.loc,
                "could not resolve type for variable declaration".to_owned(),
            );
            decl.ty
        } else {
            v.ty
        };
        let r3: Result<(Option<Type>, Expr), SemaError> = match (decl.decl_type, dty) {
            (Some(dt), Some(it)) => {
                if dt != it {
                    if it.is_digit_convertible_to(&dt) {
                        Ok((Some(dt), Expr { ty: Some(dt), ..v }))
                    } else {
                        let mut m = String::new();
                        m.append("expected ");
                        m.append(dt.name());
                        m.append(" and got ");
                        m.append(it.name());
                        self.push_diag(Severity::Error, decl.id.loc, m);
                        let mut n = String::new();
                        n.append("consider changing `");
                        n.append(dt.name());
                        n.append("` to `");
                        n.append(it.name());
                        n.append("`");
                        self.push_diag(Severity::Note, decl.id.loc, n);
                        Ok((dty, v))
                    }
                } else {
                    Ok((dty, v))
                }
            },
            (None, Some(it)) => {
                if it.is_digit_convertible_to(&Type::I32) {
                    Ok((Some(Type::I32), v))
                } else if it.is_digit_convertible_to(&Type::I64) {
                    Ok((Some(Type::I64), v))
                } else {
                    Err(SemaError::Abort)
                }
            },
            _ => Ok((dty, v)),
        };
        let (dty2, v2) = match r3 {
            Ok(p) => p,
            Err(e) => {
                return Err(e);
            },
        };
        match dty2 {
            None => Err(SemaError::Abort),
            Some(t) => {
                let value = Self::set_all_types_expr(v2, t);
                assoc_set(outer_scp, decl.id.name, decl.kind);
                assoc_set(&mut self.cached_ty, decl.id.name, t);
                Ok(
                    VarDecl {
                        kind: decl.kind,
                        id: decl.id,
                        is_reassign: decl.is_reassign,
                        decl_type: decl.decl_type,
                        ty: Some(t),
                        value: Box::new(value),
                        loc: decl.loc,
                    },
                )
            },
        }
    }
    fn visit_stmt_exit(&mut self, enode: &StmtExit, outer_scp: &Vec<(Symbol, VarType)>) -> (r: Result<Expr, SemaError>)
        ensures
            final(self).syms() == old(self).syms(),
            final(self).prog_stmts() == old(self).prog_stmts(),
            match spec_sema_expr(old(self).syms(), old(self).sst(), outer_scp@, *enode.exit_code) {
                Ok((s, e)) => r == Ok::<Expr, SemaError>(e) && final(self).sst() == s,
                Err(e) => r == Err::<Expr, SemaError>(e),
            },
    {
        self.visit_expr(&*enode.exit_code, outer_scp)
    }

    fn visit_var_decl_stmt(&mut self, d: &VarDecl, outer_scp: &mut Vec<(Symbol, VarType)>) -> (r: Result<VarDecl, SemaError>)
        ensures
            final(self).syms() == old(self).syms(),
            final(self).prog_stmts() == old(self).prog_stmts(),
            match spec_sema_var_decl(old(self).syms(), old(self).sst(), old(outer_scp)@, *d) {
                Ok((s, sc, d2)) => r == Ok::<VarDecl, SemaError>(d2) && final(self).sst() == s
                    && final(outer_scp)@ == sc,
                Err(e) => r == Err::<VarDecl, SemaError>(e),
            },
    {
        let existing = assoc_lookup(outer_scp, d.id.name);
        if matches!(existing, Some(VarType::Let)) {
            match self.name_of(d.id.name) {
                None => {
                    return Err(SemaError::Abort);
                },
                Some(n) => {
                    let mut m = String::new();
                    m.append("cannot re-assign `");
                    m.append(n.as_str());
                    m.append("` declared with `let`");
                    self.push_diag(Severity::Error, d.id.loc, m);
                    self.push_diag(Severity::Note, d.id.loc, "consider using `mut` instead".to_owned());
                },
            }
        } else if d.is_reassign && existing.is_none() {
            match self.name_of(d.id.name) {
                None => {
                    return Err(SemaError::Abort);
                },
                Some(n) => {
                    let mut m = String::new();
                    m.append("use of undeclared identifier `");
                    m.append(n.as_str());
                    m.append("`");
                    self.push_diag(Severity::Error, d.id.loc, m);
                },
            }
        }
        self.visit_decl(d, outer_scp)
    }

    #[verifier::spinoff_prover]
    #[verifier::rlimit(60)]
    fn visit_stmt(&mut self, stmt: UnionNode, outer_scp: &mut Vec<(Symbol, VarType)>) -> (r: Result<UnionNode, SemaError>)
        ensures
            final(self).syms() == old(self).syms(),
            final(self).prog_stmts() == old(self).prog_stmts(),
            match spec_sema_stmt(old(self).syms(), old(self).sst(), old(outer_scp)@, node_view(stmt)) {
                Ok((s, sc, n)) => r matches Ok(x) && node_view(x) == n && final(self).sst() == s
                    && final(outer_scp)@ == sc,
                Err(e) => r == Err::<UnionNode, SemaError>(e),
            },
        decreases stmt,
    {
        match stmt {
            UnionNode::VarDecl(decl) => match self.visit_var_decl_stmt(&*decl, outer_scp) {
                Ok(d2) => Ok(UnionNode::VarDecl(Rc::new(d2))),
                Err(e) => Err(e),
            },
            UnionNode::Expr(expr) => match self.visit_expr(&*expr, outer_scp) {
                Ok(e2) => Ok(UnionNode::Expr(Box::new(e2))),
                Err(e) => Err(e),
            },
            UnionNode::StmtExit(enode) => match self.visit_stmt_exit(&enode, outer_scp) {
                Ok(e2) => Ok(UnionNode::StmtExit(StmtExit { exit_code: Box::new(e2), loc: enode.loc })),
                Err(e) => Err(e),
            },
            UnionNode::StmtIf(stmt_if) => match self.visit_stmt_if(stmt_if, outer_scp) {
                Ok(x) => Ok(UnionNode::StmtIf(x)),
                Err(e) => Err(e),
            },
            UnionNode::StmtElif(v) => {
                self.push_diag(
                    Severity::Error,
                    v.loc,
                    "expected accompanying `if` statement for `elif`".to_owned(),
                );
                Ok(UnionNode::StmtElif(v))
            },
            UnionNode::StmtElse(v) => {
                self.push_diag(
                    Severity::Error,
                    v.loc,
                    "expected accompanying `if` statement for `else`".to_owned(),
                );
                Ok(UnionNode::StmtElse(v))
            },
            UnionNode::StmtWhile(stmt_while) => match self.visit_stmt_while(stmt_while, outer_scp) {
                Ok(x) => Ok(UnionNode::StmtWhile(x)),
                Err(e) => Err(e),
            },
            UnionNode::Scope(scp) => match self.visit_scope(scp, outer_scp) {
                Ok(x) => Ok(UnionNode::Scope(x)),
                Err(e) => Err(e),
            },
            _ => Err(SemaError::Abort),
        }
    }

    /// A block is checked in a copy of the outer scope: what it declares does
    /// not outlive it.
    fn visit_scope(&mut self, scope: Scope, outer_scp: &Vec<(Symbol, VarType)>) -> (r: Result<Scope, SemaError>)
        ensures
            final(self).syms() == old(self).syms(),
            final(self).prog_stmts() == old(self).prog_stmts(),
            match spec_sema_scope(old(self).syms(), old(self).sst(), outer_scp@, scope_view(scope)) {
                Ok((s, sv)) => r matches Ok(x) && scope_view(x) == sv && final(self).sst() == s,
                Err(e) => r == Err::<Scope, SemaError>(e),
            },
        decreases scope,
    {
        let mut loc_scp = assoc_copy(outer_scp);
        let Scope { stmts, vars, fns } = scope;
        match self.visit_stmts(stmts, &mut loc_scp) {
            Ok(new_stmts) => Ok(Scope { stmts: new_stmts, vars, fns }),
            Err(e) => Err(e),
        }
    }

    fn visit_stmts(&mut self, stmts: Vec<UnionNode>, scp: &mut Vec<(Symbol, VarType)>) -> (r: Result<Vec<UnionNode>, SemaError>)
        ensures
            final(self).syms() == old(self).syms(),
            final(self).prog_stmts() == old(self).prog_stmts(),
            match spec_sema_stmts(old(self).syms(), old(self).sst(), old(scp)@, nodes_view(stmts@)) {
                Ok((s, sc, ns)) => r matches Ok(x) && nodes_view(x@) == ns && final(self).sst() == s
                    && final(scp)@ == sc,
                Err(e) => r == Err::<Vec<UnionNode>, SemaError>(e),
            },
        decreases stmts,
    {
        let ghost orig = stmts;
        let ghost ov = nodes_view(stmts@);
        let ghost n = stmts@.len();
        let ghost goal = spec_sema_stmts(self.syms(), self.sst(), scp@, ov);
        let mut rev = reversed(stmts);
        let mut out: Vec<UnionNode> = Vec::new();
        proof {
            assert(ov.subrange(0, n as int) =~= ov);
            match goal {
                Ok((s, sc, ns)) => {
                    assert(Seq::<NodeV>::empty() + ns =~= ns);
                },
                Err(_) => {},
            }
        }
        while rev.len() > 0
            invariant
                orig == stmts,
                rev@.len() <= n,
                n == orig@.len(),
                ov == nodes_view(orig@),
                out@.len() == n - rev@.len(),
                forall|j: int| 0 <= j < rev@.len() ==> #[trigger] rev@[j] == orig@[n - 1 - j],
                self.syms() == old(self).syms(),
                self.prog_stmts() == old(self).prog_stmts(),
                goal == spec_sema_stmts(old(self).syms(), old(self).sst(), old(scp)@, ov),
                stmts_result(
                    spec_sema_stmts(self.syms(), self.sst(), scp@, ov.subrange(n - rev@.len(), n as int)),
                    nodes_view(out@),
                ) == stmts_result(goal, Seq::empty()),
            decreases rev@.len(),
        {
            let ghost i = n - rev@.len();
            let ghost rest = ov.subrange(i, n as int);
            let x = match rev.pop() {
                Some(x) => x,
                None => {
                    return Err(SemaError::Abort);
                },
            };
            proof {
                assert(x == orig@[i]);
                assert(decreases_to!(orig => orig@));
                assert(decreases_to!(orig@ => orig@[i]));
                assert(rest[0] == node_view(x));
                assert(rest.subrange(1, rest.len() as int) =~= ov.subrange(i + 1, n as int));
            }
            let ghost st0 = self.sst();
            let ghost sc0 = scp@;
            match self.visit_stmt(x, scp) {
                Ok(y) => {
                    proof {
                        lemma_stmts_step(self.syms(), st0, sc0, rest, nodes_view(out@));
                        lemma_nodes_view_push(out@, y);
                    }
                    out.push(y);
                },
                Err(e) => {
                    proof {
                        assert(spec_sema_stmts(self.syms(), st0, sc0, rest) == Err::<
                            (SState, Seq<(Symbol, VarType)>, Seq<NodeV>),
                            SemaError,
                        >(e));
                    }
                    return Err(e);
                },
            }
        }
        proof {
            assert(ov.subrange(n as int, n as int) =~= Seq::<NodeV>::empty());
            match goal {
                Ok((s, sc, ns)) => {
                    assert(Seq::<NodeV>::empty() + ns =~= ns);
                    assert(nodes_view(out@) + Seq::<NodeV>::empty() =~= nodes_view(out@));
                },
                Err(_) => {},
            }
        }
        Ok(out)
    }
    fn visit_stmt_while(&mut self, stmt_while: StmtWhile, outer_scp: &Vec<(Symbol, VarType)>) -> (r: Result<StmtWhile, SemaError>)
        ensures
            final(self).syms() == old(self).syms(),
            final(self).prog_stmts() == old(self).prog_stmts(),
            match spec_sema_while(old(self).syms(), old(self).sst(), outer_scp@, while_view(stmt_while)) {
                Ok((s, w)) => r matches Ok(x) && while_view(x) == w && final(self).sst() == s,
                Err(e) => r == Err::<StmtWhile, SemaError>(e),
            },
        decreases stmt_while,
    {
        let StmtWhile { cond, scope, loc } = stmt_while;
        let c = match self.visit_expr(&cond, outer_scp) {
            Ok(c) => c,
            Err(e) => {
                return Err(e);
            },
        };
        match self.visit_scope(scope, outer_scp) {
            Ok(sc) => Ok(StmtWhile { cond: c, scope: sc, loc }),
            Err(e) => Err(e),
        }
    }

    fn visit_stmt_if(&mut self, stmt_if: StmtIf, outer_scp: &Vec<(Symbol, VarType)>) -> (r: Result<StmtIf, SemaError>)
        ensures
            final(self).syms() == old(self).syms(),
            final(self).prog_stmts() == old(self).prog_stmts(),
            match spec_sema_if(old(self).syms(), old(self).sst(), outer_scp@, if_view(stmt_if)) {
                Ok((s, w)) => r matches Ok(x) && if_view(x) == w && final(self).sst() == s,
                Err(e) => r == Err::<StmtIf, SemaError>(e),
            },
        decreases stmt_if,
    {
        let StmtIf { cond, scope, _elif, _else, loc } = stmt_if;
        let c = match self.visit_expr(&cond, outer_scp) {
            Ok(c) => c,
            Err(e) => {
                return Err(e);
            },
        };
        let sc = match self.visit_scope(scope, outer_scp) {
            Ok(sc) => sc,
            Err(e) => {
                return Err(e);
            },
        };
        let elifs = match self.visit_elifs(_elif, outer_scp) {
            Ok(x) => x,
            Err(e) => {
                return Err(e);
            },
        };
        match _else {
            Some(el) => {
                let StmtElse { scope: escope, loc: eloc } = el;
                match self.visit_scope(escope, outer_scp) {
                    Ok(esc) => Ok(
                        StmtIf {
                            cond: c,
                            scope: sc,
                            _elif: elifs,
                            _else: Some(StmtElse { scope: esc, loc: eloc }),
                            loc,
                        },
                    ),
                    Err(e) => Err(e),
                }
            },
            None => Ok(StmtIf { cond: c, scope: sc, _elif: elifs, _else: None, loc }),
        }
    }

    fn visit_elifs(&mut self, elifs: Vec<Option<StmtElif>>, outer_scp: &Vec<(Symbol, VarType)>) -> (r: Result<Vec<Option<StmtElif>>, SemaError>)
        ensures
            final(self).syms() == old(self).syms(),
            final(self).prog_stmts() == old(self).prog_stmts(),
            match spec_sema_elifs(old(self).syms(), old(self).sst(), outer_scp@, elifs_view(elifs@)) {
                Ok((s, es)) => r matches Ok(x) && elifs_view(x@) == es && final(self).sst() == s,
                Err(e) => r == Err::<Vec<Option<StmtElif>>, SemaError>(e),
            },
        decreases elifs,
    {
        let ghost orig = elifs;
        let ghost ov = elifs_view(elifs@);
        let ghost n = elifs@.len();
        let ghost goal = spec_sema_elifs(self.syms(), self.sst(), outer_scp@, ov);
        let mut rev = reversed(elifs);
        let mut out: Vec<Option<StmtElif>> = Vec::new();
        proof {
            assert(ov.subrange(0, n as int) =~= ov);
            match goal {
                Ok((s, es)) => {
                    assert(Seq::<Option<ElifV>>::empty() + es =~= es);
                },
                Err(_) => {},
            }
        }
        while rev.len() > 0
            invariant
                orig == elifs,
                rev@.len() <= n,
                n == orig@.len(),
                ov == elifs_view(orig@),
                out@.len() == n - rev@.len(),
                forall|j: int| 0 <= j < rev@.len() ==> #[trigger] rev@[j] == orig@[n - 1 - j],
                self.syms() == old(self).syms(),
                self.prog_stmts() == old(self).prog_stmts(),
                goal == spec_sema_elifs(old(self).syms(), old(self).sst(), outer_scp@, ov),
                elifs_result(
                    spec_sema_elifs(self.syms(), self.sst(), outer_scp@, ov.subrange(n - rev@.len(), n as int)),
                    elifs_view(out@),
                ) == elifs_result(goal, Seq::empty()),
            decreases rev@.len(),
        {
            let ghost i = n - rev@.len();
            let ghost rest = ov.subrange(i, n as int);
            let x = match rev.pop() {
                Some(x) => x,
                None => {
                    return Err(SemaError::Abort);
                },
            };
            proof {
                assert(x == orig@[i]);
                assert(decreases_to!(orig => orig@));
                assert(decreases_to!(orig@ => orig@[i]));
                assert(rest.subrange(1, rest.len() as int) =~= ov.subrange(i + 1, n as int));
                assert(rest.subrange(1, rest.len() as int) =~= rest.subrange(1, rest.len() as int));
            }
            let ghost st0 = self.sst();
            let y: Option<StmtElif> = match x {
                None => None,
                Some(e) => {
                    let StmtElif { cond, scope, loc } = e;
                    let c = match self.visit_expr(&cond, outer_scp) {
                        Ok(c) => c,
                        Err(er) => {
                            return Err(er);
                        },
                    };
                    match self.visit_scope(scope, outer_scp) {
                        Ok(sc) => Some(StmtElif { cond: c, scope: sc, loc }),
                        Err(er) => {
                            return Err(er);
                        },
                    }
                },
            };
            proof {
                assert(spec_sema_elifs(self.syms(), st0, outer_scp@, rest) == spec_sema_elifs(self.syms(), st0, outer_scp@, rest));
                lemma_elifs_step(self.syms(), st0, outer_scp@, rest, elifs_view(out@));
                lemma_elifs_view_push(out@, y);
            }
            out.push(y);
        }
        proof {
            assert(ov.subrange(n as int, n as int) =~= Seq::<Option<ElifV>>::empty());
            match goal {
                Ok((s, es)) => {
                    assert(Seq::<Option<ElifV>>::empty() + es =~= es);
                    assert(elifs_view(out@) + Seq::<Option<ElifV>>::empty() =~= elifs_view(out@));
                },
                Err(_) => {},
            }
        }
        Ok(out)
    }
    /// Checks and types the whole program, its top-level statements in one
    /// global scope; the typed statements replace the parsed ones.
    pub fn validate_program(&mut self) -> (r: Result<(), SemaError>)
        ensures
            final(self).syms() == old(self).syms(),
            match spec_sema_stmts(old(self).syms(), old(self).sst(), Seq::empty(), old(self).prog_stmts()) {
                Ok((s, _, ns)) => r is Ok && final(self).prog_stmts() == ns && final(self).sst() == s,
                Err(e) => r == Err::<(), SemaError>(e),
            },
    {
        let mut global_scope: Vec<(Symbol, VarType)> = Vec::new();
        let mut stmts: Vec<UnionNode> = Vec::new();
        std::mem::swap(&mut stmts, &mut self.prog.stmts);
        let ghost p0 = nodes_view(stmts@);
        match self.visit_stmts(stmts, &mut global_scope) {
            Ok(typed) => {
                self.prog.stmts = typed;
                Ok(())
            },
            Err(e) => Err(e),
        }
    }
}

} // verus!