use vstd::prelude::*;

use crate::ast::{ElifV, Expr, NodeV, ScopeV, StmtIfV, Type, VarDecl, VarType, WhileV};
use crate::diagnostics::DiagView;
use crate::lexer::{LocData, Symbol};
use crate::semantics::{
    spec_decl_check, spec_int_resolution, spec_sema_decl, spec_set_all_types, spec_sema_elif, spec_sema_elifs,
    spec_sema_expr, spec_sema_if, spec_sema_scope, spec_sema_stmt, spec_sema_stmts,
    spec_sema_var_decl, spec_sema_while, SState,
};

verus! {

/// `b` holds every diagnostic of `a`, in the same places.
pub open spec fn diags_extend(a: Seq<DiagView>, b: Seq<DiagView>) -> bool {
    &&& a.len() <= b.len()
    &&& forall|i: int| 0 <= i < a.len() ==> #[trigger] a[i] == b[i]
}

proof fn lemma_int_resolution_grows(st: SState, val: i128, loc: LocData)
    ensures
        diags_extend(st.diags, spec_int_resolution(st, val, loc).0.diags),
{
}

proof fn lemma_expr_grows(syms: Seq<Seq<char>>, st: SState, scope: Seq<(Symbol, VarType)>, e: Expr)
    requires
        spec_sema_expr(syms, st, scope, e) is Ok,
    ensures
        diags_extend(st.diags, spec_sema_expr(syms, st, scope, e)->Ok_0.0.diags),
    decreases e,
{
    let s1 = match e.lhs {
        Some(l) => {
            lemma_expr_grows(syms, st, scope, *l);
            spec_sema_expr(syms, st, scope, *l)->Ok_0.0
        },
        None => st,
    };
    let s2 = match e.rhs {
        Some(r) => {
            lemma_expr_grows(syms, s1, scope, *r);
            spec_sema_expr(syms, s1, scope, *r)->Ok_0.0
        },
        None => s1,
    };
    match e.atom {
        crate::ast::AtomKind::IntLit(lit) => {
            lemma_int_resolution_grows(s2, lit.val, lit.loc);
        },
        _ => {},
    }
}

proof fn lemma_decl_grows(syms: Seq<Seq<char>>, st: SState, scope: Seq<(Symbol, VarType)>, d: VarDecl)
    requires
        spec_sema_var_decl(syms, st, scope, d) is Ok,
    ensures
        diags_extend(st.diags, spec_sema_var_decl(syms, st, scope, d)->Ok_0.0.diags),
{
    let s1 = spec_decl_check(syms, st, scope, d)->Ok_0;
    assert(diags_extend(st.diags, s1.diags));
    lemma_expr_grows(syms, s1, scope, *d.value);
    assert(spec_sema_decl(syms, s1, scope, d) is Ok);
}

proof fn lemma_stmt_grows(syms: Seq<Seq<char>>, st: SState, scope: Seq<(Symbol, VarType)>, n: NodeV)
    requires
        spec_sema_stmt(syms, st, scope, n) is Ok,
    ensures
        diags_extend(st.diags, spec_sema_stmt(syms, st, scope, n)->Ok_0.0.diags),
    decreases n,
{
    match n {
        NodeV::VarDecl(d) => {
            lemma_decl_grows(syms, st, scope, d);
        },
        NodeV::Expr(e) => {
            lemma_expr_grows(syms, st, scope, e);
        },
        NodeV::StmtExit(x) => {
            lemma_expr_grows(syms, st, scope, *x.exit_code);
        },
        NodeV::StmtIf(x) => {
            lemma_if_grows(syms, st, scope, x);
        },
        NodeV::StmtWhile(x) => {
            lemma_while_grows(syms, st, scope, x);
        },
        NodeV::Scope(s) => {
            lemma_scope_grows(syms, st, scope, s);
        },
        _ => {},
    }
}

proof fn lemma_stmts_grows(syms: Seq<Seq<char>>, st: SState, scope: Seq<(Symbol, VarType)>, ss: Seq<NodeV>)
    requires
        spec_sema_stmts(syms, st, scope, ss) is Ok,
    ensures
        diags_extend(st.diags, spec_sema_stmts(syms, st, scope, ss)->Ok_0.0.diags),
    decreases ss,
{
    if ss.len() > 0 {
        lemma_stmt_grows(syms, st, scope, ss[0]);
        let (s1, sc1, _) = spec_sema_stmt(syms, st, scope, ss[0])->Ok_0;
        lemma_stmts_grows(syms, s1, sc1, ss.subrange(1, ss.len() as int));
    }
}

proof fn lemma_scope_grows(syms: Seq<Seq<char>>, st: SState, scope: Seq<(Symbol, VarType)>, s: ScopeV)
    requires
        spec_sema_scope(syms, st, scope, s) is Ok,
    ensures
        diags_extend(st.diags, spec_sema_scope(syms, st, scope, s)->Ok_0.0.diags),
    decreases s,
{
    lemma_stmts_grows(syms, st, scope, s.stmts);
}

proof fn lemma_while_grows(syms: Seq<Seq<char>>, st: SState, scope: Seq<(Symbol, VarType)>, x: WhileV)
    requires
        spec_sema_while(syms, st, scope, x) is Ok,
    ensures
        diags_extend(st.diags, spec_sema_while(syms, st, scope, x)->Ok_0.0.diags),
    decreases x,
{
    lemma_expr_grows(syms, st, scope, x.cond);
    let s1 = spec_sema_expr(syms, st, scope, x.cond)->Ok_0.0;
    lemma_scope_grows(syms, s1, scope, x.scope);
}

proof fn lemma_if_grows(syms: Seq<Seq<char>>, st: SState, scope: Seq<(Symbol, VarType)>, x: StmtIfV)
    requires
        spec_sema_if(syms, st, scope, x) is Ok,
    ensures
        diags_extend(st.diags, spec_sema_if(syms, st, scope, x)->Ok_0.0.diags),
    decreases x,
{
    lemma_expr_grows(syms, st, scope, x.cond);
    let s1 = spec_sema_expr(syms, st, scope, x.cond)->Ok_0.0;
    lemma_scope_grows(syms, s1, scope, x.scope);
    let s2 = spec_sema_scope(syms, s1, scope, x.scope)->Ok_0.0;
    lemma_elifs_grows(syms, s2, scope, x.elifs);
    let s3 = spec_sema_elifs(syms, s2, scope, x.elifs)->Ok_0.0;
    match x.els {
        Some(e) => {
            lemma_scope_grows(syms, s3, scope, e.scope);
        },
        None => {},
    }
}

proof fn lemma_elifs_grows(
    syms: Seq<Seq<char>>,
    st: SState,
    scope: Seq<(Symbol, VarType)>,
    es: Seq<Option<ElifV>>,
)
    requires
        spec_sema_elifs(syms, st, scope, es) is Ok,
    ensures
        diags_extend(st.diags, spec_sema_elifs(syms, st, scope, es)->Ok_0.0.diags),
    decreases es,
{
    if es.len() > 0 {
        lemma_elif_grows(syms, st, scope, es[0]);
        let s1 = spec_sema_elif(syms, st, scope, es[0])->Ok_0.0;
        lemma_elifs_grows(syms, s1, scope, es.subrange(1, es.len() as int));
    }
}

proof fn lemma_elif_grows(
    syms: Seq<Seq<char>>,
    st: SState,
    scope: Seq<(Symbol, VarType)>,
    e: Option<ElifV>,
)
    requires
        spec_sema_elif(syms, st, scope, e) is Ok,
    ensures
        diags_extend(st.diags, spec_sema_elif(syms, st, scope, e)->Ok_0.0.diags),
    decreases e,
{
    match e {
        Some(x) => {
            lemma_expr_grows(syms, st, scope, x.cond);
            let s1 = spec_sema_expr(syms, st, scope, x.cond)->Ok_0.0;
            lemma_scope_grows(syms, s1, scope, x.scope);
        },
        None => {},
    }
}

/// Checking never takes back a diagnostic: every diagnostic reported before
/// the analysis of a statement list is still there, in its place, after it.
pub proof fn lemma_diagnostics_kept(
    syms: Seq<Seq<char>>,
    st: SState,
    scope: Seq<(Symbol, VarType)>,
    ss: Seq<NodeV>,
)
    requires
        spec_sema_stmts(syms, st, scope, ss) is Ok,
    ensures
        diags_extend(st.diags, spec_sema_stmts(syms, st, scope, ss)->Ok_0.0.diags),
{
    lemma_stmts_grows(syms, st, scope, ss);
}

// ---------------------------------------------------------------------------
// The analysis gives a typed tree.

/// Every node of the expression has type `t`.
pub open spec fn expr_typed(e: Expr, t: Type) -> bool
    decreases e,
{
    &&& e.ty == Some(t)
    &&& match e.lhs {
        Some(l) => expr_typed(*l, t),
        None => true,
    }
    &&& match e.rhs {
        Some(r) => expr_typed(*r, t),
        None => true,
    }
}

/// Every declaration in the statement, at any depth, has a type, and every
/// node of its value has that type.
pub open spec fn node_decls_typed(n: NodeV) -> bool
    decreases n,
{
    match n {
        NodeV::VarDecl(d) => d.ty is Some && expr_typed(*d.value, d.ty->Some_0),
        NodeV::Scope(s) => stmts_decls_typed(s.stmts),
        NodeV::StmtWhile(w) => stmts_decls_typed(w.scope.stmts),
        NodeV::StmtIf(x) => {
            &&& stmts_decls_typed(x.scope.stmts)
            &&& elifs_decls_typed(x.elifs)
            &&& match x.els {
                Some(e) => stmts_decls_typed(e.scope.stmts),
                None => true,
            }
        },
        _ => true,
    }
}

pub open spec fn stmts_decls_typed(ss: Seq<NodeV>) -> bool
    decreases ss,
{
    ss.len() == 0 || (node_decls_typed(ss[0]) && stmts_decls_typed(ss.subrange(1, ss.len() as int)))
}

pub open spec fn elifs_decls_typed(es: Seq<Option<ElifV>>) -> bool
    decreases es,
{
    es.len() == 0 || ((match es[0] {
        Some(e) => stmts_decls_typed(e.scope.stmts),
        None => true,
    }) && elifs_decls_typed(es.subrange(1, es.len() as int)))
}

proof fn lemma_set_all_types_typed(e: Expr, t: Type)
    ensures
        expr_typed(spec_set_all_types(e, t), t),
    decreases e,
{
    match e.lhs {
        Some(l) => lemma_set_all_types_typed(*l, t),
        None => {},
    }
    match e.rhs {
        Some(r) => lemma_set_all_types_typed(*r, t),
        None => {},
    }
}

proof fn lemma_var_decl_typed(syms: Seq<Seq<char>>, st: SState, scope: Seq<(Symbol, VarType)>, d: VarDecl)
    requires
        spec_sema_var_decl(syms, st, scope, d) is Ok,
    ensures
        spec_sema_var_decl(syms, st, scope, d)->Ok_0.2.ty is Some,
        expr_typed(
            *spec_sema_var_decl(syms, st, scope, d)->Ok_0.2.value,
            spec_sema_var_decl(syms, st, scope, d)->Ok_0.2.ty->Some_0,
        ),
{
    let s1 = spec_decl_check(syms, st, scope, d)->Ok_0;
    let v = spec_sema_expr(syms, s1, scope, *d.value)->Ok_0.1;
    let dty = if v.ty is None {
        d.ty
    } else {
        v.ty
    };
    let v2 = if d.decl_type is Some && dty is Some && d.decl_type != dty {
        if crate::ast::spec_convertible(dty->Some_0, d.decl_type->Some_0) {
            Expr { ty: d.decl_type, ..v }
        } else {
            v
        }
    } else {
        v
    };
    let d2 = spec_sema_var_decl(syms, st, scope, d)->Ok_0.2;
    assert(d2.ty is Some);
    let t = d2.ty->Some_0;
    assert(*d2.value == spec_set_all_types(v2, t));
    lemma_set_all_types_typed(v2, t);
}

proof fn lemma_while_typed(syms: Seq<Seq<char>>, st: SState, scope: Seq<(Symbol, VarType)>, x: WhileV)
    requires
        spec_sema_while(syms, st, scope, x) is Ok,
    ensures
        stmts_decls_typed(spec_sema_while(syms, st, scope, x)->Ok_0.1.scope.stmts),
    decreases x,
{
    let s1 = spec_sema_expr(syms, st, scope, x.cond)->Ok_0.0;
    lemma_scope_typed(syms, s1, scope, x.scope);
}

#[verifier::spinoff_prover]
#[verifier::rlimit(50)]
proof fn lemma_stmt_typed(syms: Seq<Seq<char>>, st: SState, scope: Seq<(Symbol, VarType)>, n: NodeV)
    requires
        spec_sema_stmt(syms, st, scope, n) is Ok,
    ensures
        node_decls_typed(spec_sema_stmt(syms, st, scope, n)->Ok_0.2),
    decreases n,
{
    match n {
        NodeV::VarDecl(d) => {
            lemma_var_decl_typed(syms, st, scope, d);
        },
        NodeV::StmtIf(x) => {
            lemma_if_typed(syms, st, scope, x);
        },
        NodeV::StmtWhile(x) => {
            lemma_while_typed(syms, st, scope, x);
        },
        NodeV::Scope(s) => {
            lemma_scope_typed(syms, st, scope, s);
        },
        _ => {},
    }
}

proof fn lemma_stmts_typed(syms: Seq<Seq<char>>, st: SState, scope: Seq<(Symbol, VarType)>, ss: Seq<NodeV>)
    requires
        spec_sema_stmts(syms, st, scope, ss) is Ok,
    ensures
        stmts_decls_typed(spec_sema_stmts(syms, st, scope, ss)->Ok_0.2),
    decreases ss,
{
    if ss.len() > 0 {
        lemma_stmt_typed(syms, st, scope, ss[0]);
        let (s1, sc1, n1) = spec_sema_stmt(syms, st, scope, ss[0])->Ok_0;
        let rest = ss.subrange(1, ss.len() as int);
        lemma_stmts_typed(syms, s1, sc1, rest);
        let tail = spec_sema_stmts(syms, s1, sc1, rest)->Ok_0.2;
        let all = seq![n1] + tail;
        assert(all[0] == n1);
        assert(all.subrange(1, all.len() as int) =~= tail);
    }
}

proof fn lemma_scope_typed(syms: Seq<Seq<char>>, st: SState, scope: Seq<(Symbol, VarType)>, s: ScopeV)
    requires
        spec_sema_scope(syms, st, scope, s) is Ok,
    ensures
        stmts_decls_typed(spec_sema_scope(syms, st, scope, s)->Ok_0.1.stmts),
    decreases s,
{
    lemma_stmts_typed(syms, st, scope, s.stmts);
}

proof fn lemma_if_typed(syms: Seq<Seq<char>>, st: SState, scope: Seq<(Symbol, VarType)>, x: StmtIfV)
    requires
        spec_sema_if(syms, st, scope, x) is Ok,
    ensures
        ({
            let y = spec_sema_if(syms, st, scope, x)->Ok_0.1;
            &&& stmts_decls_typed(y.scope.stmts)
            &&& elifs_decls_typed(y.elifs)
            &&& match y.els {
                Some(e) => stmts_decls_typed(e.scope.stmts),
                None => true,
            }
        }),
    decreases x,
{
    let s1 = spec_sema_expr(syms, st, scope, x.cond)->Ok_0.0;
    lemma_scope_typed(syms, s1, scope, x.scope);
    let s2 = spec_sema_scope(syms, s1, scope, x.scope)->Ok_0.0;
    lemma_elifs_typed(syms, s2, scope, x.elifs);
    let s3 = spec_sema_elifs(syms, s2, scope, x.elifs)->Ok_0.0;
    match x.els {
        Some(e) => {
            lemma_scope_typed(syms, s3, scope, e.scope);
        },
        None => {},
    }
}

proof fn lemma_elifs_typed(
    syms: Seq<Seq<char>>,
    st: SState,
    scope: Seq<(Symbol, VarType)>,
    es: Seq<Option<ElifV>>,
)
    requires
        spec_sema_elifs(syms, st, scope, es) is Ok,
    ensures
        elifs_decls_typed(spec_sema_elifs(syms, st, scope, es)->Ok_0.1),
    decreases es,
{
    if es.len() > 0 {
        let (s1, e1) = spec_sema_elif(syms, st, scope, es[0])->Ok_0;
        match es[0] {
            Some(x) => {
                let c1 = spec_sema_expr(syms, st, scope, x.cond)->Ok_0.0;
                lemma_scope_typed(syms, c1, scope, x.scope);
            },
            None => {},
        }
        let rest = es.subrange(1, es.len() as int);
        lemma_elifs_typed(syms, s1, scope, rest);
        let tail = spec_sema_elifs(syms, s1, scope, rest)->Ok_0.1;
        let all = seq![e1] + tail;
        assert(all[0] == e1);
        assert(all.subrange(1, all.len() as int) =~= tail);
    }
}

/// Analysis yields a typed tree: in a program it accepts, every declaration
/// at any depth has a type, and every node of the declared value has it.
pub proof fn lemma_declarations_typed(
    syms: Seq<Seq<char>>,
    st: SState,
    scope: Seq<(Symbol, VarType)>,
    ss: Seq<NodeV>,
)
    requires
        spec_sema_stmts(syms, st, scope, ss) is Ok,
    ensures
        stmts_decls_typed(spec_sema_stmts(syms, st, scope, ss)->Ok_0.2),
{
    lemma_stmts_typed(syms, st, scope, ss);
}

} // verus!
