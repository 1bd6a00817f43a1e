use vstd::prelude::*;

use crate::ast::{Expr, Type, VarDecl};
use crate::lexer::{Symbol, Token, TokenType};
use crate::parser::{
    adv, spec_args, spec_call_args, spec_cond, spec_def_args, spec_elif_loop, spec_expr,
    spec_binary, spec_fn_call, spec_program, spec_scope, spec_scope_loop, spec_stmt,
    spec_stmt_exit, spec_stmt_fn, spec_stmt_if, spec_stmt_while, spec_var_decl, spec_argument_pair,
    PState,
};
use crate::semalaws::diags_extend;

verus! {

pub open spec fn grew(a: PState, b: PState) -> bool {
    diags_extend(a.diags, b.diags)
}

proof fn lemma_trans(a: PState, b: PState, c: PState)
    requires
        grew(a, b),
        grew(b, c),
    ensures
        grew(a, c),
{
    assert forall|i: int| 0 <= i < a.diags.len() implies #[trigger] a.diags[i] == c.diags[i] by {
        assert(a.diags[i] == b.diags[i]);
        assert(b.diags[i] == c.diags[i]);
    }
}

proof fn lemma_expr_grows(toks: Seq<Token>, st: PState, min: u32)
    requires
        spec_expr(toks, st, min) is Ok,
    ensures
        grew(st, spec_expr(toks, st, min)->Ok_0.0),
    decreases crate::parser::rem(toks, st.pos), 1nat,
{
    let fin = spec_expr(toks, st, min)->Ok_0.0;
    let (s3, lhs) = if crate::parser::is_kind(toks, st.pos, TokenType::Lparen) {
        let s1 = adv(toks, st);
        lemma_expr_grows(toks, s1, 0);
        let (s2, inner) = spec_expr(toks, s1, 0)->Ok_0;
        let s3 = if !crate::parser::is_kind(toks, s2.pos, TokenType::Rparen) {
            let l = match crate::lexer::spec_at(toks, s2.pos) {
                Some(t) => t.loc,
                None => crate::ast::spec_empty_loc(),
            };
            crate::parser::err(s2, l, "expected closing `)`"@)
        } else {
            adv(toks, s2)
        };
        assert(grew(s2, s3));
        lemma_trans(s1, s2, s3);
        (s3, inner)
    } else {
        (st, None)
    };
    assert(grew(st, s3));
    match crate::lexer::spec_at(toks, s3.pos) {
        None => {
            assert(grew(s3, fin));
        },
        Some(tok) => if tok.kind == TokenType::Rparen || tok.kind == TokenType::Semi
            || tok.kind == TokenType::Rcurly || tok.kind == TokenType::Comma || tok.kind
            == TokenType::Lcurly {
            assert(fin == s3);
        } else {
            match tok.kind {
                TokenType::IntLit(val) => {
                    let e = Expr {
                        atom: crate::ast::AtomKind::IntLit(crate::ast::IntLit { val, loc: tok.loc }),
                        loc: tok.loc,
                        ..crate::ast::spec_empty_expr()
                    };
                    lemma_binary_grows(toks, adv(toks, s3), Some(e), min);
                    assert(grew(adv(toks, s3), fin));
                },
                TokenType::VarIdent(sym) => {
                    let e = Expr {
                        atom: crate::ast::AtomKind::Ident(crate::ast::Ident { name: sym, loc: tok.loc }),
                        loc: tok.loc,
                        ..crate::ast::spec_empty_expr()
                    };
                    lemma_binary_grows(toks, adv(toks, s3), Some(e), min);
                    assert(grew(adv(toks, s3), fin));
                },
                TokenType::Op(op) => {
                    if op == crate::lexer::Op::Nop {
                        assert(fin == s3);
                    } else if lhs is Some {
                        lemma_binary_grows(toks, s3, lhs, min);
                    } else if op == crate::lexer::Op::Add {
                        lemma_binary_grows(toks, adv(toks, s3), lhs, min);
                        assert(grew(adv(toks, s3), fin));
                    } else if op == crate::lexer::Op::Sub {
                        let s4a = adv(toks, s3);
                        lemma_expr_grows(toks, s4a, crate::parser::PREFIX_BP);
                        let (s4, operand) = spec_expr(toks, s4a, crate::parser::PREFIX_BP)->Ok_0;
                        lemma_trans(s3, s4a, s4);
                        if crate::parser::keeps(toks, st.pos, s4.pos) {
                            match operand {
                                None => {
                                    assert(grew(s4, fin));
                                },
                                Some(x) => {
                                    lemma_binary_grows(
                                        toks,
                                        s4,
                                        Some(crate::parser::spec_negate(x, tok.loc)),
                                        min,
                                    );
                                },
                            }
                            lemma_trans(s3, s4, fin);
                        }
                    } else {
                        lemma_binary_grows(toks, s3, lhs, min);
                    }
                },
                _ => {
                    assert(grew(s3, fin));
                },
            }
        },
    }
    lemma_trans(st, s3, fin);
}

proof fn lemma_binary_grows(toks: Seq<Token>, st: PState, lhs: Option<Expr>, min: u32)
    requires
        spec_binary(toks, st, lhs, min) is Ok,
    ensures
        grew(st, spec_binary(toks, st, lhs, min)->Ok_0.0),
    decreases crate::parser::rem(toks, st.pos), 0nat,
{
    match crate::lexer::spec_at(toks, st.pos) {
        Some(tok) => match tok.kind {
            TokenType::Op(op) => match crate::parser::spec_infix_bp(op) {
                Some((lbp, rbp)) => if lbp >= min && op != crate::lexer::Op::Nop {
                    let s1 = adv(toks, st);
                    lemma_expr_grows(toks, s1, rbp);
                    let (s2, orhs) = spec_expr(toks, s1, rbp)->Ok_0;
                    if crate::parser::keeps(toks, s1.pos, s2.pos) {
                        match (orhs, lhs) {
                            (Some(rhs), Some(l)) => {
                                let e = Expr {
                                    atom: crate::ast::AtomKind::NoAtom,
                                    loc: l.loc,
                                    op,
                                    lhs: Some(Box::new(l)),
                                    rhs: Some(Box::new(rhs)),
                                    ty: None,
                                };
                                lemma_binary_grows(toks, s2, Some(e), min);
                            },
                            _ => {},
                        }
                    }
                },
                None => {},
            },
            _ => {},
        },
        None => {},
    }
}

proof fn lemma_var_decl_grows(toks: Seq<Token>, st: PState, t: Token)
    requires
        spec_var_decl(toks, st, t) is Ok,
    ensures
        grew(st, spec_var_decl(toks, st, t)->Ok_0.0),
{
    let fin = spec_var_decl(toks, st, t)->Ok_0.0;
    match crate::lexer::spec_at(toks, st.pos) {
        None => {
            assert(grew(st, fin));
        },
        Some(idtok) => match idtok.kind {
            TokenType::VarIdent(sym) => {
                let s1 = adv(toks, st);
                let s2 = if crate::parser::is_kind(toks, s1.pos, TokenType::Colon) {
                    let p2 = adv(toks, s1);
                    let tytok = match crate::lexer::spec_at(toks, p2.pos) {
                        Some(x) => x,
                        None => crate::parser::spec_default_token(),
                    };
                    let s3 = if crate::lexer::spec_is_type_token(tytok.kind) {
                        p2
                    } else {
                        crate::parser::err(
                            p2,
                            tytok.loc,
                            "expected valid type specifier; got "@ + crate::lexer::spec_kind_text(tytok.kind)
                                + " instead"@,
                        )
                    };
                    assert(grew(p2, s3));
                    adv(toks, s3)
                } else {
                    s1
                };
                assert(grew(st, s2));
                let s4 = if !crate::parser::is_kind(toks, s2.pos, TokenType::Op(crate::lexer::Op::Asgn)) {
                    crate::parser::err(s2, t.loc, "expected `=` after variable declaration"@)
                } else {
                    s2
                };
                assert(grew(s2, s4));
                lemma_trans(st, s2, s4);
                let s5 = adv(toks, s4);
                lemma_expr_grows(toks, s5, 0);
                let s6 = spec_expr(toks, s5, 0)->Ok_0.0;
                lemma_trans(st, s5, s6);
                assert(grew(s6, fin));
                lemma_trans(st, s6, fin);
            },
            _ => {
                assert(grew(st, fin));
            },
        },
    }
}

proof fn lemma_exit_grows(toks: Seq<Token>, st: PState)
    requires
        spec_stmt_exit(toks, st) is Ok,
    ensures
        grew(st, spec_stmt_exit(toks, st)->Ok_0.0),
{
    lemma_expr_grows(toks, st, 0);
}

proof fn lemma_cond_grows(toks: Seq<Token>, st: PState, msg: Seq<char>)
    requires
        spec_cond(toks, st, msg) is Ok,
    ensures
        grew(st, spec_cond(toks, st, msg)->Ok_0.0),
{
    lemma_expr_grows(toks, st, 0);
}

proof fn lemma_call_args_grows(toks: Seq<Token>, st: PState, acc: Seq<Expr>)
    requires
        spec_call_args(toks, st, acc) is Ok,
    ensures
        grew(st, spec_call_args(toks, st, acc)->Ok_0.0),
    decreases crate::parser::rem(toks, st.pos),
{
    let fin = spec_call_args(toks, st, acc)->Ok_0.0;
    let (s1, loc) = crate::parser::spec_arg_loc(toks, st)->Some_0;
    assert(grew(st, s1));
    lemma_expr_grows(toks, s1, 0);
    let (s2, oe) = spec_expr(toks, s1, 0)->Ok_0;
    lemma_trans(st, s1, s2);
    let (s3, e) = match oe {
        Some(e) => (s2, e),
        None => (
            crate::parser::err(s2, loc, "received invalid arguments to function call"@),
            crate::ast::spec_empty_expr(),
        ),
    };
    assert(grew(s2, s3));
    lemma_trans(st, s2, s3);
    let acc2 = acc.push(e);
    if crate::parser::is_kind(toks, s3.pos, TokenType::Rparen) {
        assert(fin == s3);
    } else if !crate::parser::is_kind(toks, s3.pos, TokenType::Comma) {
        let s4 = crate::parser::err(s3, loc, "expected `,` between function arguments"@);
        assert(grew(s3, s4));
        lemma_trans(st, s3, s4);
        lemma_call_args_grows(toks, s4, acc2);
        lemma_trans(st, s4, fin);
    } else {
        let s4 = adv(toks, s3);
        lemma_call_args_grows(toks, s4, acc2);
        lemma_trans(st, s4, fin);
    }
}

proof fn lemma_def_args_grows(toks: Seq<Token>, st: PState, acc: Seq<(Symbol, Type)>)
    requires
        spec_def_args(toks, st, acc) is Ok,
    ensures
        grew(st, spec_def_args(toks, st, acc)->Ok_0.0),
    decreases crate::parser::rem(toks, st.pos),
{
    let fin = spec_def_args(toks, st, acc)->Ok_0.0;
    let (s1, loc) = crate::parser::spec_arg_loc(toks, st)->Some_0;
    assert(grew(st, s1));
    let (s2, op) = spec_argument_pair(toks, s1)->Ok_0;
    assert(grew(s1, s2));
    lemma_trans(st, s1, s2);
    let acc2 = match op {
        Some(p) => acc.push(p),
        None => acc,
    };
    if crate::parser::is_kind(toks, s2.pos, TokenType::Rparen) {
        assert(fin == s2);
    } else if !crate::parser::is_kind(toks, s2.pos, TokenType::Comma) {
        let s3 = crate::parser::err(s2, loc, "expected `,` between function arguments"@);
        assert(grew(s2, s3));
        lemma_trans(st, s2, s3);
        lemma_def_args_grows(toks, s3, acc2);
        lemma_trans(st, s3, fin);
    } else {
        let s3 = adv(toks, s2);
        lemma_def_args_grows(toks, s3, acc2);
        lemma_trans(st, s3, fin);
    }
}

proof fn lemma_args_grows(toks: Seq<Token>, st: PState, is_call: bool)
    requires
        spec_args(toks, st, is_call) is Ok,
    ensures
        grew(st, spec_args(toks, st, is_call)->Ok_0.0),
{
    let fin = spec_args(toks, st, is_call)->Ok_0.0;
    let s1 = if !crate::parser::is_kind(toks, st.pos, TokenType::Lparen) {
        crate::parser::err(st, crate::lexer::spec_at(toks, st.pos - 1)->Some_0.loc, "expected `(`"@)
    } else {
        adv(toks, st)
    };
    assert(grew(st, s1));
    if is_call {
        lemma_call_args_grows(toks, s1, Seq::empty());
    } else {
        lemma_def_args_grows(toks, s1, Seq::empty());
    }
    assert(grew(s1, fin));
    lemma_trans(st, s1, fin);
}

proof fn lemma_fn_call_grows(toks: Seq<Token>, st: PState, name: Symbol)
    requires
        spec_fn_call(toks, st, name) is Ok,
    ensures
        grew(st, spec_fn_call(toks, st, name)->Ok_0.0),
{
    lemma_args_grows(toks, adv(toks, st), true);
}

proof fn lemma_scope_grows(
    toks: Seq<Token>,
    st: PState,
    vars: Seq<(Symbol, VarDecl)>,
    fns: Seq<(Symbol, Type)>,
)
    requires
        spec_scope(toks, st, vars, fns) is Ok,
    ensures
        grew(st, spec_scope(toks, st, vars, fns)->Ok_0.0),
    decreases crate::parser::rem(toks, st.pos), 2nat,
{
    lemma_scope_loop_grows(toks, st, vars, fns);
}

proof fn lemma_scope_loop_grows(
    toks: Seq<Token>,
    st: PState,
    vars: Seq<(Symbol, VarDecl)>,
    fns: Seq<(Symbol, Type)>,
)
    requires
        spec_scope_loop(toks, st, vars, fns) is Ok,
    ensures
        grew(st, spec_scope_loop(toks, st, vars, fns)->Ok_0.0),
    decreases crate::parser::rem(toks, st.pos), 1nat,
{
    match crate::lexer::spec_at(toks, st.pos) {
        Some(tok) => if tok.kind != TokenType::Rcurly {
            lemma_stmt_grows(toks, st, vars, fns);
            let (s1, (_, vars2)) = spec_stmt(toks, st, vars, fns)->Ok_0;
            if crate::parser::keeps(toks, st.pos, s1.pos) && s1.pos != st.pos {
                lemma_scope_loop_grows(toks, s1, vars2, fns);
            }
        },
        None => {},
    }
}

proof fn lemma_stmt_grows(
    toks: Seq<Token>,
    st: PState,
    vars: Seq<(Symbol, VarDecl)>,
    fns: Seq<(Symbol, Type)>,
)
    requires
        spec_stmt(toks, st, vars, fns) is Ok,
    ensures
        grew(st, spec_stmt(toks, st, vars, fns)->Ok_0.0),
    decreases crate::parser::rem(toks, st.pos), 0nat,
{
    let tok = crate::lexer::spec_at(toks, st.pos)->Some_0;
    match tok.kind {
        TokenType::KwExit => {
            lemma_exit_grows(toks, adv(toks, st));
        },
        TokenType::KwLet | TokenType::KwMut => {
            lemma_var_decl_grows(toks, adv(toks, st), tok);
        },
        TokenType::VarIdent(sym) => {
            if crate::parser::is_kind(toks, st.pos + 1, TokenType::Lparen) {
                lemma_fn_call_grows(toks, st, sym);
            } else {
                lemma_var_decl_grows(toks, st, tok);
            }
        },
        TokenType::KwIf => {
            lemma_if_grows(toks, adv(toks, st), vars, fns);
        },
        TokenType::KwWhile => {
            lemma_while_grows(toks, adv(toks, st), vars, fns);
        },
        TokenType::KwFn => {
            lemma_fn_grows(toks, adv(toks, st), vars, fns);
        },
        TokenType::Lcurly => {
            lemma_scope_grows(toks, adv(toks, st), vars, fns);
        },
        _ => {},
    }
}

#[verifier::spinoff_prover]
#[verifier::rlimit(60)]
proof fn lemma_if_grows(
    toks: Seq<Token>,
    st: PState,
    vars: Seq<(Symbol, VarDecl)>,
    fns: Seq<(Symbol, Type)>,
)
    requires
        spec_stmt_if(toks, st, vars, fns) is Ok,
    ensures
        grew(st, spec_stmt_if(toks, st, vars, fns)->Ok_0.0),
    decreases crate::parser::rem(toks, st.pos), 4nat,
{
    let fin = spec_stmt_if(toks, st, vars, fns)->Ok_0.0;
    lemma_cond_grows(toks, st, "invalid condition for `if`"@);
    let s1 = spec_cond(toks, st, "invalid condition for `if`"@)->Ok_0.0;
    let s2 = adv(toks, s1);
    lemma_scope_grows(toks, s2, vars, fns);
    let s3 = spec_scope(toks, s2, vars, fns)->Ok_0.0;
    lemma_trans(st, s2, s3);
    lemma_elif_loop_grows(toks, s3, vars, fns);
    let s4 = spec_elif_loop(toks, s3, vars, fns)->Ok_0.0;
    lemma_trans(st, s3, s4);
    match crate::lexer::spec_at(toks, s4.pos) {
        Some(t) => if t.kind == TokenType::KwElse {
            let s5 = adv(toks, adv(toks, s4));
            lemma_scope_grows(toks, s5, vars, fns);
            assert(fin == spec_scope(toks, s5, vars, fns)->Ok_0.0);
            lemma_trans(st, s5, fin);
        } else {
            assert(fin == s4);
        },
        None => {
            assert(fin == s4);
        },
    }
}

proof fn lemma_elif_loop_grows(
    toks: Seq<Token>,
    st: PState,
    vars: Seq<(Symbol, VarDecl)>,
    fns: Seq<(Symbol, Type)>,
)
    requires
        spec_elif_loop(toks, st, vars, fns) is Ok,
    ensures
        grew(st, spec_elif_loop(toks, st, vars, fns)->Ok_0.0),
    decreases crate::parser::rem(toks, st.pos), 3nat,
{
    let fin = spec_elif_loop(toks, st, vars, fns)->Ok_0.0;
    match crate::lexer::spec_at(toks, st.pos) {
        Some(t) => if t.kind == TokenType::KwElif {
            lemma_expr_grows(toks, adv(toks, st), 0);
            let (s1, oc) = spec_expr(toks, adv(toks, st), 0)->Ok_0;
            let s2 = match oc {
                Some(c) => s1,
                None => crate::parser::err(s1, t.loc, "invalid condition for `elif`"@),
            };
            assert(grew(s1, s2));
            lemma_trans(adv(toks, st), s1, s2);
            let s3 = adv(toks, s2);
            lemma_scope_grows(toks, s3, vars, fns);
            let s4 = spec_scope(toks, s3, vars, fns)->Ok_0.0;
            lemma_trans(st, s3, s4);
            lemma_elif_loop_grows(toks, s4, vars, fns);
            assert(fin == spec_elif_loop(toks, s4, vars, fns)->Ok_0.0);
            lemma_trans(st, s4, fin);
        } else {
            assert(fin == st);
        },
        None => {
            assert(fin == st);
        },
    }
}

proof fn lemma_while_grows(
    toks: Seq<Token>,
    st: PState,
    vars: Seq<(Symbol, VarDecl)>,
    fns: Seq<(Symbol, Type)>,
)
    requires
        spec_stmt_while(toks, st, vars, fns) is Ok,
    ensures
        grew(st, spec_stmt_while(toks, st, vars, fns)->Ok_0.0),
    decreases crate::parser::rem(toks, st.pos), 4nat,
{
    lemma_cond_grows(toks, st, "invalid condition for `while`"@);
    let s1 = spec_cond(toks, st, "invalid condition for `while`"@)->Ok_0.0;
    let s2 = adv(toks, s1);
    if crate::parser::keeps(toks, st.pos, s2.pos) {
        lemma_scope_grows(toks, s2, vars, fns);
    }
}

#[verifier::spinoff_prover]
#[verifier::rlimit(60)]
proof fn lemma_fn_grows(
    toks: Seq<Token>,
    st: PState,
    vars: Seq<(Symbol, VarDecl)>,
    fns: Seq<(Symbol, Type)>,
)
    requires
        spec_stmt_fn(toks, st, vars, fns) is Ok,
    ensures
        grew(st, spec_stmt_fn(toks, st, vars, fns)->Ok_0.0),
    decreases crate::parser::rem(toks, st.pos), 4nat,
{
    let fin = spec_stmt_fn(toks, st, vars, fns)->Ok_0.0;
    let r1: Option<(PState, Symbol)> = match crate::lexer::spec_at(toks, st.pos) {
        Some(t) => match t.kind {
            TokenType::VarIdent(n) => Some((adv(toks, st), n)),
            _ => match crate::parser::err_behind(toks, st, "expected function identifier after `fn`"@) {
                None => None,
                Some(s) => Some((s, Symbol(0))),
            },
        },
        None => match crate::parser::err_behind(toks, st, "expected function identifier after `fn`"@) {
            None => None,
            Some(s) => Some((s, Symbol(0))),
        },
    };
    let (s1, _) = r1->Some_0;
    assert(grew(st, s1));
    lemma_args_grows(toks, s1, false);
    let s2 = spec_args(toks, s1, false)->Ok_0.0;
    lemma_trans(st, s1, s2);
    let s3 = if !crate::parser::is_kind(toks, s2.pos, TokenType::Rparen) {
        crate::parser::err_behind(toks, s2, "expected `)`"@)->Some_0
    } else {
        s2
    };
    assert(grew(s2, s3));
    lemma_trans(st, s2, s3);
    let s5 = adv(toks, s3);
    let s6 = crate::parser::spec_ret_type(toks, s5).0;
    assert(grew(s5, s6));
    lemma_trans(st, s5, s6);
    let s7 = if !crate::parser::is_kind(toks, s6.pos, TokenType::Lcurly) {
        crate::parser::err_behind(toks, s6, "expected `{`"@)->Some_0
    } else {
        s6
    };
    assert(grew(s6, s7));
    lemma_trans(st, s6, s7);
    let s8 = adv(toks, s7);
    lemma_scope_grows(toks, s8, vars, fns);
    assert(fin == spec_scope(toks, s8, vars, fns)->Ok_0.0);
    lemma_trans(st, s8, fin);
}

/// Parsing never takes back a diagnostic: every diagnostic there before a
/// program is parsed is still there, in its place, after it.
pub proof fn lemma_parse_keeps_diagnostics(toks: Seq<Token>, st: PState)
    requires
        spec_program(toks, st) is Ok,
    ensures
        diags_extend(st.diags, spec_program(toks, st)->Ok_0.0.diags),
{
    lemma_scope_grows(toks, st, Seq::empty(), Seq::empty());
}

} // verus!
