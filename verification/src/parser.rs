use std::rc::Rc;
use vstd::prelude::*;
use vstd::string::*;

use crate::ast::{
    copy_vars, rc_clone, spec_empty_expr, spec_empty_loc, spec_type_from_token, AtomKind, Call, CallV, ElifV, ElseV,
    Expr, Ident, IntLit, NodeV, Program, Scope, ScopeV, StmtElif, StmtElse, StmtExit, StmtFn,
    StmtFnV, StmtIf, StmtIfV, StmtWhile, Type, UnionNode, VarDecl, VarType, WhileV, call_view,
    fn_view, if_view, while_view, else_view, elif_view, elifs_view, nodes_view, node_view,
    scope_view, vars_view, lemma_nodes_view_push, lemma_elifs_view_push, lemma_vars_view_push,
};
use crate::assoc::{
    assoc_copy, assoc_get, assoc_insert, assoc_lookup, assoc_set, lemma_assoc_find_skip,
};
use crate::diagnostics::{DiagHandler, DiagView, Severity};
use crate::lexer::{
    spec_advance, spec_at, spec_is_type_token, spec_kind_text, spec_op_symbol, spec_token_text,
    Lexer, LocData, Op, Symbol, Token, TokenType,
};
use crate::traits::Iter;

verus! {

/// Parsing stopped on input it cannot continue from: a malformed statement
/// after which no further progress is possible.
#[derive(Debug, Clone, Copy, PartialEq, Eq, Structural)]
pub enum ParseError {
    Abort,
}

/// What the parser's control flow depends on and changes: the cursor, the
/// diagnostics, and the return types of the functions seen so far.
pub struct PState {
    pub pos: int,
    pub diags: Seq<DiagView>,
    pub fns: Seq<(Symbol, Type)>,
}

/// Arguments in parentheses: of a definition, or of a call.
pub enum ArgsV {
    Def(Seq<(Symbol, Type)>),
    Call(Seq<Expr>),
}

// ---------------------------------------------------------------------------
// Small pieces of the model

/// The distance of the cursor from one past the end: what every parsing step
/// decreases.
pub open spec fn rem(toks: Seq<Token>, pos: int) -> nat {
    if 0 <= pos <= toks.len() + 1 {
        (toks.len() + 2 - pos) as nat
    } else {
        0
    }
}

/// The cursor moved forward or stayed, within the tokens.
pub open spec fn keeps(toks: Seq<Token>, a: int, b: int) -> bool {
    0 <= a <= b <= toks.len() + 1
}

pub open spec fn adv(toks: Seq<Token>, st: PState) -> PState {
    PState { pos: spec_advance(toks, st.pos), ..st }
}

pub open spec fn err(st: PState, loc: LocData, msg: Seq<char>) -> PState {
    PState { diags: st.diags.push(DiagView { severity: Severity::Error, loc, msg }), ..st }
}

pub open spec fn is_kind(toks: Seq<Token>, pos: int, kind: TokenType) -> bool {
    match spec_at(toks, pos) {
        Some(t) => t.kind == kind,
        None => false,
    }
}

pub open spec fn spec_default_token() -> Token {
    Token { kind: TokenType::Null, loc: spec_empty_loc() }
}

pub open spec fn spec_default_decl() -> VarDecl {
    VarDecl {
        kind: VarType::Let,
        id: Ident { name: Symbol(0), loc: spec_empty_loc() },
        is_reassign: false,
        decl_type: None,
        ty: None,
        value: Box::new(spec_empty_expr()),
        loc: spec_empty_loc(),
    }
}

pub open spec fn vt_name(k: VarType) -> Seq<char> {
    match k {
        VarType::Let => "let"@,
        VarType::Mut => "mut"@,
    }
}

/// Binding powers (left, right) of the infix operators, in tenths; `None` for
/// an operator that is not infix.
pub open spec fn spec_infix_bp(op: Op) -> Option<(u32, u32)> {
    match op {
        Op::Asgn => Some((11, 10)),
        Op::LgOr => Some((20, 21)),
        Op::LgAnd => Some((30, 31)),
        Op::BwOr => Some((40, 41)),
        Op::BwXor => Some((50, 51)),
        Op::BwAnd => Some((60, 61)),
        Op::Eq | Op::Neq => Some((70, 71)),
        Op::Lt | Op::Gt | Op::Lte | Op::Gte => Some((80, 81)),
        Op::Lsl | Op::Lsr => Some((90, 91)),
        Op::Sub | Op::Add => Some((100, 101)),
        Op::Mod | Op::Div | Op::Mul => Some((110, 111)),
        Op::Pwr => Some((121, 120)),
        _ => None,
    }
}

pub open spec fn spec_check_semi(toks: Seq<Token>, st: PState, loc: LocData) -> PState {
    let k = match spec_at(toks, st.pos) {
        Some(t) => t.kind,
        None => TokenType::Null,
    };
    if k == TokenType::Semi {
        st
    } else if k == TokenType::Rparen {
        err(st, loc, "extraneous closing `)`"@)
    } else if k == TokenType::Rcurly {
        err(st, loc, "extraneous closing `}`"@)
    } else {
        err(st, loc, "expected `;`"@)
    }
}

// ---------------------------------------------------------------------------
// Expressions: precedence climbing

/// The binding power of a prefix `-`: tighter than `*`, looser than `**`, so
/// `-a * b` is `(-a) * b` and `-a ** b` is `-(a ** b)`.
pub const PREFIX_BP: u32 = 115;

/// An integer literal of the value `val`.
pub open spec fn spec_lit(val: i128, loc: LocData) -> Expr {
    Expr { atom: AtomKind::IntLit(IntLit { val, loc }), loc, ..spec_empty_expr() }
}

/// The negation of an operand: `-n` of a non-negative literal is the literal
/// `-n`; any other `-x` is `0 - x`.
pub open spec fn spec_negate(x: Expr, loc: LocData) -> Expr {
    match x.atom {
        AtomKind::IntLit(lit) if x.op == Op::Nop && x.lhs is None && x.rhs is None && lit.val >= 0 => spec_lit(
            (-lit.val) as i128,
            loc,
        ),
        _ => Expr {
            atom: AtomKind::NoAtom,
            loc,
            op: Op::Sub,
            lhs: Some(Box::new(spec_lit(0, loc))),
            rhs: Some(Box::new(x)),
            ty: None,
        },
    }
}

pub open spec fn spec_expr(toks: Seq<Token>, st: PState, min: u32) -> Result<
    (PState, Option<Expr>),
    ParseError,
>
    decreases rem(toks, st.pos), 1nat,
{
    let r1: Result<(PState, Option<Expr>), ParseError> = if is_kind(
        toks,
        st.pos,
        TokenType::Lparen,
    ) {
        let s1 = adv(toks, st);
        match spec_expr(toks, s1, 0) {
            Err(e) => Err(e),
            Ok((s2, inner)) => if !is_kind(toks, s2.pos, TokenType::Rparen) {
                let l = match spec_at(toks, s2.pos) {
                    Some(t) => t.loc,
                    None => spec_empty_loc(),
                };
                Ok((err(s2, l, "expected closing `)`"@), inner))
            } else {
                Ok((adv(toks, s2), inner))
            },
        }
    } else {
        Ok((st, None))
    };
    match r1 {
        Err(e) => Err(e),
        Ok((s3, lhs)) => if !keeps(toks, st.pos, s3.pos) {
            Err(ParseError::Abort)
        } else {
            match spec_at(toks, s3.pos) {
                None => match spec_at(toks, s3.pos - 1) {
                    None => Err(ParseError::Abort),
                    Some(prev) => Ok(
                        (
                            err(
                                s3,
                                prev.loc,
                                "expected expression after `"@ + spec_token_text(prev) + "`"@,
                            ),
                            lhs,
                        ),
                    ),
                },
                Some(tok) => if tok.kind == TokenType::Rparen || tok.kind == TokenType::Semi
                    || tok.kind == TokenType::Rcurly || tok.kind == TokenType::Comma || tok.kind
                    == TokenType::Lcurly {
                    Ok((s3, lhs))
                } else {
                    match tok.kind {
                        TokenType::IntLit(val) => spec_binary(
                            toks,
                            adv(toks, s3),
                            Some(
                                Expr {
                                    atom: AtomKind::IntLit(IntLit { val, loc: tok.loc }),
                                    loc: tok.loc,
                                    ..spec_empty_expr()
                                },
                            ),
                            min,
                        ),
                        TokenType::VarIdent(sym) => spec_binary(
                            toks,
                            adv(toks, s3),
                            Some(
                                Expr {
                                    atom: AtomKind::Ident(Ident { name: sym, loc: tok.loc }),
                                    loc: tok.loc,
                                    ..spec_empty_expr()
                                },
                            ),
                            min,
                        ),
                        TokenType::Op(op) => if op == Op::Nop {
                            Ok((s3, None))
                        } else if lhs is Some {
                            spec_binary(toks, s3, lhs, min)
                        } else if op == Op::Add {
                            spec_binary(toks, adv(toks, s3), lhs, min)
                        } else if op == Op::Sub {
                            match spec_expr(toks, adv(toks, s3), PREFIX_BP) {
                                Err(e) => Err(e),
                                Ok((s4, operand)) => if !keeps(toks, st.pos, s4.pos) {
                                    Err(ParseError::Abort)
                                } else {
                                    match operand {
                                        None => Ok(
                                            (
                                                err(
                                                    s4,
                                                    tok.loc,
                                                    "expected operand after `"@ + spec_op_symbol(op)
                                                        + "`"@,
                                                ),
                                                None,
                                            ),
                                        ),
                                        Some(x) => spec_binary(
                                            toks,
                                            s4,
                                            Some(spec_negate(x, tok.loc)),
                                            min,
                                        ),
                                    }
                                },
                            }
                        } else {
                            spec_binary(toks, s3, lhs, min)
                        },
                        _ => Ok(
                            (
                                err(
                                    s3,
                                    tok.loc,
                                    "invalid operand of type `"@ + spec_kind_text(tok.kind)
                                        + "` in expression"@,
                                ),
                                lhs,
                            ),
                        ),
                    }
                },
            }
        },
    }
}

/// The loop of binary operators after an operand.
pub open spec fn spec_binary(toks: Seq<Token>, st: PState, lhs: Option<Expr>, min: u32) -> Result<
    (PState, Option<Expr>),
    ParseError,
>
    decreases rem(toks, st.pos), 0nat,
{
    match spec_at(toks, st.pos) {
        Some(tok) => match tok.kind {
            TokenType::Op(op) => if op == Op::Nop {
                Err(ParseError::Abort)
            } else {
                match spec_infix_bp(op) {
                    None => Err(ParseError::Abort),
                    Some((lbp, rbp)) => if lbp < min {
                        Ok((st, lhs))
                    } else {
                        let s1 = adv(toks, st);
                        match spec_expr(toks, s1, rbp) {
                            Err(e) => Err(e),
                            Ok((s2, orhs)) => if !keeps(toks, s1.pos, s2.pos) {
                                Err(ParseError::Abort)
                            } else {
                                match orhs {
                                    Some(rhs) => match lhs {
                                        None => Err(ParseError::Abort),
                                        Some(l) => spec_binary(
                                            toks,
                                            s2,
                                            Some(
                                                Expr {
                                                    atom: AtomKind::NoAtom,
                                                    loc: l.loc,
                                                    op,
                                                    lhs: Some(Box::new(l)),
                                                    rhs: Some(Box::new(rhs)),
                                                    ty: None,
                                                },
                                            ),
                                            min,
                                        ),
                                    },
                                    None => Ok(
                                        (
                                            err(
                                                s2,
                                                tok.loc,
                                                "expected rhs operand in binary expression after `"@
                                                    + spec_op_symbol(op) + "`"@,
                                            ),
                                            lhs,
                                        ),
                                    ),
                                }
                            },
                        }
                    },
                }
            },
            _ => Ok((st, lhs)),
        },
        None => Ok((st, lhs)),
    }
}

// ---------------------------------------------------------------------------
// Declarations and simple statements

pub open spec fn spec_var_decl(toks: Seq<Token>, st: PState, t: Token) -> Result<
    (PState, Option<VarDecl>),
    ParseError,
> {
    let kind = if t.kind == TokenType::KwLet {
        VarType::Let
    } else {
        VarType::Mut
    };
    match spec_at(toks, st.pos) {
        None => Ok(
            (
                err(
                    st,
                    t.loc,
                    "expected identifier after variable declaration `"@ + vt_name(kind) + "`"@,
                ),
                None,
            ),
        ),
        Some(idtok) => match idtok.kind {
            TokenType::VarIdent(sym) => {
                let s1 = adv(toks, st);
                let (s2, decl_type) = if is_kind(toks, s1.pos, TokenType::Colon) {
                    let p2 = adv(toks, s1);
                    let tytok = match spec_at(toks, p2.pos) {
                        Some(x) => x,
                        None => spec_default_token(),
                    };
                    let (s3, dt) = if spec_is_type_token(tytok.kind) {
                        (p2, Some(spec_type_from_token(tytok.kind)))
                    } else {
                        (
                            err(
                                p2,
                                tytok.loc,
                                "expected valid type specifier; got "@ + spec_kind_text(tytok.kind)
                                    + " instead"@,
                            ),
                            None,
                        )
                    };
                    (adv(toks, s3), dt)
                } else {
                    (s1, None)
                };
                let s4 = if !is_kind(toks, s2.pos, TokenType::Op(Op::Asgn)) {
                    err(s2, t.loc, "expected `=` after variable declaration"@)
                } else {
                    s2
                };
                let s5 = adv(toks, s4);
                match spec_expr(toks, s5, 0) {
                    Err(e) => Err(e),
                    Ok((s6, oe)) => match oe {
                        Some(e) => match spec_at(toks, s6.pos - 1) {
                            None => Err(ParseError::Abort),
                            Some(prev) => Ok(
                                (
                                    spec_check_semi(toks, s6, prev.loc),
                                    Some(
                                        VarDecl {
                                            kind,
                                            id: Ident { name: sym, loc: idtok.loc },
                                            is_reassign: false,
                                            decl_type,
                                            ty: None,
                                            value: Box::new(e),
                                            loc: t.loc,
                                        },
                                    ),
                                ),
                            ),
                        },
                        None => Ok((err(s6, idtok.loc, "expected variable declaration"@), None)),
                    },
                }
            },
            _ => Ok(
                (
                    err(
                        st,
                        idtok.loc,
                        "expected identifier; got `"@ + spec_kind_text(idtok.kind) + "`"@,
                    ),
                    None,
                ),
            ),
        },
    }
}

pub open spec fn spec_stmt_exit(toks: Seq<Token>, st: PState) -> Result<
    (PState, StmtExit),
    ParseError,
> {
    match spec_expr(toks, st, 0) {
        Err(e) => Err(e),
        Ok((s1, oe)) => match spec_at(toks, s1.pos - 1) {
            None => Err(ParseError::Abort),
            Some(prev) => {
                let loc = prev.loc;
                let s2 = spec_check_semi(toks, s1, loc);
                let (s3, e) = match oe {
                    Some(e) => (s2, e),
                    None => (
                        err(s2, loc, "could not parse expression after `exit`"@),
                        spec_empty_expr(),
                    ),
                };
                Ok((s3, StmtExit { exit_code: Box::new(e), loc }))
            },
        },
    }
}

/// A condition; an empty expression and an error when there is none.
pub open spec fn spec_cond(toks: Seq<Token>, st: PState, msg: Seq<char>) -> Result<
    (PState, Expr),
    ParseError,
> {
    match spec_expr(toks, st, 0) {
        Err(e) => Err(e),
        Ok((s1, oe)) => match oe {
            Some(e) => Ok((s1, e)),
            None => match spec_at(toks, s1.pos - 1) {
                None => Err(ParseError::Abort),
                Some(p) => Ok((err(s1, p.loc, msg), spec_empty_expr())),
            },
        },
    }
}

// ---------------------------------------------------------------------------
// Arguments and calls

pub open spec fn spec_argument_pair(toks: Seq<Token>, st: PState) -> Result<
    (PState, Option<(Symbol, Type)>),
    ParseError,
> {
    if (match spec_at(toks, st.pos) {
        Some(t) => !(t.kind is VarIdent),
        None => false,
    }) {
        Ok((st, None))
    } else {
        let s1 = adv(toks, st);
        if !is_kind(toks, s1.pos, TokenType::Colon) {
            match spec_at(toks, s1.pos - 1) {
                None => Err(ParseError::Abort),
                Some(p) => Ok((err(s1, p.loc, "expected `:`"@), None)),
            }
        } else {
            match (spec_at(toks, s1.pos - 1), spec_at(toks, s1.pos + 1)) {
                (Some(argname), Some(ty)) => if spec_is_type_token(ty.kind)
                    && argname.kind is VarIdent {
                    Ok(
                        (
                            adv(toks, adv(toks, s1)),
                            Some((argname.kind->VarIdent_0, spec_type_from_token(ty.kind))),
                        ),
                    )
                } else {
                    Ok(
                        (
                            err(
                                s1,
                                argname.loc,
                                "expected valid `Type, Identifier` pair for function arguments"@,
                            ),
                            None,
                        ),
                    )
                },
                _ => Ok((s1, None)),
            }
        }
    }
}

/// The place of the next argument, with an error when there is no token.
pub open spec fn spec_arg_loc(toks: Seq<Token>, st: PState) -> Option<(PState, LocData)> {
    match spec_at(toks, st.pos) {
        Some(t) => Some((st, t.loc)),
        None => match spec_at(toks, st.pos - 1) {
            None => None,
            Some(p) => Some((err(st, p.loc, "expected token"@), spec_empty_loc())),
        },
    }
}

pub open spec fn spec_call_args(toks: Seq<Token>, st: PState, acc: Seq<Expr>) -> Result<
    (PState, Seq<Expr>),
    ParseError,
>
    decreases rem(toks, st.pos),
{
    match spec_arg_loc(toks, st) {
        None => Err(ParseError::Abort),
        Some((s1, loc)) => match spec_expr(toks, s1, 0) {
            Err(e) => Err(e),
            Ok((s2, oe)) => if !keeps(toks, st.pos, s2.pos) {
                Err(ParseError::Abort)
            } else {
                let (s3, e) = match oe {
                    Some(e) => (s2, e),
                    None => (
                        err(s2, loc, "received invalid arguments to function call"@),
                        spec_empty_expr(),
                    ),
                };
                let acc2 = acc.push(e);
                if is_kind(toks, s3.pos, TokenType::Rparen) {
                    Ok((s3, acc2))
                } else if !is_kind(toks, s3.pos, TokenType::Comma) {
                    let s4 = err(s3, loc, "expected `,` between function arguments"@);
                    if s4.pos == st.pos {
                        Err(ParseError::Abort)
                    } else {
                        spec_call_args(toks, s4, acc2)
                    }
                } else {
                    let s4 = adv(toks, s3);
                    if !keeps(toks, st.pos, s4.pos) || s4.pos == st.pos {
                        Err(ParseError::Abort)
                    } else {
                        spec_call_args(toks, s4, acc2)
                    }
                }
            },
        },
    }
}

pub open spec fn spec_def_args(toks: Seq<Token>, st: PState, acc: Seq<(Symbol, Type)>) -> Result<
    (PState, Seq<(Symbol, Type)>),
    ParseError,
>
    decreases rem(toks, st.pos),
{
    match spec_arg_loc(toks, st) {
        None => Err(ParseError::Abort),
        Some((s1, loc)) => match spec_argument_pair(toks, s1) {
            Err(e) => Err(e),
            Ok((s2, op)) => if !keeps(toks, st.pos, s2.pos) {
                Err(ParseError::Abort)
            } else {
                let acc2 = match op {
                    Some(p) => acc.push(p),
                    None => acc,
                };
                if is_kind(toks, s2.pos, TokenType::Rparen) {
                    Ok((s2, acc2))
                } else if !is_kind(toks, s2.pos, TokenType::Comma) {
                    let s3 = err(s2, loc, "expected `,` between function arguments"@);
                    if s3.pos == st.pos {
                        Err(ParseError::Abort)
                    } else {
                        spec_def_args(toks, s3, acc2)
                    }
                } else {
                    let s3 = adv(toks, s2);
                    if !keeps(toks, st.pos, s3.pos) || s3.pos == st.pos {
                        Err(ParseError::Abort)
                    } else {
                        spec_def_args(toks, s3, acc2)
                    }
                }
            },
        },
    }
}

pub open spec fn spec_args(toks: Seq<Token>, st: PState, is_call: bool) -> Result<
    (PState, Option<ArgsV>),
    ParseError,
> {
    let s1r = if !is_kind(toks, st.pos, TokenType::Lparen) {
        match spec_at(toks, st.pos - 1) {
            None => None,
            Some(p) => Some(err(st, p.loc, "expected `(`"@)),
        }
    } else {
        Some(adv(toks, st))
    };
    match s1r {
        None => Err(ParseError::Abort),
        Some(s1) => if is_call && is_kind(toks, s1.pos, TokenType::Rparen) {
            Ok((s1, None))
        } else if is_call {
            match spec_call_args(toks, s1, Seq::empty()) {
                Err(e) => Err(e),
                Ok((s2, a)) => Ok(
                    (
                        s2,
                        if a.len() > 0 {
                            Some(ArgsV::Call(a))
                        } else {
                            None
                        },
                    ),
                ),
            }
        } else {
            match spec_def_args(toks, s1, Seq::empty()) {
                Err(e) => Err(e),
                Ok((s2, a)) => Ok(
                    (
                        s2,
                        if a.len() > 0 {
                            Some(ArgsV::Def(a))
                        } else {
                            None
                        },
                    ),
                ),
            }
        },
    }
}

pub open spec fn spec_fn_call(toks: Seq<Token>, st: PState, name: Symbol) -> Result<
    (PState, CallV),
    ParseError,
> {
    match spec_at(toks, st.pos) {
        None => Err(ParseError::Abort),
        Some(t) => {
            let s1 = adv(toks, st);
            let rt = assoc_get(s1.fns, name);
            match spec_args(toks, s1, true) {
                Err(e) => Err(e),
                Ok((s2, oa)) => Ok(
                    (
                        s2,
                        CallV {
                            name,
                            args: match oa {
                                Some(ArgsV::Call(a)) => Some(a),
                                _ => None,
                            },
                            return_ty: rt,
                            loc: t.loc,
                        },
                    ),
                ),
            }
        },
    }
}

// ---------------------------------------------------------------------------
// Blocks and the statements that hold blocks

pub open spec fn scope_of(stmts: Seq<NodeV>, vars: Seq<(Symbol, VarDecl)>, fns: Seq<(Symbol, Type)>) -> ScopeV {
    ScopeV { stmts, vars, fns }
}

/// The statements of a block, up to and including its closing `}` (or the
/// end of the tokens).
pub open spec fn spec_scope(
    toks: Seq<Token>,
    st: PState,
    vars: Seq<(Symbol, VarDecl)>,
    fns: Seq<(Symbol, Type)>,
) -> Result<(PState, Seq<NodeV>), ParseError>
    decreases rem(toks, st.pos), 2nat,
{
    spec_scope_loop(toks, st, vars, fns)
}

pub open spec fn spec_scope_loop(
    toks: Seq<Token>,
    st: PState,
    vars: Seq<(Symbol, VarDecl)>,
    fns: Seq<(Symbol, Type)>,
) -> Result<(PState, Seq<NodeV>), ParseError>
    decreases rem(toks, st.pos), 1nat,
{
    match spec_at(toks, st.pos) {
        None => Ok((st, Seq::empty())),
        Some(tok) => if tok.kind == TokenType::Rcurly {
            Ok((adv(toks, st), Seq::empty()))
        } else {
            match spec_stmt(toks, st, vars, fns) {
                Err(e) => Err(e),
                Ok((s1, (node, vars2))) => if !keeps(toks, st.pos, s1.pos) || s1.pos == st.pos {
                    Err(ParseError::Abort)
                } else {
                    match spec_scope_loop(toks, s1, vars2, fns) {
                        Err(e) => Err(e),
                        Ok((s2, rest)) => Ok(
                            (
                                s2,
                                match node {
                                    Some(n) => seq![n] + rest,
                                    None => rest,
                                },
                            ),
                        ),
                    }
                },
            }
        },
    }
}

/// One statement of a block: the node it adds, and the variables visible after it.
pub open spec fn spec_stmt(
    toks: Seq<Token>,
    st: PState,
    vars: Seq<(Symbol, VarDecl)>,
    fns: Seq<(Symbol, Type)>,
) -> Result<(PState, (Option<NodeV>, Seq<(Symbol, VarDecl)>)), ParseError>
    decreases rem(toks, st.pos), 0nat,
{
    match spec_at(toks, st.pos) {
        None => Err(ParseError::Abort),
        Some(tok) => match tok.kind {
            TokenType::KwExit => match spec_stmt_exit(toks, adv(toks, st)) {
                Err(e) => Err(e),
                Ok((s, x)) => Ok((s, (Some(NodeV::StmtExit(x)), vars))),
            },
            TokenType::KwLet | TokenType::KwMut => match spec_var_decl(toks, adv(toks, st), tok) {
                Err(e) => Err(e),
                Ok((s, od)) => {
                    let (s2, d) = match od {
                        Some(d) => (s, d),
                        None => (err(s, tok.loc, "expected variable declaration"@), spec_default_decl()),
                    };
                    Ok((s2, (Some(NodeV::VarDecl(d)), assoc_insert(vars, d.id.name, d))))
                },
            },
            TokenType::VarIdent(sym) => if is_kind(toks, st.pos + 1, TokenType::Lparen) {
                match spec_fn_call(toks, st, sym) {
                    Err(e) => Err(e),
                    Ok((s, c)) => Ok((s, (Some(NodeV::Call(c)), vars))),
                }
            } else {
                match spec_var_decl(toks, st, tok) {
                    Err(e) => Err(e),
                    Ok((s, od)) => match od {
                        None => Err(ParseError::Abort),
                        Some(d) => {
                            let d2 = VarDecl { is_reassign: true, ..d };
                            Ok((s, (Some(NodeV::VarDecl(d2)), assoc_insert(vars, d2.id.name, d2))))
                        },
                    },
                }
            },
            TokenType::KwIf => match spec_stmt_if(toks, adv(toks, st), vars, fns) {
                Err(e) => Err(e),
                Ok((s, x)) => Ok((s, (Some(NodeV::StmtIf(x)), vars))),
            },
            TokenType::KwElif => Ok(
                (
                    err(adv(toks, st), tok.loc, "expected accompanying `if` statement for `elif`"@),
                    (None, vars),
                ),
            ),
            TokenType::KwElse => Ok(
                (
                    err(adv(toks, st), tok.loc, "expected accompanying `if` statement for `else`"@),
                    (None, vars),
                ),
            ),
            TokenType::KwWhile => match spec_stmt_while(toks, adv(toks, st), vars, fns) {
                Err(e) => Err(e),
                Ok((s, x)) => Ok((s, (Some(NodeV::StmtWhile(x)), vars))),
            },
            TokenType::KwFn => match spec_stmt_fn(toks, adv(toks, st), vars, fns) {
                Err(e) => Err(e),
                Ok((s, f)) => Ok(
                    (
                        PState { fns: assoc_insert(s.fns, f.name, f.return_ty), ..s },
                        (Some(NodeV::StmtFn(f)), vars),
                    ),
                ),
            },
            TokenType::Semi => Ok((adv(toks, st), (None, vars))),
            TokenType::Lcurly => match spec_scope(toks, adv(toks, st), vars, fns) {
                Err(e) => Err(e),
                Ok((s, stmts)) => Ok(
                    (s, (Some(NodeV::Scope(scope_of(stmts, Seq::empty(), Seq::empty()))), vars)),
                ),
            },
            _ => Ok((adv(toks, st), (None, vars))),
        },
    }
}

pub open spec fn spec_stmt_if(
    toks: Seq<Token>,
    st: PState,
    vars: Seq<(Symbol, VarDecl)>,
    fns: Seq<(Symbol, Type)>,
) -> Result<(PState, StmtIfV), ParseError>
    decreases rem(toks, st.pos), 4nat,
{
    match spec_cond(toks, st, "invalid condition for `if`"@) {
        Err(e) => Err(e),
        Ok((s1, cond)) => {
            let s2 = adv(toks, s1);
            if !keeps(toks, st.pos, s2.pos) {
                Err(ParseError::Abort)
            } else {
                match spec_scope(toks, s2, vars, fns) {
                    Err(e) => Err(e),
                    Ok((s3, body)) => if !keeps(toks, st.pos, s3.pos) {
                        Err(ParseError::Abort)
                    } else {
                        match spec_elif_loop(toks, s3, vars, fns) {
                            Err(e) => Err(e),
                            Ok((s4, elifs)) => if !keeps(toks, st.pos, s4.pos) {
                                Err(ParseError::Abort)
                            } else {
                                let x = StmtIfV {
                                    cond,
                                    scope: scope_of(body, vars, fns),
                                    elifs,
                                    els: None,
                                    loc: spec_empty_loc(),
                                };
                                match spec_at(toks, s4.pos) {
                                    Some(t) => if t.kind == TokenType::KwElse {
                                        match spec_scope(toks, adv(toks, adv(toks, s4)), vars, fns) {
                                            Err(e) => Err(e),
                                            Ok((s6, eb)) => Ok(
                                                (
                                                    s6,
                                                    StmtIfV {
                                                        els: Some(
                                                            ElseV {
                                                                scope: scope_of(eb, vars, fns),
                                                                loc: t.loc,
                                                            },
                                                        ),
                                                        ..x
                                                    },
                                                ),
                                            ),
                                        }
                                    } else {
                                        Ok((s4, x))
                                    },
                                    None => Ok((s4, x)),
                                }
                            },
                        }
                    },
                }
            }
        },
    }
}

pub open spec fn spec_elif_loop(
    toks: Seq<Token>,
    st: PState,
    vars: Seq<(Symbol, VarDecl)>,
    fns: Seq<(Symbol, Type)>,
) -> Result<(PState, Seq<Option<ElifV>>), ParseError>
    decreases rem(toks, st.pos), 3nat,
{
    match spec_at(toks, st.pos) {
        Some(t) => if t.kind == TokenType::KwElif {
            match spec_expr(toks, adv(toks, st), 0) {
                Err(e) => Err(e),
                Ok((s1, oc)) => {
                    let (s2, cond) = match oc {
                        Some(c) => (s1, c),
                        None => (err(s1, t.loc, "invalid condition for `elif`"@), spec_empty_expr()),
                    };
                    let s3 = adv(toks, s2);
                    if !keeps(toks, st.pos, s3.pos) || s3.pos == st.pos {
                        Err(ParseError::Abort)
                    } else {
                        match spec_scope(toks, s3, vars, fns) {
                            Err(e) => Err(e),
                            Ok((s4, body)) => if !keeps(toks, st.pos, s4.pos) || s4.pos == st.pos {
                                Err(ParseError::Abort)
                            } else {
                                match spec_elif_loop(toks, s4, vars, fns) {
                                    Err(e) => Err(e),
                                    Ok((s5, rest)) => Ok(
                                        (
                                            s5,
                                            seq![
                                                Some(
                                                    ElifV {
                                                        cond,
                                                        scope: scope_of(body, vars, fns),
                                                        loc: t.loc,
                                                    },
                                                ),
                                            ] + rest,
                                        ),
                                    ),
                                }
                            },
                        }
                    }
                },
            }
        } else {
            Ok((st, Seq::empty()))
        },
        None => Ok((st, Seq::empty())),
    }
}

pub open spec fn spec_stmt_while(
    toks: Seq<Token>,
    st: PState,
    vars: Seq<(Symbol, VarDecl)>,
    fns: Seq<(Symbol, Type)>,
) -> Result<(PState, WhileV), ParseError>
    decreases rem(toks, st.pos), 4nat,
{
    match spec_cond(toks, st, "invalid condition for `while`"@) {
        Err(e) => Err(e),
        Ok((s1, cond)) => {
            let s2 = adv(toks, s1);
            if !keeps(toks, st.pos, s2.pos) {
                Err(ParseError::Abort)
            } else {
                match spec_scope(toks, s2, vars, fns) {
                    Err(e) => Err(e),
                    Ok((s3, body)) => Ok(
                        (s3, WhileV { cond, scope: scope_of(body, vars, fns), loc: spec_empty_loc() }),
                    ),
                }
            }
        },
    }
}

/// An error at the token before the cursor; `None` where there is none.
pub open spec fn err_behind(toks: Seq<Token>, st: PState, msg: Seq<char>) -> Option<PState> {
    match spec_at(toks, st.pos - 1) {
        None => None,
        Some(p) => Some(err(st, p.loc, msg)),
    }
}

/// The return type after the `)` of a definition: the type after `->`, or
/// `Void` when no arrow follows (the cursor then stays put).
pub open spec fn spec_ret_type(toks: Seq<Token>, s5: PState) -> (PState, Type) {
    match spec_at(toks, s5.pos) {
        Some(tok) => if tok.kind == TokenType::Op(Op::ThinArrow) {
            let s6 = adv(toks, s5);
            match spec_at(toks, s6.pos) {
                Some(t2) => if spec_is_type_token(t2.kind) {
                    (adv(toks, s6), spec_type_from_token(t2.kind))
                } else {
                    (
                        adv(
                            toks,
                            err(
                                s6,
                                t2.loc,
                                "expected function return type; received `"@ + spec_kind_text(
                                    t2.kind,
                                ) + "`"@,
                            ),
                        ),
                        Type::NoType,
                    )
                },
                None => (err(s6, tok.loc, "expected function return type"@), Type::NoType),
            }
        } else {
            (s5, Type::Void)
        },
        None => (s5, Type::Void),
    }
}

pub open spec fn spec_stmt_fn(
    toks: Seq<Token>,
    st: PState,
    vars: Seq<(Symbol, VarDecl)>,
    fns: Seq<(Symbol, Type)>,
) -> Result<(PState, StmtFnV), ParseError>
    decreases rem(toks, st.pos), 4nat,
{
    let r1: Option<(PState, Symbol)> = match spec_at(toks, st.pos) {
        Some(t) => match t.kind {
            TokenType::VarIdent(n) => Some((adv(toks, st), n)),
            _ => match err_behind(toks, st, "expected function identifier after `fn`"@) {
                None => None,
                Some(s) => Some((s, Symbol(0))),
            },
        },
        None => match err_behind(toks, st, "expected function identifier after `fn`"@) {
            None => None,
            Some(s) => Some((s, Symbol(0))),
        },
    };
    match r1 {
        None => Err(ParseError::Abort),
        Some((s1, name)) => match spec_args(toks, s1, false) {
            Err(e) => Err(e),
            Ok((s2, oa)) => {
                let args = match oa {
                    Some(ArgsV::Def(a)) => Some(a),
                    _ => None,
                };
                let s3o = if !is_kind(toks, s2.pos, TokenType::Rparen) {
                    err_behind(toks, s2, "expected `)`"@)
                } else {
                    Some(s2)
                };
                match s3o {
                    None => Err(ParseError::Abort),
                    Some(s3) => {
                        let s5 = adv(toks, s3);
                        let (s6, ret) = spec_ret_type(toks, s5);
                        let s7o = if !is_kind(toks, s6.pos, TokenType::Lcurly) {
                            err_behind(toks, s6, "expected `{`"@)
                        } else {
                            Some(s6)
                        };
                        match s7o {
                            None => Err(ParseError::Abort),
                            Some(s7) => {
                                let s8 = adv(toks, s7);
                                if !keeps(toks, st.pos, s8.pos) {
                                    Err(ParseError::Abort)
                                } else {
                                    match spec_scope(toks, s8, vars, fns) {
                                        Err(e) => Err(e),
                                        Ok((s9, body)) => Ok(
                                            (
                                                s9,
                                                StmtFnV {
                                                    name,
                                                    args,
                                                    return_ty: ret,
                                                    body: scope_of(body, vars, fns),
                                                    loc: spec_empty_loc(),
                                                },
                                            ),
                                        ),
                                    }
                                }
                            },
                        }
                    },
                }
            },
        },
    }
}


// ---------------------------------------------------------------------------
// Helpers on association lists

fn vars_insert(v: &mut Vec<(Symbol, Rc<VarDecl>)>, k: Symbol, d: Rc<VarDecl>)
    ensures
        vars_view(final(v)@) == assoc_insert(vars_view(old(v)@), k, *d),
{
    let ghost vv = vars_view(old(v)@);
    let mut i: usize = 0;
    while i < v.len()
        invariant
            i <= v.len(),
            v@ == old(v)@,
            vv == vars_view(v@),
            forall|j: int| 0 <= j < i ==> vv[j].0 != k,
        decreases v.len() - i,
    {
        if v[i].0 == k {
            proof {
                lemma_assoc_find_skip(vv, k, i as int);
                assert(vv[i as int].0 == k);
            }
            v.set(i, (k, d));
            assert(vars_view(v@) =~= vv.update(i as int, (k, *d)));
            return;
        }
        i = i + 1;
    }
    proof {
        lemma_assoc_find_skip(vv, k, i as int);
    }
    v.push((k, d));
    assert(vars_view(v@) =~= vv.push((k, *d)));
}

// ---------------------------------------------------------------------------
// Messages

fn msg_expected_expr_after(prev: Token) -> (m: String)
    ensures
        m@ == "expected expression after `"@ + spec_token_text(prev) + "`"@,
{
    let mut m = String::new();
    m.append("expected expression after `");
    prev.push_text(&mut m);
    m.append("`");
    m
}

fn msg_invalid_operand(k: TokenType) -> (m: String)
    ensures
        m@ == "invalid operand of type `"@ + spec_kind_text(k) + "` in expression"@,
{
    let mut m = String::new();
    m.append("invalid operand of type `");
    k.push_text(&mut m);
    m.append("` in expression");
    m
}

fn msg_expected_rhs(op: Op) -> (m: String)
    ensures
        m@ == "expected rhs operand in binary expression after `"@ + spec_op_symbol(op) + "`"@,
{
    let mut m = String::new();
    m.append("expected rhs operand in binary expression after `");
    m.append(op.symbol());
    m.append("`");
    m
}

fn msg_expected_operand(op: Op) -> (m: String)
    ensures
        m@ == "expected operand after `"@ + spec_op_symbol(op) + "`"@,
{
    let mut m = String::new();
    m.append("expected operand after `");
    m.append(op.symbol());
    m.append("`");
    m
}

fn lit(val: i128, loc: LocData) -> (r: Expr)
    ensures
        r == spec_lit(val, loc),
{
    Expr { atom: AtomKind::IntLit(IntLit { val, loc }), op: Op::Nop, lhs: None, rhs: None, ty: None, loc }
}

fn negate(x: Expr, loc: LocData) -> (r: Expr)
    ensures
        r == spec_negate(x, loc),
{
    let folded = match x.atom {
        AtomKind::IntLit(l) => {
            if x.op == Op::Nop && x.lhs.is_none() && x.rhs.is_none() && l.val >= 0 {
                Some(lit(-l.val, loc))
            } else {
                None
            }
        },
        _ => None,
    };
    match folded {
        Some(e) => e,
        None => Expr {
            atom: AtomKind::NoAtom,
            loc,
            op: Op::Sub,
            lhs: Some(Box::new(lit(0, loc))),
            rhs: Some(Box::new(x)),
            ty: None,
        },
    }
}

fn msg_ident_after(kind: VarType) -> (m: String)
    ensures
        m@ == "expected identifier after variable declaration `"@ + vt_name(kind) + "`"@,
{
    let mut m = String::new();
    m.append("expected identifier after variable declaration `");
    match kind {
        VarType::Let => m.append("let"),
        VarType::Mut => m.append("mut"),
    }
    m.append("`");
    m
}

fn msg_got_ident(k: TokenType) -> (m: String)
    ensures
        m@ == "expected identifier; got `"@ + spec_kind_text(k) + "`"@,
{
    let mut m = String::new();
    m.append("expected identifier; got `");
    k.push_text(&mut m);
    m.append("`");
    m
}

fn msg_type_spec(k: TokenType) -> (m: String)
    ensures
        m@ == "expected valid type specifier; got "@ + spec_kind_text(k) + " instead"@,
{
    let mut m = String::new();
    m.append("expected valid type specifier; got ");
    k.push_text(&mut m);
    m.append(" instead");
    m
}

fn msg_ret_type(k: TokenType) -> (m: String)
    ensures
        m@ == "expected function return type; received `"@ + spec_kind_text(k) + "`"@,
{
    let mut m = String::new();
    m.append("expected function return type; received `");
    k.push_text(&mut m);
    m.append("`");
    m
}

// ---------------------------------------------------------------------------
// The parser

enum ArgVec {
    FnDefArgs(Vec<(Symbol, Type)>),
    FnCallArgs(Vec<Expr>),
}

spec fn argvec_view(a: Option<ArgVec>) -> Option<ArgsV> {
    match a {
        Some(ArgVec::FnDefArgs(v)) => Some(ArgsV::Def(v@)),
        Some(ArgVec::FnCallArgs(v)) => Some(ArgsV::Call(v@)),
        None => None,
    }
}

/// A result of the model against what a parsing method returned.
pub open spec fn res_ok<T>(s: Result<(PState, T), ParseError>, st: PState, r: Result<T, ParseError>) -> bool {
    match r {
        Ok(v) => s == Ok::<(PState, T), ParseError>((st, v)),
        Err(e) => s == Err::<(PState, T), ParseError>(e),
    }
}

/// The statements of a whole program: the top-level block.
pub open spec fn spec_program(toks: Seq<Token>, st: PState) -> Result<(PState, Seq<NodeV>), ParseError> {
    spec_scope(toks, st, Seq::empty(), Seq::empty())
}

/// What a statement-parsing method returned, against the model of one statement.
pub open spec fn stmt_matches(
    spec_r: Result<(PState, (Option<NodeV>, Seq<(Symbol, VarDecl)>)), ParseError>,
    st: PState,
    vars: Seq<(Symbol, VarDecl)>,
    r: Result<Option<UnionNode>, ParseError>,
) -> bool {
    match spec_r {
        Ok((s, (node, vars2))) => {
            &&& r is Ok
            &&& st == s
            &&& vars == vars2
            &&& match r {
                Ok(Some(n)) => node == Some(node_view(n)),
                _ => node is None,
            }
        },
        Err(e) => r == Err::<Option<UnionNode>, ParseError>(e),
    }
}

/// Parses the tokens of a lexer into a syntax tree, recording diagnostics.
pub struct Parser {
    diag: DiagHandler,
    lex: Lexer,
    fns: Vec<(Symbol, Type)>,
}

impl Parser {
    pub closed spec fn toks(&self) -> Seq<Token> {
        self.lex.toks()
    }

    pub closed spec fn pst(&self) -> PState {
        PState { pos: self.lex.pos(), diags: self.diag@, fns: self.fns@ }
    }

    pub closed spec fn syms(&self) -> Seq<Seq<char>> {
        self.lex.sym@
    }

    pub closed spec fn wf(&self) -> bool {
        self.lex.wf()
    }

    /// The parser after a step: same tokens and symbols, cursor moved forward.
    pub closed spec fn kept(&self, old: &Parser) -> bool {
        &&& self.wf()
        &&& self.toks() == old.toks()
        &&& self.lex.sym == old.lex.sym
        &&& keeps(self.toks(), old.pst().pos, self.pst().pos)
    }

    pub fn new(lex: Lexer, diagnostics: DiagHandler) -> (r: Parser)
        requires
            lex.wf(),
        ensures
            r.wf(),
            r.toks() == lex.toks(),
            r.syms() == lex.sym@,
            r.pst() == (PState { pos: lex.pos(), diags: diagnostics@, fns: Seq::empty() }),
    {
        Parser { diag: diagnostics, lex, fns: Vec::new() }
    }

    /// The diagnostics gathered so far.
    pub fn diagnostics(&self) -> (r: &DiagHandler)
        ensures
            r@ == self.pst().diags,
    {
        &self.diag
    }

    /// Gives back the lexer and the diagnostics.
    pub fn into_parts(self) -> (r: (Lexer, DiagHandler))
        ensures
            r.0.toks() == self.toks(),
            r.0.pos() == self.pst().pos,
            r.0.sym@ == self.syms(),
            r.1@ == self.pst().diags,
    {
        (self.lex, self.diag)
    }

    fn peek_tok(&self) -> (r: Option<Token>)
        ensures
            r == spec_at(self.toks(), self.pst().pos),
    {
        match self.lex.peek() {
            Some(t) => Some(*t),
            None => None,
        }
    }

    fn behind_tok(&self) -> (r: Option<Token>)
        ensures
            r == spec_at(self.toks(), self.pst().pos - 1),
    {
        match self.lex.peek_behind() {
            Some(t) => Some(*t),
            None => None,
        }
    }

    fn ahead_tok(&self) -> (r: Option<Token>)
        ensures
            r == spec_at(self.toks(), self.pst().pos + 1),
    {
        match self.lex.peek_ahead() {
            Some(t) => Some(*t),
            None => None,
        }
    }

    fn advance(&mut self)
        requires
            old(self).wf(),
        ensures
            final(self).kept(old(self)),
            final(self).pst() == adv(old(self).toks(), old(self).pst()),
            final(self).diag == old(self).diag,
            final(self).fns == old(self).fns,
    {
        self.lex.next();
    }

    fn push_err_at(&mut self, loc: LocData, msg: &str)
        requires
            old(self).wf(),
        ensures
            final(self).kept(old(self)),
            final(self).pst() == err(old(self).pst(), loc, msg@),
    {
        self.diag.push_err(loc, msg);
    }

    fn push_err_string(&mut self, loc: LocData, msg: String)
        requires
            old(self).wf(),
        ensures
            final(self).kept(old(self)),
            final(self).pst() == err(old(self).pst(), loc, msg@),
    {
        self.diag.push(Severity::Error, loc, msg);
    }

    /// Records an error at the token before the cursor; fails where there is none.
    fn err_behind(&mut self, msg: &str) -> (r: Result<(), ParseError>)
        requires
            old(self).wf(),
        ensures
            final(self).kept(old(self)),
            match err_behind(old(self).toks(), old(self).pst(), msg@) {
                Some(s) => r is Ok && final(self).pst() == s,
                None => r == Err::<(), ParseError>(ParseError::Abort),
            },
    {
        match self.behind_tok() {
            Some(p) => {
                self.push_err_at(p.loc, msg);
                Ok(())
            },
            None => Err(ParseError::Abort),
        }
    }

    /// Whether the token at the cursor is of the given kind.
    fn validate_tok(&self, kind: TokenType) -> (r: bool)
        ensures
            r == is_kind(self.toks(), self.pst().pos, kind),
    {
        match self.peek_tok() {
            Some(tok) => tok.kind == kind,
            None => false,
        }
    }

    fn get_infix_bp(&self, op: Op) -> (r: Option<(u32, u32)>)
        ensures
            r == spec_infix_bp(op),
    {
        match op {
            Op::Asgn => Some((11, 10)),
            Op::LgOr => Some((20, 21)),
            Op::LgAnd => Some((30, 31)),
            Op::BwOr => Some((40, 41)),
            Op::BwXor => Some((50, 51)),
            Op::BwAnd => Some((60, 61)),
            Op::Eq | Op::Neq => Some((70, 71)),
            Op::Lt | Op::Gt | Op::Lte | Op::Gte => Some((80, 81)),
            Op::Lsl | Op::Lsr => Some((90, 91)),
            Op::Sub | Op::Add => Some((100, 101)),
            Op::Mod | Op::Div | Op::Mul => Some((110, 111)),
            Op::Pwr => Some((121, 120)),
            _ => None,
        }
    }

    fn check_semi(&mut self, loc: LocData)
        requires
            old(self).wf(),
        ensures
            final(self).kept(old(self)),
            final(self).pst() == spec_check_semi(old(self).toks(), old(self).pst(), loc),
    {
        let k = match self.peek_tok() {
            Some(t) => t.kind,
            None => TokenType::Null,
        };
        if k == TokenType::Semi {
        } else if k == TokenType::Rparen {
            self.push_err_at(loc, "extraneous closing `)`");
        } else if k == TokenType::Rcurly {
            self.push_err_at(loc, "extraneous closing `}`");
        } else {
            self.push_err_at(loc, "expected `;`");
        }
    }

    fn parse_expr(&mut self, min_rbp: u32) -> (r: Result<Option<Expr>, ParseError>)
        requires
            old(self).wf(),
        ensures
            final(self).kept(old(self)),
            res_ok(spec_expr(old(self).toks(), old(self).pst(), min_rbp), final(self).pst(), r),
        decreases rem(old(self).toks(), old(self).pst().pos), 1nat,
    {
        let mut lhs: Option<Expr> = None;
        if self.validate_tok(TokenType::Lparen) {
            self.advance();
            match self.parse_expr(0) {
                Err(e) => {
                    return Err(e);
                },
                Ok(x) => {
                    lhs = x;
                },
            }
            if !self.validate_tok(TokenType::Rparen) {
                let loc = match self.peek_tok() {
                    Some(t) => t.loc,
                    None => LocData { line: 0, col: 0 },
                };
                self.push_err_at(loc, "expected closing `)`");
            } else {
                self.advance();
            }
        }
        match self.peek_tok() {
            None => match self.behind_tok() {
                None => Err(ParseError::Abort),
                Some(prev) => {
                    self.push_err_string(prev.loc, msg_expected_expr_after(prev));
                    Ok(lhs)
                },
            },
            Some(tok) => {
                if tok.kind == TokenType::Rparen || tok.kind == TokenType::Semi || tok.kind
                    == TokenType::Rcurly || tok.kind == TokenType::Comma || tok.kind == TokenType::Lcurly {
                    return Ok(lhs);
                }
                match tok.kind {
                    TokenType::IntLit(val) => {
                        let e = Expr {
                            atom: AtomKind::IntLit(IntLit { val, loc: tok.loc }),
                            op: Op::Nop,
                            lhs: None,
                            rhs: None,
                            ty: None,
                            loc: tok.loc,
                        };
                        self.advance();
                        self.parse_binary(Some(e), min_rbp)
                    },
                    TokenType::VarIdent(sym) => {
                        let e = Expr {
                            atom: AtomKind::Ident(Ident { name: sym, loc: tok.loc }),
                            op: Op::Nop,
                            lhs: None,
                            rhs: None,
                            ty: None,
                            loc: tok.loc,
                        };
                        self.advance();
                        self.parse_binary(Some(e), min_rbp)
                    },
                    TokenType::Op(op) => {
                        if op == Op::Nop {
                            Ok(None)
                        } else if lhs.is_some() {
                            self.parse_binary(lhs, min_rbp)
                        } else if op == Op::Add {
                            self.advance();
                            self.parse_binary(lhs, min_rbp)
                        } else if op == Op::Sub {
                            self.advance();
                            match self.parse_expr(PREFIX_BP) {
                                Err(e) => Err(e),
                                Ok(None) => {
                                    self.push_err_string(tok.loc, msg_expected_operand(op));
                                    Ok(None)
                                },
                                Ok(Some(x)) => {
                                    let u = negate(x, tok.loc);
                                    self.parse_binary(Some(u), min_rbp)
                                },
                            }
                        } else {
                            self.parse_binary(lhs, min_rbp)
                        }
                    },
                    _ => {
                        self.push_err_string(tok.loc, msg_invalid_operand(tok.kind));
                        Ok(lhs)
                    },
                }
            },
        }
    }

    fn parse_binary(&mut self, lhs: Option<Expr>, min_rbp: u32) -> (r: Result<Option<Expr>, ParseError>)
        requires
            old(self).wf(),
        ensures
            final(self).kept(old(self)),
            res_ok(
                spec_binary(old(self).toks(), old(self).pst(), lhs, min_rbp),
                final(self).pst(),
                r,
            ),
        decreases rem(old(self).toks(), old(self).pst().pos), 0nat,
    {
        match self.peek_tok() {
            None => Ok(lhs),
            Some(tok) => match tok.kind {
                TokenType::Op(op) => {
                    if op == Op::Nop {
                        return Err(ParseError::Abort);
                    }
                    match self.get_infix_bp(op) {
                        None => Err(ParseError::Abort),
                        Some((lbp, rbp)) => {
                            if lbp < min_rbp {
                                return Ok(lhs);
                            }
                            self.advance();
                            match self.parse_expr(rbp) {
                                Err(e) => Err(e),
                                Ok(orhs) => match orhs {
                                    Some(rhs) => match lhs {
                                        None => Err(ParseError::Abort),
                                        Some(l) => {
                                            let loc = l.loc;
                                            let node = Expr {
                                                atom: AtomKind::NoAtom,
                                                loc,
                                                op,
                                                lhs: Some(Box::new(l)),
                                                rhs: Some(Box::new(rhs)),
                                                ty: None,
                                            };
                                            self.parse_binary(Some(node), min_rbp)
                                        },
                                    },
                                    None => {
                                        self.push_err_string(tok.loc, msg_expected_rhs(op));
                                        Ok(lhs)
                                    },
                                },
                            }
                        },
                    }
                },
                _ => Ok(lhs),
            },
        }
    }

    fn parse_var_decl(&mut self, t: Token) -> (r: Result<Option<VarDecl>, ParseError>)
        requires
            old(self).wf(),
        ensures
            final(self).kept(old(self)),
            res_ok(spec_var_decl(old(self).toks(), old(self).pst(), t), final(self).pst(), r),
            (spec_at(old(self).toks(), old(self).pst().pos) matches Some(x) && x.kind is VarIdent)
                ==> final(self).pst().pos > old(self).pst().pos,
    {
        let kind = if t.kind == TokenType::KwLet {
            VarType::Let
        } else {
            VarType::Mut
        };
        match self.peek_tok() {
            None => {
                self.push_err_string(t.loc, msg_ident_after(kind));
                Ok(None)
            },
            Some(idtok) => match idtok.kind {
                TokenType::VarIdent(sym) => {
                    self.advance();
                    let mut decl_type: Option<Type> = None;
                    if self.validate_tok(TokenType::Colon) {
                        self.advance();
                        let tytok = match self.peek_tok() {
                            Some(x) => x,
                            None => Token { kind: TokenType::Null, loc: LocData { line: 0, col: 0 } },
                        };
                        if !tytok.kind.is_type_token() {
                            self.push_err_string(tytok.loc, msg_type_spec(tytok.kind));
                        } else {
                            decl_type = Some(Type::from_token(tytok.kind));
                        }
                        self.advance();
                    }
                    if !self.validate_tok(TokenType::Op(Op::Asgn)) {
                        self.push_err_at(t.loc, "expected `=` after variable declaration");
                    }
                    self.advance();
                    match self.parse_expr(0) {
                        Err(e) => Err(e),
                        Ok(Some(e)) => match self.behind_tok() {
                            None => Err(ParseError::Abort),
                            Some(prev) => {
                                self.check_semi(prev.loc);
                                Ok(
                                    Some(
                                        VarDecl {
                                            kind,
                                            id: Ident { name: sym, loc: idtok.loc },
                                            is_reassign: false,
                                            decl_type,
                                            ty: None,
                                            value: Box::new(e),
                                            loc: t.loc,
                                        },
                                    ),
                                )
                            },
                        },
                        Ok(None) => {
                            self.push_err_at(idtok.loc, "expected variable declaration");
                            Ok(None)
                        },
                    }
                },
                _ => {
                    self.push_err_string(idtok.loc, msg_got_ident(idtok.kind));
                    Ok(None)
                },
            },
        }
    }

    fn parse_stmt_exit(&mut self) -> (r: Result<StmtExit, ParseError>)
        requires
            old(self).wf(),
        ensures
            final(self).kept(old(self)),
            res_ok(spec_stmt_exit(old(self).toks(), old(self).pst()), final(self).pst(), r),
    {
        let expr = self.parse_expr(0);
        match expr {
            Err(e) => Err(e),
            Ok(oe) => match self.behind_tok() {
                None => Err(ParseError::Abort),
                Some(prev) => {
                    let loc = prev.loc;
                    self.check_semi(loc);
                    let e = match oe {
                        Some(e) => e,
                        None => {
                            self.push_err_at(loc, "could not parse expression after `exit`");
                            Expr::empty()
                        },
                    };
                    Ok(StmtExit { exit_code: Box::new(e), loc })
                },
            },
        }
    }

    fn parse_cond(&mut self, msg: &str) -> (r: Result<Expr, ParseError>)
        requires
            old(self).wf(),
        ensures
            final(self).kept(old(self)),
            res_ok(spec_cond(old(self).toks(), old(self).pst(), msg@), final(self).pst(), r),
    {
        match self.parse_expr(0) {
            Err(e) => Err(e),
            Ok(Some(e)) => Ok(e),
            Ok(None) => match self.behind_tok() {
                None => Err(ParseError::Abort),
                Some(p) => {
                    self.push_err_at(p.loc, msg);
                    Ok(Expr::empty())
                },
            },
        }
    }

    fn parse_argument_pair(&mut self) -> (r: Result<Option<(Symbol, Type)>, ParseError>)
        requires
            old(self).wf(),
        ensures
            final(self).kept(old(self)),
            res_ok(spec_argument_pair(old(self).toks(), old(self).pst()), final(self).pst(), r),
    {
        match self.peek_tok() {
            Some(tok) => {
                if !matches!(tok.kind, TokenType::VarIdent(_)) {
                    return Ok(None);
                }
            },
            None => {},
        }
        self.advance();
        if !self.validate_tok(TokenType::Colon) {
            return match self.behind_tok() {
                None => Err(ParseError::Abort),
                Some(p) => {
                    self.push_err_at(p.loc, "expected `:`");
                    Ok(None)
                },
            };
        }
        match (self.behind_tok(), self.ahead_tok()) {
            (Some(argname), Some(ty)) => {
                if ty.kind.is_type_token() && matches!(argname.kind, TokenType::VarIdent(_)) {
                    let sym = match argname.kind {
                        TokenType::VarIdent(s) => s,
                        _ => Symbol(0),
                    };
                    self.advance();
                    self.advance();
                    Ok(Some((sym, Type::from_token(ty.kind))))
                } else {
                    self.push_err_at(
                        argname.loc,
                        "expected valid `Type, Identifier` pair for function arguments",
                    );
                    Ok(None)
                }
            },
            _ => Ok(None),
        }
    }

    /// The place of the next argument, with an error when there is no token.
    fn arg_loc(&mut self) -> (r: Result<LocData, ParseError>)
        requires
            old(self).wf(),
        ensures
            final(self).kept(old(self)),
            match spec_arg_loc(old(self).toks(), old(self).pst()) {
                Some((s, l)) => r == Ok::<LocData, ParseError>(l) && final(self).pst() == s,
                None => r == Err::<LocData, ParseError>(ParseError::Abort),
            },
    {
        match self.peek_tok() {
            Some(t) => Ok(t.loc),
            None => match self.behind_tok() {
                None => Err(ParseError::Abort),
                Some(p) => {
                    self.push_err_at(p.loc, "expected token");
                    Ok(LocData { line: 0, col: 0 })
                },
            },
        }
    }

    fn parse_call_args(&mut self) -> (r: Result<Vec<Expr>, ParseError>)
        requires
            old(self).wf(),
        ensures
            final(self).kept(old(self)),
            match spec_call_args(old(self).toks(), old(self).pst(), Seq::empty()) {
                Ok((s, a)) => r matches Ok(v) && v@ == a && final(self).pst() == s,
                Err(e) => r == Err::<Vec<Expr>, ParseError>(e),
            },
    {
        let ghost st0 = self.pst();
        let ghost toks = self.toks();
        let mut call_args: Vec<Expr> = Vec::new();
        let mut done = false;
        while !done
            invariant
                self.kept(old(self)),
                toks == old(self).toks(),
                st0 == old(self).pst(),
                !done ==> match spec_call_args(toks, self.pst(), call_args@) {
                    Ok(x) => spec_call_args(toks, st0, Seq::empty()) == Ok::<
                        (PState, Seq<Expr>),
                        ParseError,
                    >(x),
                    Err(e) => spec_call_args(toks, st0, Seq::empty()) == Err::<
                        (PState, Seq<Expr>),
                        ParseError,
                    >(e),
                },
                done ==> spec_call_args(toks, st0, Seq::empty()) == Ok::<
                    (PState, Seq<Expr>),
                    ParseError,
                >((self.pst(), call_args@)),
            decreases rem(toks, self.pst().pos) + (if done { 0int } else { 1int }),
        {
            let ghost before = self.pst();
            let before_pos = self.lex.tok_ptr;
            let loc = match self.arg_loc() {
                Ok(l) => l,
                Err(e) => {
                    return Err(e);
                },
            };
            let e = match self.parse_expr(0) {
                Err(e) => {
                    return Err(e);
                },
                Ok(Some(e)) => e,
                Ok(None) => {
                    self.push_err_at(loc, "received invalid arguments to function call");
                    Expr::empty()
                },
            };
            call_args.push(e);
            if self.validate_tok(TokenType::Rparen) {
                done = true;
            } else if !self.validate_tok(TokenType::Comma) {
                self.push_err_at(loc, "expected `,` between function arguments");
                if self.lex.tok_ptr == before_pos {
                    return Err(ParseError::Abort);
                }
            } else {
                self.advance();
            }
        }
        Ok(call_args)
    }

    fn parse_def_args(&mut self) -> (r: Result<Vec<(Symbol, Type)>, ParseError>)
        requires
            old(self).wf(),
        ensures
            final(self).kept(old(self)),
            match spec_def_args(old(self).toks(), old(self).pst(), Seq::empty()) {
                Ok((s, a)) => r matches Ok(v) && v@ == a && final(self).pst() == s,
                Err(e) => r == Err::<Vec<(Symbol, Type)>, ParseError>(e),
            },
    {
        let ghost st0 = self.pst();
        let ghost toks = self.toks();
        let mut def_args: Vec<(Symbol, Type)> = Vec::new();
        let mut done = false;
        while !done
            invariant
                self.kept(old(self)),
                toks == old(self).toks(),
                st0 == old(self).pst(),
                !done ==> match spec_def_args(toks, self.pst(), def_args@) {
                    Ok(x) => spec_def_args(toks, st0, Seq::empty()) == Ok::<
                        (PState, Seq<(Symbol, Type)>),
                        ParseError,
                    >(x),
                    Err(e) => spec_def_args(toks, st0, Seq::empty()) == Err::<
                        (PState, Seq<(Symbol, Type)>),
                        ParseError,
                    >(e),
                },
                done ==> spec_def_args(toks, st0, Seq::empty()) == Ok::<
                    (PState, Seq<(Symbol, Type)>),
                    ParseError,
                >((self.pst(), def_args@)),
            decreases rem(toks, self.pst().pos) + (if done { 0int } else { 1int }),
        {
            let ghost before = self.pst();
            let before_pos = self.lex.tok_ptr;
            let loc = match self.arg_loc() {
                Ok(l) => l,
                Err(e) => {
                    return Err(e);
                },
            };
            match self.parse_argument_pair() {
                Err(e) => {
                    return Err(e);
                },
                Ok(Some(p)) => {
                    def_args.push(p);
                },
                Ok(None) => {},
            }
            if self.validate_tok(TokenType::Rparen) {
                done = true;
            } else if !self.validate_tok(TokenType::Comma) {
                self.push_err_at(loc, "expected `,` between function arguments");
                if self.lex.tok_ptr == before_pos {
                    return Err(ParseError::Abort);
                }
            } else {
                self.advance();
            }
        }
        Ok(def_args)
    }

    fn parse_args(&mut self, is_call: bool) -> (r: Result<Option<ArgVec>, ParseError>)
        requires
            old(self).wf(),
        ensures
            final(self).kept(old(self)),
            match spec_args(old(self).toks(), old(self).pst(), is_call) {
                Ok((s, a)) => r matches Ok(v) && argvec_view(v) == a && final(self).pst() == s,
                Err(e) => r == Err::<Option<ArgVec>, ParseError>(e),
            },
    {
        if !self.validate_tok(TokenType::Lparen) {
            match self.behind_tok() {
                None => {
                    return Err(ParseError::Abort);
                },
                Some(p) => {
                    self.push_err_at(p.loc, "expected `(`");
                },
            }
        } else {
            self.advance();
        }
        if is_call && self.validate_tok(TokenType::Rparen) {
            Ok(None)
        } else if is_call {
            let call_args = self.parse_call_args()?;
            if call_args.len() > 0 {
                Ok(Some(ArgVec::FnCallArgs(call_args)))
            } else {
                Ok(None)
            }
        } else {
            let def_args = self.parse_def_args()?;
            if def_args.len() > 0 {
                Ok(Some(ArgVec::FnDefArgs(def_args)))
            } else {
                Ok(None)
            }
        }
    }

    fn parse_fn_call(&mut self, name: Symbol) -> (r: Result<Call, ParseError>)
        requires
            old(self).wf(),
        ensures
            final(self).kept(old(self)),
            r is Ok ==> final(self).pst().pos > old(self).pst().pos,
            match spec_fn_call(old(self).toks(), old(self).pst(), name) {
                Ok((s, c)) => r matches Ok(v) && call_view(v) == c && final(self).pst() == s,
                Err(e) => r == Err::<Call, ParseError>(e),
            },
    {
        let loc = match self.peek_tok() {
            Some(t) => t.loc,
            None => {
                return Err(ParseError::Abort);
            },
        };
        self.advance();
        let return_ty = assoc_lookup(&self.fns, name);
        let args = match self.parse_args(true)? {
            Some(ArgVec::FnCallArgs(a)) => Some(a),
            _ => None,
        };
        Ok(Call { name, args, return_ty, loc })
    }

    fn parse_ret_type(&mut self) -> (ret: Type)
        requires
            old(self).wf(),
        ensures
            final(self).kept(old(self)),
            (final(self).pst(), ret) == spec_ret_type(old(self).toks(), old(self).pst()),
    {
        match self.peek_tok() {
            Some(tok) => {
                if tok.kind == TokenType::Op(Op::ThinArrow) {
                    self.advance();
                    match self.peek_tok() {
                        Some(t2) => {
                            let r = if t2.kind.is_type_token() {
                                Type::from_token(t2.kind)
                            } else {
                                self.push_err_string(t2.loc, msg_ret_type(t2.kind));
                                Type::NoType
                            };
                            self.advance();
                            r
                        },
                        None => {
                            self.push_err_at(tok.loc, "expected function return type");
                            Type::NoType
                        },
                    }
                } else {
                    Type::Void
                }
            },
            None => Type::Void,
        }
    }

    /// Parses the statements of a block into `outer`, up to and including its
    /// closing `}` or the end of the tokens.
    #[verifier::spinoff_prover]
    #[verifier::rlimit(80)]
    fn parse_scope(&mut self, outer: &mut Scope) -> (r: Result<(), ParseError>)
        requires
            old(self).wf(),
        ensures
            final(self).kept(old(self)),
            match spec_scope(old(self).toks(), old(self).pst(), old(outer)@.vars, old(outer)@.fns) {
                Ok((s, new_stmts)) => r is Ok && final(self).pst() == s && final(outer)@ == (ScopeV {
                    stmts: old(outer)@.stmts + new_stmts,
                    ..old(outer)@
                }),
                Err(e) => r == Err::<(), ParseError>(e),
            },
        decreases rem(old(self).toks(), old(self).pst().pos), 2nat,
    {
        let ghost st0 = self.pst();
        let ghost toks = self.toks();
        let ghost vars0 = outer@.vars;
        let ghost fns0 = outer@.fns;
        let ghost stmts0 = outer@.stmts;
        let mut loc_scp = Scope {
            stmts: Vec::new(),
            vars: copy_vars(&outer.vars),
            fns: assoc_copy(&outer.fns),
        };
        assert(loc_scp@.vars == vars0);
        let mut done = false;
        while !done
            invariant
                self.kept(old(self)),
                toks == old(self).toks(),
                st0 == old(self).pst(),
                outer@.vars == vars0,
                outer@.fns == fns0,
                loc_scp@.fns == fns0,
                loc_scp.stmts@.len() == 0,
                vars0 == old(outer)@.vars,
                fns0 == old(outer)@.fns,
                stmts0 == old(outer)@.stmts,
                stmts0.is_prefix_of(outer@.stmts),
                !done ==> match spec_scope_loop(toks, self.pst(), loc_scp@.vars, fns0) {
                    Ok((s, rest)) => spec_scope(toks, st0, vars0, fns0) == Ok::<
                        (PState, Seq<NodeV>),
                        ParseError,
                    >((s, outer@.stmts.skip(stmts0.len() as int) + rest)),
                    Err(e) => spec_scope(toks, st0, vars0, fns0) == Err::<
                        (PState, Seq<NodeV>),
                        ParseError,
                    >(e),
                },
                done ==> spec_scope(toks, st0, vars0, fns0) == Ok::<
                    (PState, Seq<NodeV>),
                    ParseError,
                >((self.pst(), outer@.stmts.skip(stmts0.len() as int))),
            decreases rem(toks, self.pst().pos) + (if done { 0int } else { 1int }),
        {
            match self.peek_tok() {
                None => {
                    done = true;
                    assert(outer@.stmts.skip(stmts0.len() as int) + Seq::<NodeV>::empty()
                        =~= outer@.stmts.skip(stmts0.len() as int));
                },
                Some(tok) => {
                    if tok.kind == TokenType::Rcurly {
                        self.advance();
                        done = true;
                        assert(outer@.stmts.skip(stmts0.len() as int) + Seq::<NodeV>::empty()
                            =~= outer@.stmts.skip(stmts0.len() as int));
                    } else {
                        let ghost before_outer = outer@.stmts;
                        let node = self.parse_stmt(&mut loc_scp);
                        match node {
                            Err(e) => {
                                return Err(e);
                            },
                            Ok(Some(n)) => {
                                outer.stmts.push(n);
                                proof {
                                    let k = stmts0.len() as int;
                                    assert(outer@.stmts =~= before_outer.push(node_view(n)));
                                    match spec_scope_loop(toks, self.pst(), loc_scp@.vars, fns0) {
                                        Ok((s, rest)) => {
                                            assert(before_outer.skip(k).push(node_view(n)) + rest
                                                =~= before_outer.skip(k) + (seq![node_view(n)] + rest));
                                        },
                                        Err(e) => {},
                                    }
                                    assert(outer@.stmts.skip(stmts0.len() as int) =~= before_outer.skip(
                                        stmts0.len() as int,
                                    ).push(node_view(n)));
                                    assert(stmts0.is_prefix_of(outer@.stmts)) by {
                                        assert(outer@.stmts.subrange(0, stmts0.len() as int)
                                            =~= before_outer.subrange(0, stmts0.len() as int));
                                    }
                                }
                            },
                            Ok(None) => {},
                        }
                    }
                },
            }
        }
        assert(stmts0 + outer@.stmts.skip(stmts0.len() as int) =~= outer@.stmts);
        Ok(())
    }

    /// Parses one statement of a block.
    fn parse_stmt(&mut self, loc_scp: &mut Scope) -> (r: Result<Option<UnionNode>, ParseError>)
        requires
            old(self).wf(),
            old(loc_scp).stmts@.len() == 0,
            spec_at(old(self).toks(), old(self).pst().pos) is Some,
        ensures
            final(self).kept(old(self)),
            r is Ok ==> final(loc_scp).stmts@.len() == 0,
            r is Ok ==> final(loc_scp)@.fns == old(loc_scp)@.fns,
            r is Ok ==> final(self).pst().pos > old(self).pst().pos,
            stmt_matches(
                spec_stmt(old(self).toks(), old(self).pst(), old(loc_scp)@.vars, old(loc_scp)@.fns),
                final(self).pst(),
                final(loc_scp)@.vars,
                r,
            ),
        decreases rem(old(self).toks(), old(self).pst().pos), 1nat,
    {
        let tok = match self.peek_tok() {
            Some(t) => t,
            None => {
                return Err(ParseError::Abort);
            },
        };
        match tok.kind {
            TokenType::KwLet | TokenType::KwMut => self.parse_decl_stmt(tok, loc_scp),
            TokenType::VarIdent(sym) => self.parse_ident_stmt(tok, sym, loc_scp),
            TokenType::KwIf => self.parse_if_stmt(tok, loc_scp),
            TokenType::KwWhile => self.parse_while_stmt(tok, loc_scp),
            TokenType::KwFn => self.parse_fn_stmt(tok, loc_scp),
            TokenType::Lcurly => {
                self.advance();
                self.parse_block(loc_scp)
            },
            _ => self.parse_simple_stmt(tok, loc_scp),
        }
    }

    /// `exit`, `;`, a stray `elif` or `else`, or any other token, which is skipped.
    fn parse_simple_stmt(&mut self, tok: Token, loc_scp: &mut Scope) -> (r: Result<Option<UnionNode>, ParseError>)
        requires
            old(self).wf(),
            spec_at(old(self).toks(), old(self).pst().pos) == Some(tok),
            !(tok.kind is KwLet || tok.kind is KwMut || tok.kind is VarIdent || tok.kind is KwIf
                || tok.kind is KwWhile || tok.kind is KwFn || tok.kind is Lcurly),
        ensures
            final(self).kept(old(self)),
            *final(loc_scp) == *old(loc_scp),
            r is Ok ==> final(self).pst().pos > old(self).pst().pos,
            stmt_matches(
                spec_stmt(old(self).toks(), old(self).pst(), old(loc_scp)@.vars, old(loc_scp)@.fns),
                final(self).pst(),
                final(loc_scp)@.vars,
                r,
            ),
    {
        self.advance();
        match tok.kind {
            TokenType::KwExit => {
                let enode = self.parse_stmt_exit()?;
                Ok(Some(UnionNode::StmtExit(enode)))
            },
            TokenType::KwElif => {
                self.push_err_at(tok.loc, "expected accompanying `if` statement for `elif`");
                Ok(None)
            },
            TokenType::KwElse => {
                self.push_err_at(tok.loc, "expected accompanying `if` statement for `else`");
                Ok(None)
            },
            _ => Ok(None),
        }
    }

    /// `if` with its branches.
    fn parse_if_stmt(&mut self, tok: Token, loc_scp: &mut Scope) -> (r: Result<Option<UnionNode>, ParseError>)
        requires
            old(self).wf(),
            spec_at(old(self).toks(), old(self).pst().pos) == Some(tok),
            tok.kind is KwIf,
        ensures
            final(self).kept(old(self)),
            *final(loc_scp) == *old(loc_scp),
            r is Ok ==> final(self).pst().pos > old(self).pst().pos,
            stmt_matches(
                spec_stmt(old(self).toks(), old(self).pst(), old(loc_scp)@.vars, old(loc_scp)@.fns),
                final(self).pst(),
                final(loc_scp)@.vars,
                r,
            ),
        decreases rem(old(self).toks(), old(self).pst().pos), 0nat,
    {
        self.advance();
        let stmt_if = self.parse_stmt_if(loc_scp)?;
        Ok(Some(UnionNode::StmtIf(stmt_if)))
    }

    /// `while`.
    fn parse_while_stmt(&mut self, tok: Token, loc_scp: &mut Scope) -> (r: Result<Option<UnionNode>, ParseError>)
        requires
            old(self).wf(),
            spec_at(old(self).toks(), old(self).pst().pos) == Some(tok),
            tok.kind is KwWhile,
        ensures
            final(self).kept(old(self)),
            *final(loc_scp) == *old(loc_scp),
            r is Ok ==> final(self).pst().pos > old(self).pst().pos,
            stmt_matches(
                spec_stmt(old(self).toks(), old(self).pst(), old(loc_scp)@.vars, old(loc_scp)@.fns),
                final(self).pst(),
                final(loc_scp)@.vars,
                r,
            ),
        decreases rem(old(self).toks(), old(self).pst().pos), 0nat,
    {
        self.advance();
        let stmt_while = self.parse_stmt_while(loc_scp)?;
        Ok(Some(UnionNode::StmtWhile(stmt_while)))
    }

    /// `fn`: a definition, whose return type the parser records.
    fn parse_fn_stmt(&mut self, tok: Token, loc_scp: &mut Scope) -> (r: Result<Option<UnionNode>, ParseError>)
        requires
            old(self).wf(),
            spec_at(old(self).toks(), old(self).pst().pos) == Some(tok),
            tok.kind is KwFn,
        ensures
            final(self).kept(old(self)),
            *final(loc_scp) == *old(loc_scp),
            r is Ok ==> final(self).pst().pos > old(self).pst().pos,
            stmt_matches(
                spec_stmt(old(self).toks(), old(self).pst(), old(loc_scp)@.vars, old(loc_scp)@.fns),
                final(self).pst(),
                final(loc_scp)@.vars,
                r,
            ),
        decreases rem(old(self).toks(), old(self).pst().pos), 0nat,
    {
        self.advance();
        let stmt_fn = self.parse_stmt_fn(loc_scp)?;
        assoc_set(&mut self.fns, stmt_fn.name, stmt_fn.return_ty);
        Ok(Some(UnionNode::StmtFn(stmt_fn)))
    }

    /// A `let` or `mut` declaration.
    fn parse_decl_stmt(&mut self, tok: Token, loc_scp: &mut Scope) -> (r: Result<Option<UnionNode>, ParseError>)
        requires
            old(self).wf(),
            spec_at(old(self).toks(), old(self).pst().pos) == Some(tok),
            tok.kind == TokenType::KwLet || tok.kind == TokenType::KwMut,
        ensures
            final(self).kept(old(self)),
            final(loc_scp).stmts == old(loc_scp).stmts,
            final(loc_scp).fns == old(loc_scp).fns,
            r is Ok ==> final(self).pst().pos > old(self).pst().pos,
            stmt_matches(
                spec_stmt(old(self).toks(), old(self).pst(), old(loc_scp)@.vars, old(loc_scp)@.fns),
                final(self).pst(),
                final(loc_scp)@.vars,
                r,
            ),
    {
                self.advance();
                let decl = match self.parse_var_decl(tok)? {
                    Some(d) => d,
                    None => {
                        self.push_err_at(tok.loc, "expected variable declaration");
                        VarDecl {
                            kind: VarType::Let,
                            id: Ident { name: Symbol(0), loc: LocData { line: 0, col: 0 } },
                            is_reassign: false,
                            decl_type: None,
                            ty: None,
                            value: Box::new(Expr::empty()),
                            loc: LocData { line: 0, col: 0 },
                        }
                    },
                };
                let sym = decl.id.name;
                let rc = Rc::new(decl);
                vars_insert(&mut loc_scp.vars, sym, rc_clone(&rc));
                Ok(Some(UnionNode::VarDecl(rc)))
    }

    /// A statement that starts with an identifier: a call or an assignment.
    fn parse_ident_stmt(&mut self, tok: Token, sym: Symbol, loc_scp: &mut Scope) -> (r: Result<Option<UnionNode>, ParseError>)
        requires
            old(self).wf(),
            spec_at(old(self).toks(), old(self).pst().pos) == Some(tok),
            tok.kind == TokenType::VarIdent(sym),
        ensures
            final(self).kept(old(self)),
            final(loc_scp).stmts == old(loc_scp).stmts,
            final(loc_scp).fns == old(loc_scp).fns,
            r is Ok ==> final(self).pst().pos > old(self).pst().pos,
            stmt_matches(
                spec_stmt(old(self).toks(), old(self).pst(), old(loc_scp)@.vars, old(loc_scp)@.fns),
                final(self).pst(),
                final(loc_scp)@.vars,
                r,
            ),
    {
        let is_call = match self.ahead_tok() {
            Some(t) => t.kind == TokenType::Lparen,
            None => false,
        };
        if is_call {
            let call = self.parse_fn_call(sym)?;
            Ok(Some(UnionNode::Call(call)))
        } else {
            match self.parse_var_decl(tok)? {
                None => Err(ParseError::Abort),
                Some(d) => {
                    let decl = VarDecl { is_reassign: true, ..d };
                    let sym = decl.id.name;
                    let rc = Rc::new(decl);
                    vars_insert(&mut loc_scp.vars, sym, rc_clone(&rc));
                    Ok(Some(UnionNode::VarDecl(rc)))
                },
            }
        }
    }

    /// A nested block, after its `{`.
    fn parse_block(&mut self, loc_scp: &mut Scope) -> (r: Result<Option<UnionNode>, ParseError>)
        requires
            old(self).wf(),
            old(loc_scp).stmts@.len() == 0,
        ensures
            final(self).kept(old(self)),
            r is Ok ==> final(loc_scp).stmts@.len() == 0,
            r is Ok ==> final(loc_scp)@.fns == old(loc_scp)@.fns,
            r is Ok ==> final(loc_scp)@.vars == old(loc_scp)@.vars,
            match spec_scope(old(self).toks(), old(self).pst(), old(loc_scp)@.vars, old(loc_scp)@.fns) {
                Ok((s, stmts)) => {
                    &&& r matches Ok(Some(n))
                    &&& node_view(r->Ok_0->Some_0) == NodeV::Scope(scope_of(stmts, Seq::empty(), Seq::empty()))
                    &&& final(self).pst() == s
                },
                Err(e) => r == Err::<Option<UnionNode>, ParseError>(e),
            },
        decreases rem(old(self).toks(), old(self).pst().pos), 3nat,
    {
        let mut scp = Scope::empty();
        self.parse_scope(loc_scp)?;
        let ghost mid = loc_scp.stmts@;
        scp.stmts.append(&mut loc_scp.stmts);
        proof {
            assert(scp.stmts@ =~= mid);
            assert(nodes_view(mid) =~= Seq::<NodeV>::empty() + nodes_view(mid));
            assert(scp@.vars =~= Seq::<(Symbol, VarDecl)>::empty());
            assert(scp@.fns =~= Seq::<(Symbol, Type)>::empty());
            assert(loc_scp@.stmts =~= old(loc_scp)@.stmts);
        }
        Ok(Some(UnionNode::Scope(scp)))
    }

    fn parse_stmt_if(&mut self, outer: &Scope) -> (r: Result<StmtIf, ParseError>)
        requires
            old(self).wf(),
        ensures
            final(self).kept(old(self)),
            match spec_stmt_if(old(self).toks(), old(self).pst(), outer@.vars, outer@.fns) {
                Ok((s, x)) => r matches Ok(v) && if_view(v) == x && final(self).pst() == s,
                Err(e) => r == Err::<StmtIf, ParseError>(e),
            },
        decreases rem(old(self).toks(), old(self).pst().pos), 4nat,
    {
        let cond = self.parse_cond("invalid condition for `if`")?;
        let mut scope = Scope { stmts: Vec::new(), vars: copy_vars(&outer.vars), fns: assoc_copy(&outer.fns) };
        self.advance();
        self.parse_scope(&mut scope)?;
        let mut elifs: Vec<Option<StmtElif>> = Vec::new();
        self.parse_elifs(outer, &mut elifs)?;
        let mut els: Option<StmtElse> = None;
        match self.peek_tok() {
            Some(t) => {
                if t.kind == TokenType::KwElse {
                    self.advance();
                    self.advance();
                    let mut sc = Scope {
                        stmts: Vec::new(),
                        vars: copy_vars(&outer.vars),
                        fns: assoc_copy(&outer.fns),
                    };
                    self.parse_scope(&mut sc)?;
                    els = Some(StmtElse { scope: sc, loc: t.loc });
                }
            },
            None => {},
        }
        Ok(StmtIf { cond, scope, _elif: elifs, _else: els, loc: LocData { line: 0, col: 0 } })
    }

    /// The `elif` branches after an `if`, appended to `acc`.
    fn parse_elifs(&mut self, outer: &Scope, acc: &mut Vec<Option<StmtElif>>) -> (r: Result<(), ParseError>)
        requires
            old(self).wf(),
        ensures
            final(self).kept(old(self)),
            match spec_elif_loop(old(self).toks(), old(self).pst(), outer@.vars, outer@.fns) {
                Ok((s, x)) => r is Ok && elifs_view(final(acc)@) == elifs_view(old(acc)@) + x
                    && final(self).pst() == s,
                Err(e) => r == Err::<(), ParseError>(e),
            },
        decreases rem(old(self).toks(), old(self).pst().pos), 3nat,
    {
        match self.peek_tok() {
            Some(t) => {
                if t.kind == TokenType::KwElif {
                    self.advance();
                    let cond = match self.parse_expr(0)? {
                        Some(c) => c,
                        None => {
                            self.push_err_at(t.loc, "invalid condition for `elif`");
                            Expr::empty()
                        },
                    };
                    let mut scope = Scope {
                        stmts: Vec::new(),
                        vars: copy_vars(&outer.vars),
                        fns: assoc_copy(&outer.fns),
                    };
                    self.advance();
                    self.parse_scope(&mut scope)?;
                    let ghost a0 = acc@;
                    let e = StmtElif { cond, scope, loc: t.loc };
                    let ghost ev = elif_view(e);
                    acc.push(Some(e));
                    proof {
                        lemma_elifs_view_push(a0, Some(e));
                    }
                    let ghost a1 = acc@;
                    let r = self.parse_elifs(outer, acc);
                    proof {
                        if r is Ok {
                            let (s, x) = spec_elif_loop(
                                old(self).toks(),
                                old(self).pst(),
                                outer@.vars,
                                outer@.fns,
                            ).unwrap();
                            assert(elifs_view(old(acc)@).push(Some(ev)) + (x.skip(1))
                                =~= elifs_view(old(acc)@) + x);
                        }
                    }
                    r
                } else {
                    assert(elifs_view(old(acc)@) + Seq::<Option<ElifV>>::empty() =~= elifs_view(old(acc)@));
                    Ok(())
                }
            },
            None => {
                assert(elifs_view(old(acc)@) + Seq::<Option<ElifV>>::empty() =~= elifs_view(old(acc)@));
                Ok(())
            },
        }
    }

    fn parse_stmt_while(&mut self, outer: &Scope) -> (r: Result<StmtWhile, ParseError>)
        requires
            old(self).wf(),
        ensures
            final(self).kept(old(self)),
            match spec_stmt_while(old(self).toks(), old(self).pst(), outer@.vars, outer@.fns) {
                Ok((s, x)) => r matches Ok(v) && while_view(v) == x && final(self).pst() == s,
                Err(e) => r == Err::<StmtWhile, ParseError>(e),
            },
        decreases rem(old(self).toks(), old(self).pst().pos), 4nat,
    {
        let cond = self.parse_cond("invalid condition for `while`")?;
        let mut scope = Scope { stmts: Vec::new(), vars: copy_vars(&outer.vars), fns: assoc_copy(&outer.fns) };
        self.advance();
        self.parse_scope(&mut scope)?;
        Ok(StmtWhile { cond, scope, loc: LocData { line: 0, col: 0 } })
    }

    #[verifier::rlimit(100)]
    #[verifier::spinoff_prover]
    fn parse_stmt_fn(&mut self, outer: &Scope) -> (r: Result<StmtFn, ParseError>)
        requires
            old(self).wf(),
        ensures
            final(self).kept(old(self)),
            match spec_stmt_fn(old(self).toks(), old(self).pst(), outer@.vars, outer@.fns) {
                Ok((s, x)) => r matches Ok(v) && fn_view(v) == x && final(self).pst() == s,
                Err(e) => r == Err::<StmtFn, ParseError>(e),
            },
        decreases rem(old(self).toks(), old(self).pst().pos), 4nat,
    {
        let name = match self.peek_tok() {
            Some(t) => match t.kind {
                TokenType::VarIdent(n) => {
                    self.advance();
                    n
                },
                _ => {
                    self.err_behind("expected function identifier after `fn`")?;
                    Symbol(0)
                },
            },
            None => {
                self.err_behind("expected function identifier after `fn`")?;
                Symbol(0)
            },
        };
        let args = match self.parse_args(false)? {
            Some(ArgVec::FnDefArgs(a)) => Some(a),
            _ => None,
        };
        if !self.validate_tok(TokenType::Rparen) {
            self.err_behind("expected `)`")?;
        }
        self.advance();
        let return_ty = self.parse_ret_type();
        if !self.validate_tok(TokenType::Lcurly) {
            self.err_behind("expected `{`")?;
        }
        self.advance();
        let mut body = Scope { stmts: Vec::new(), vars: copy_vars(&outer.vars), fns: assoc_copy(&outer.fns) };
        self.parse_scope(&mut body)?;
        Ok(StmtFn { name, args, return_ty, body, loc: LocData { line: 0, col: 0 } })
    }

    /// Parses the whole token stream into a program. Takes the symbol table
    /// out of the lexer and the function table out of the parser.
    pub fn create_program(&mut self) -> (r: Result<Program, ParseError>)
        requires
            old(self).wf(),
        ensures
            final(self).toks() == old(self).toks(),
            match spec_program(old(self).toks(), old(self).pst()) {
                Ok((s, stmts)) => r matches Ok(p) && nodes_view(p.stmts@) == stmts && p.sym@ == old(
                    self,
                ).syms() && p.fns@ == s.fns && final(self).pst().diags == s.diags && final(self).syms()
                    == Seq::<Seq<char>>::empty(),
                Err(e) => r == Err::<Program, ParseError>(e),
            },
    {
        let mut global_scope = Scope::empty();
        assert(global_scope@.vars =~= Seq::<(Symbol, VarDecl)>::empty());
        assert(global_scope@.fns =~= Seq::<(Symbol, Type)>::empty());
        assert(global_scope@.stmts =~= Seq::<NodeV>::empty());
        self.parse_scope(&mut global_scope)?;
        assert(global_scope@.stmts =~= Seq::<NodeV>::empty() + (global_scope@.stmts));
        let sym = self.lex.take_sym();
        let mut fns: Vec<(Symbol, Type)> = Vec::new();
        std::mem::swap(&mut fns, &mut self.fns);
        Ok(Program { sym, stmts: global_scope.stmts, fns })
    }
}

} // verus!
