use vstd::prelude::*;

use crate::assoc::assoc_get;
use crate::ast::{NodeV, VarDecl, VarType};
use crate::backend::spec_header;
use crate::compiler::spec_compile;
use crate::diagnostics::{spec_has_errors, DiagView, Severity};
use crate::lexer::{spec_classify_op, spec_op_symbol, LocData, Op, Symbol};
use crate::parser::{spec_binary, spec_expr, spec_infix_bp, spec_lit, PState};
use crate::ast::{AtomKind, Expr};
use crate::lexer::{Token, TokenType};
use crate::semantics::{spec_decl_check, spec_sema_stmt, sym_name, SState};

verus! {

/// The precedence level of a binary operator: higher binds tighter.
pub open spec fn op_level(op: Op) -> int {
    match op {
        Op::Asgn => 1,
        Op::LgOr => 2,
        Op::LgAnd => 3,
        Op::BwOr => 4,
        Op::BwXor => 5,
        Op::BwAnd => 6,
        Op::Eq | Op::Neq => 7,
        Op::Lt | Op::Gt | Op::Lte | Op::Gte => 8,
        Op::Lsl | Op::Lsr => 9,
        Op::Sub | Op::Add => 10,
        Op::Mod | Op::Div | Op::Mul => 11,
        Op::Pwr => 12,
        _ => 0,
    }
}

/// Power and assignment associate to the right, every other binary
/// operator to the left: the left binding power is the greater exactly for
/// those two, and the two powers of an operator differ by one.
pub proof fn lemma_associativity(op: Op)
    requires
        spec_infix_bp(op) is Some,
    ensures
        ({
            let (l, r) = spec_infix_bp(op)->Some_0;
            &&& (l > r <==> (op == Op::Pwr || op == Op::Asgn))
            &&& (l == r + 1 || r == l + 1)
        }),
{
}

/// Operators of a higher level bind tighter: both binding powers of the
/// tighter operator exceed both of the looser one.
pub proof fn lemma_precedence(a: Op, b: Op)
    requires
        spec_infix_bp(a) is Some,
        spec_infix_bp(b) is Some,
        op_level(a) > op_level(b),
    ensures
        ({
            let (la, ra) = spec_infix_bp(a)->Some_0;
            let (lb, rb) = spec_infix_bp(b)->Some_0;
            &&& la > lb && la > rb
            &&& ra > lb && ra > rb
        }),
{
}

/// Reporting an error makes the diagnostics hold an error; a warning or a
/// note changes nothing about that.
pub proof fn lemma_error_reported(ds: Seq<DiagView>, loc: LocData, msg: Seq<char>, severity: Severity)
    ensures
        severity == Severity::Error ==> spec_has_errors(ds.push(DiagView { severity, loc, msg })),
        severity != Severity::Error ==> spec_has_errors(ds.push(DiagView { severity, loc, msg }))
            == spec_has_errors(ds),
{
    let ds2 = ds.push(DiagView { severity, loc, msg });
    if severity == Severity::Error {
        assert(ds2[ds.len() as int].severity == Severity::Error);
    } else {
        if spec_has_errors(ds) {
            let i = choose|i: int| 0 <= i < ds.len() && ds[i].severity == Severity::Error;
            assert(ds2[i] == ds[i]);
        }
        if spec_has_errors(ds2) {
            let i = choose|i: int| 0 <= i < ds2.len() && ds2[i].severity == Severity::Error;
            assert(ds[i] == ds2[i]);
        }
    }
}

/// A block, a loop or a conditional checks its statements in a copy of the
/// enclosing scope: what it declares is not visible after it.
pub proof fn lemma_block_keeps_scope(
    syms: Seq<Seq<char>>,
    st: SState,
    scope: Seq<(Symbol, VarType)>,
    n: NodeV,
)
    requires
        n is Scope || n is StmtWhile || n is StmtIf,
        spec_sema_stmt(syms, st, scope, n) is Ok,
    ensures
        spec_sema_stmt(syms, st, scope, n)->Ok_0.1 == scope,
{
}

/// A variable declared with `let` cannot be assigned again, and an
/// assignment needs a declared variable: either is reported as an error.
pub proof fn lemma_reassign_reported(
    syms: Seq<Seq<char>>,
    st: SState,
    scope: Seq<(Symbol, VarType)>,
    d: VarDecl,
)
    requires
        assoc_get(scope, d.id.name) == Some(VarType::Let) || (d.is_reassign && assoc_get(
            scope,
            d.id.name,
        ) is None),
        sym_name(syms, d.id.name) is Some,
    ensures
        spec_decl_check(syms, st, scope, d) is Ok,
        spec_has_errors(spec_decl_check(syms, st, scope, d)->Ok_0.diags),
{
    let n = sym_name(syms, d.id.name)->Some_0;
    if assoc_get(scope, d.id.name) == Some(VarType::Let) {
        let s1 = crate::semantics::sdiag(
            st,
            Severity::Error,
            d.id.loc,
            "cannot re-assign `"@ + n + "` declared with `let`"@,
        );
        lemma_error_reported(st.diags, d.id.loc, "cannot re-assign `"@ + n + "` declared with `let`"@, Severity::Error);
        lemma_error_reported(s1.diags, d.id.loc, "consider using `mut` instead"@, Severity::Note);
    } else {
        lemma_error_reported(st.diags, d.id.loc, "use of undeclared identifier `"@ + n + "`"@, Severity::Error);
    }
}

/// Every assembly text the compiler produces opens with the entry header.
pub proof fn lemma_output_header(src: Seq<char>)
    requires
        spec_compile(src) is Ok,
    ensures
        spec_compile(src)->Ok_0.len() >= spec_header().len(),
        spec_compile(src)->Ok_0.subrange(0, spec_header().len() as int) == spec_header(),
{
    let t = spec_compile(src)->Ok_0;
    let h = spec_header();
    assert(t.subrange(0, h.len() as int) =~= h);
}

/// Every operator but the arithmetic right shift reads back from its printed
/// spelling: classifying the text of an operator gives the operator again.
pub proof fn lemma_op_text_round_trip(op: Op)
    requires
        op != Op::Nop,
        op != Op::Asr,
    ensures
        spec_classify_op(spec_op_symbol(op)) == op,
{
    reveal_strlit("+");
    reveal_strlit("-");
    reveal_strlit("*");
    reveal_strlit("/");
    reveal_strlit("**");
    reveal_strlit("%");
    reveal_strlit("<<");
    reveal_strlit(">>");
    reveal_strlit("~");
    reveal_strlit("|");
    reveal_strlit("&");
    reveal_strlit("^");
    reveal_strlit("!");
    reveal_strlit("||");
    reveal_strlit("&&");
    reveal_strlit("=");
    reveal_strlit("+=");
    reveal_strlit("-=");
    reveal_strlit("*=");
    reveal_strlit("/=");
    reveal_strlit("**=");
    reveal_strlit("%=");
    reveal_strlit("&=");
    reveal_strlit("|=");
    reveal_strlit("^=");
    reveal_strlit("<<=");
    reveal_strlit(">>=");
    reveal_strlit("==");
    reveal_strlit("!=");
    reveal_strlit("<");
    reveal_strlit(">");
    reveal_strlit("<=");
    reveal_strlit(">=");
    reveal_strlit("->");
}

/// The operator node `l op r`.
pub open spec fn op_node(op: Op, l: Expr, r: Expr) -> Expr {
    Expr { atom: AtomKind::NoAtom, loc: l.loc, op, lhs: Some(Box::new(l)), rhs: Some(Box::new(r)), ty: None }
}

/// The literal expression that an integer literal token reads as.
pub open spec fn tok_lit(t: Token) -> Expr {
    spec_lit(t.kind->IntLit_0, t.loc)
}

/// Whether, in `a o1 b o2 c`, the second operator takes `b` from the first:
/// it binds tighter, or it binds as tightly and the operators associate to
/// the right.
pub open spec fn groups_right(o1: Op, o2: Op) -> bool {
    op_level(o2) > op_level(o1) || (op_level(o2) == op_level(o1) && (o1 == Op::Pwr || o1 == Op::Asgn))
}

/// An expression of three literals and two infix operators parses grouped by
/// precedence, and by associativity between operators of one level:
/// `a o1 (b o2 c)` where the second operator groups to the right, else
/// `(a o1 b) o2 c`; the whole expression up to the `;` is read, and nothing
/// is reported.
#[verifier::rlimit(40)]
pub proof fn lemma_expr_grouping(toks: Seq<Token>, st: PState, o1: Op, o2: Op)
    requires
        toks.len() == 6,
        toks[0].kind is IntLit,
        toks[1].kind == TokenType::Op(o1),
        toks[2].kind is IntLit,
        toks[3].kind == TokenType::Op(o2),
        toks[4].kind is IntLit,
        toks[5].kind == TokenType::Semi,
        spec_infix_bp(o1) is Some,
        spec_infix_bp(o2) is Some,
        st.pos == 0,
    ensures
        spec_expr(toks, st, 0) == Ok::<(PState, Option<Expr>), crate::parser::ParseError>(
            (
                PState { pos: 5, ..st },
                Some(
                    if groups_right(o1, o2) {
                        op_node(o1, tok_lit(toks[0]), op_node(o2, tok_lit(toks[2]), tok_lit(toks[4])))
                    } else {
                        op_node(o2, op_node(o1, tok_lit(toks[0]), tok_lit(toks[2])), tok_lit(toks[4]))
                    },
                ),
            ),
        ),
{
    let p = |k: int| PState { pos: k, ..st };
    let (l1, r1) = spec_infix_bp(o1)->Some_0;
    let (l2, r2) = spec_infix_bp(o2)->Some_0;
    let a = tok_lit(toks[0]);
    let b = tok_lit(toks[2]);
    let c = tok_lit(toks[4]);
    assert(crate::lexer::spec_at(toks, 5) == Some(toks[5]));
    assert(crate::lexer::spec_at(toks, 4) == Some(toks[4]));
    assert(crate::lexer::spec_at(toks, 3) == Some(toks[3]));
    assert(crate::lexer::spec_at(toks, 2) == Some(toks[2]));
    assert(crate::lexer::spec_at(toks, 1) == Some(toks[1]));
    assert(crate::lexer::spec_at(toks, 0) == Some(toks[0]));
    assert(o1 != Op::Nop && o2 != Op::Nop);
    assert(spec_binary(toks, p(5), Some(c), r2) == Ok::<(PState, Option<Expr>), crate::parser::ParseError>((p(5), Some(c))));
    assert(spec_expr(toks, p(4), r2) == Ok::<(PState, Option<Expr>), crate::parser::ParseError>((p(5), Some(c))));
    if l2 >= r1 {
        let bc = op_node(o2, b, c);
        let abc = op_node(o1, a, bc);
        assert(spec_binary(toks, p(5), Some(bc), r1) == Ok::<(PState, Option<Expr>), crate::parser::ParseError>((p(5), Some(bc))));
        assert(spec_binary(toks, p(3), Some(b), r1) == Ok::<(PState, Option<Expr>), crate::parser::ParseError>((p(5), Some(bc))));
        assert(spec_expr(toks, p(2), r1) == Ok::<(PState, Option<Expr>), crate::parser::ParseError>((p(5), Some(bc))));
        assert(spec_binary(toks, p(5), Some(abc), 0) == Ok::<(PState, Option<Expr>), crate::parser::ParseError>((p(5), Some(abc))));
        assert(spec_binary(toks, p(1), Some(a), 0) == Ok::<(PState, Option<Expr>), crate::parser::ParseError>((p(5), Some(abc))));
    } else {
        let ab = op_node(o1, a, b);
        let abc = op_node(o2, ab, c);
        assert(spec_binary(toks, p(3), Some(b), r1) == Ok::<(PState, Option<Expr>), crate::parser::ParseError>((p(3), Some(b))));
        assert(spec_expr(toks, p(2), r1) == Ok::<(PState, Option<Expr>), crate::parser::ParseError>((p(3), Some(b))));
        assert(spec_binary(toks, p(5), Some(abc), 0) == Ok::<(PState, Option<Expr>), crate::parser::ParseError>((p(5), Some(abc))));
        assert(spec_binary(toks, p(3), Some(ab), 0) == Ok::<(PState, Option<Expr>), crate::parser::ParseError>((p(5), Some(abc))));
        assert(spec_binary(toks, p(1), Some(a), 0) == Ok::<(PState, Option<Expr>), crate::parser::ParseError>((p(5), Some(abc))));
    }
    assert(l2 >= r1 <==> groups_right(o1, o2));
}

/// A minus before a literal reads as the negated literal, and a minus
/// before any other operand reads as that operand subtracted from zero.
pub proof fn lemma_prefix_minus(toks: Seq<Token>, st: PState)
    requires
        toks.len() == 3,
        toks[0].kind == TokenType::Op(Op::Sub),
        toks[1].kind is IntLit,
        toks[1].kind->IntLit_0 >= 0,
        toks[2].kind == TokenType::Semi,
        st.pos == 0,
    ensures
        spec_expr(toks, st, 0) == Ok::<(PState, Option<Expr>), crate::parser::ParseError>(
            (PState { pos: 2, ..st }, Some(spec_lit(-toks[1].kind->IntLit_0 as i128, toks[0].loc))),
        ),
{
    let p = |k: int| PState { pos: k, ..st };
    let b = tok_lit(toks[1]);
    assert(crate::lexer::spec_at(toks, 2) == Some(toks[2]));
    assert(crate::lexer::spec_at(toks, 1) == Some(toks[1]));
    assert(crate::lexer::spec_at(toks, 0) == Some(toks[0]));
    let n = spec_lit(-toks[1].kind->IntLit_0 as i128, toks[0].loc);
    assert(spec_binary(toks, p(2), Some(b), crate::parser::PREFIX_BP) == Ok::<(PState, Option<Expr>), crate::parser::ParseError>((p(2), Some(b))));
    assert(spec_expr(toks, p(1), crate::parser::PREFIX_BP) == Ok::<(PState, Option<Expr>), crate::parser::ParseError>((p(2), Some(b))));
    assert(crate::parser::spec_negate(b, toks[0].loc) == n);
    assert(spec_binary(toks, p(2), Some(n), 0) == Ok::<(PState, Option<Expr>), crate::parser::ParseError>((p(2), Some(n))));
}

} // verus!
