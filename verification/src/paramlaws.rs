use vstd::prelude::*;

use crate::ast::{spec_type_from_token, Type};
use crate::lexer::{spec_is_type_token, Symbol, Token, TokenType};
use crate::parser::{spec_argument_pair, spec_def_args, PState, ParseError};

verus! {

/// `x1: T1, ..., xn: Tn)` from position `p` on: each parameter is a name, a
/// `:` and a type name, followed by `,`, and the last by `)`.
pub open spec fn params_at(toks: Seq<Token>, p: int, n: nat) -> bool {
    &&& n >= 1
    &&& 0 <= p
    &&& p + 4 * n <= toks.len()
    &&& forall|k: int|
        0 <= k < n ==> {
            &&& (#[trigger] toks[p + 4 * k]).kind is VarIdent
            &&& toks[p + 4 * k + 1].kind == TokenType::Colon
            &&& spec_is_type_token(toks[p + 4 * k + 2].kind)
            &&& toks[p + 4 * k + 3].kind == (if k < n - 1 {
                TokenType::Comma
            } else {
                TokenType::Rparen
            })
        }
}

/// Each parameter's name, with the type that the type name after its `:`
/// denotes.
pub open spec fn params_of(toks: Seq<Token>, p: int, n: nat) -> Seq<(Symbol, Type)> {
    Seq::new(n, |k: int| (toks[p + 4 * k].kind->VarIdent_0, spec_type_from_token(toks[p + 4 * k + 2].kind)))
}

/// A parameter is its name with the type written after its `:`.
pub proof fn lemma_parameter_type(toks: Seq<Token>, st: PState)
    requires
        0 <= st.pos,
        st.pos + 2 < toks.len(),
        toks[st.pos].kind is VarIdent,
        toks[st.pos + 1].kind == TokenType::Colon,
        spec_is_type_token(toks[st.pos + 2].kind),
    ensures
        spec_argument_pair(toks, st) == Ok::<(PState, Option<(Symbol, Type)>), ParseError>(
            (
                PState { pos: st.pos + 3, ..st },
                Some((toks[st.pos].kind->VarIdent_0, spec_type_from_token(toks[st.pos + 2].kind))),
            ),
        ),
{
    assert(crate::lexer::spec_at(toks, st.pos) == Some(toks[st.pos]));
    assert(crate::lexer::spec_at(toks, st.pos + 1) == Some(toks[st.pos + 1]));
    assert(crate::lexer::spec_at(toks, st.pos + 2) == Some(toks[st.pos + 2]));
}

/// The parameters of a definition parse, in order, to their names with the
/// types written after their `:`; the cursor stops at the closing `)`.
pub proof fn lemma_parameters(toks: Seq<Token>, st: PState, acc: Seq<(Symbol, Type)>, n: nat)
    requires
        params_at(toks, st.pos, n),
    ensures
        spec_def_args(toks, st, acc) == Ok::<(PState, Seq<(Symbol, Type)>), ParseError>(
            (PState { pos: st.pos + 4 * n - 1, ..st }, acc + params_of(toks, st.pos, n)),
        ),
    decreases n,
{
    let p = st.pos;
    assert(toks[p + 4 * 0].kind is VarIdent);
    assert(toks[p].kind is VarIdent && toks[p + 1].kind == TokenType::Colon && spec_is_type_token(toks[p + 2].kind));
    assert(crate::lexer::spec_at(toks, p) == Some(toks[p]));
    assert(crate::lexer::spec_at(toks, p + 3) == Some(toks[p + 3]));
    lemma_parameter_type(toks, st);
    let pair = (toks[p].kind->VarIdent_0, spec_type_from_token(toks[p + 2].kind));
    let s2 = PState { pos: p + 3, ..st };
    if n == 1 {
        assert(toks[p + 3].kind == TokenType::Rparen);
        assert(acc.push(pair) =~= acc + params_of(toks, p, n));
    } else {
        assert(toks[p + 3].kind == TokenType::Comma);
        let s3 = PState { pos: p + 4, ..st };
        let m = (n - 1) as nat;
        assert forall|k: int| 0 <= k < m implies {
            &&& (#[trigger] toks[(p + 4) + 4 * k]).kind is VarIdent
            &&& toks[(p + 4) + 4 * k + 1].kind == TokenType::Colon
            &&& spec_is_type_token(toks[(p + 4) + 4 * k + 2].kind)
            &&& toks[(p + 4) + 4 * k + 3].kind == (if k < m - 1 {
                TokenType::Comma
            } else {
                TokenType::Rparen
            })
        } by {
            assert(toks[p + 4 * (k + 1)] == toks[(p + 4) + 4 * k]);
            assert(toks[p + 4 * (k + 1)].kind is VarIdent);
        }
        lemma_parameters(toks, s3, acc.push(pair), m);
        assert(acc.push(pair) + params_of(toks, p + 4, m) =~= acc + params_of(toks, p, n)) by {
            assert forall|k: int| 0 <= k < m implies #[trigger] params_of(toks, p + 4, m)[k] == params_of(toks, p, n)[k + 1] by {
                assert(p + 4 + 4 * k == p + 4 * (k + 1));
            }
        }
    }
}

} // verus!
