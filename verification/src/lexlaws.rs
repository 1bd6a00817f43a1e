use vstd::prelude::*;

use crate::lexer::{spec_keyword, spec_lex_from, spec_tokenize, LexState, Symbol, TokenType};

verus! {

/// An ASCII letter, a digit, or `_`.
pub open spec fn ident_char(c: char) -> bool {
    ('a' <= c && c <= 'z') || ('A' <= c && c <= 'Z') || ('0' <= c && c <= '9') || c == '_'
}

/// A word of identifier characters that reads as a name: not empty, not
/// only digits, and not a keyword.
pub open spec fn is_identifier(w: Seq<char>) -> bool {
    &&& w.len() > 0
    &&& forall|i: int| 0 <= i < w.len() ==> ident_char(#[trigger] w[i])
    &&& exists|i: int| 0 <= i < w.len() && !('0' <= #[trigger] w[i] && w[i] <= '9')
    &&& spec_keyword(w) is None
}

/// The characters of a word go, one by one, into the pending word.
proof fn lemma_word_run(cs: Seq<char>, i: int, j: int, st: LexState)
    requires
        0 <= i <= j <= cs.len(),
        forall|k: int| i <= k < j ==> ident_char(#[trigger] cs[k]),
    ensures
        spec_lex_from(cs, i, st) == spec_lex_from(
            cs,
            j,
            LexState { buf: st.buf + cs.subrange(i, j), col: st.col + (j - i), ..st },
        ),
    decreases j - i,
{
    if i == j {
        assert(st.buf + cs.subrange(i, j) =~= st.buf);
        assert(LexState { buf: st.buf + cs.subrange(i, j), col: st.col + (j - i), ..st } == st);
    } else {
        let ch = cs[i];
        assert(ident_char(ch));
        let st1 = LexState { buf: st.buf.push(ch), col: st.col + 1, ..st };
        assert(spec_lex_from(cs, i, st) == spec_lex_from(cs, i + 1, st1));
        lemma_word_run(cs, i + 1, j, st1);
        assert(st1.buf + cs.subrange(i + 1, j) =~= st.buf + cs.subrange(i, j));
    }
}

/// A name followed by `;` tokenizes, from a fresh state, as one identifier
/// token for the whole name and a `;`: every letter, digit and `_` of the
/// name belongs to it, and the name is the first entry of the symbol table.
pub proof fn lemma_identifier_is_one_token(w: Seq<char>)
    requires
        is_identifier(w),
    ensures
        ({
            let st0 = LexState { tokens: Seq::empty(), buf: Seq::empty(), line: 1, col: 1, syms: Seq::empty() };
            let (st, e) = spec_tokenize(w.push(';'), st0);
            &&& e is None
            &&& st.tokens.len() == 2
            &&& st.tokens[0].kind == TokenType::VarIdent(Symbol(0))
            &&& st.tokens[1].kind == TokenType::Semi
            &&& st.syms == seq![w]
        }),
{
    let st0 = LexState { tokens: Seq::empty(), buf: Seq::empty(), line: 1, col: 1, syms: Seq::empty() };
    let cs = w.push(';');
    let n = w.len() as int;
    assert forall|k: int| 0 <= k < n implies ident_char(#[trigger] cs[k]) by {
        assert(cs[k] == w[k]);
    }
    lemma_word_run(cs, 0, n, st0);
    assert(cs.subrange(0, n) =~= w);
    let st1 = LexState { buf: w, col: 1 + n, ..st0 };
    assert(Seq::<char>::empty() + w =~= w);
    assert(spec_tokenize(cs, st0) == spec_lex_from(cs, n, st1));
    assert(cs[n] == ';');
    assert(!crate::lexer::spec_all_digits(w)) by {
        let i = choose|i: int| 0 <= i < w.len() && !('0' <= #[trigger] w[i] && w[i] <= '9');
        assert(!crate::lexer::spec_is_digit(w[i]));
    }
    assert(!Seq::<Seq<char>>::empty().contains(w));
    let st2 = LexState { col: st1.col + 1, ..st1 };
    let (st3, e3) = crate::lexer::spec_delim(st2, TokenType::Semi);
    assert(e3 is None);
    assert(st3.syms == seq![w]);
    assert(spec_lex_from(cs, n, st1) == spec_lex_from(cs, n + 1, st3));
    assert(spec_lex_from(cs, n + 1, st3) == (st3, None::<crate::lexer::LexError>));
}

proof fn lemma_digit_value(k: int)
    requires
        0 <= k < 10,
    ensures
        (crate::text::digit_char(k) as int) - ('0' as int) == k,
        crate::lexer::spec_is_digit(crate::text::digit_char(k)),
{
    if k == 0 { } else if k == 1 { } else if k == 2 { } else if k == 3 { } else if k == 4 { } else if k == 5 {
    } else if k == 6 { } else if k == 7 { } else if k == 8 { } else { }
}

/// The decimal text of a number is all digits and reads back as the number:
/// what the tokenizer takes as the value of a literal is the number written.
pub proof fn lemma_numeral_value(n: nat)
    ensures
        crate::lexer::spec_all_digits(crate::text::spec_decimal(n)),
        crate::lexer::spec_digits_value(crate::text::spec_decimal(n)) == n,
    decreases n,
{
    let s = crate::text::spec_decimal(n);
    if n < 10 {
        assert(s.drop_last() =~= Seq::<char>::empty());
        assert(s.last() == crate::text::digit_char(n as int));
        lemma_digit_value(n as int);
        assert(crate::lexer::spec_digits_value(s) == crate::lexer::spec_digits_value(s.drop_last()) * 10 + ((s.last() as int) - ('0' as int)) as nat);
    } else {
        lemma_numeral_value(n / 10);
        let t = crate::text::spec_decimal(n / 10);
        assert(s.drop_last() =~= t);
        assert(s.last() == crate::text::digit_char((n % 10) as int));
        lemma_digit_value((n % 10) as int);
        assert(crate::lexer::spec_digits_value(s) == crate::lexer::spec_digits_value(t) * 10 + (n % 10));
        assert forall|i: int| 0 <= i < s.len() implies crate::lexer::spec_is_digit(#[trigger] s[i]) by {
            if i < t.len() {
                assert(s[i] == t[i]);
            }
        }
    }
}

} // verus!
