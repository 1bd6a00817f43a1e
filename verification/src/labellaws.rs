use vstd::prelude::*;

use crate::ast::{ElifV, NodeV, StmtFnV, StmtIfV, WhileV};
use crate::irgenerator::{
    label_name, some_after, spec_gen_elif, spec_gen_elifs, spec_gen_expr, spec_gen_fn, spec_gen_if,
    spec_gen_stmt, spec_gen_stmts, spec_gen_while, spec_main_scope, spec_with_main, GState, KNodeV,
    ProgScopeV,
};
use crate::irlaws::{labels_of, lemma_call_args_plain, lemma_empty, lemma_expr_plain, lemma_labels_concat, lemma_one};
use crate::text::{digit_char, spec_decimal};

verus! {

// ---------------------------------------------------------------------------
// Label names

/// A label prefix: text that ends in `_`, which no digit is.
pub open spec fn prefix_ok(p: Seq<char>) -> bool {
    p.len() > 0 && p[p.len() - 1] == '_'
}

/// The label was made from a prefix and a counter in `lo .. hi`.
pub open spec fn made_in(l: Seq<char>, lo: int, hi: int) -> bool {
    exists|p: Seq<char>, n: usize|
        #![trigger label_name(p, n)]
        prefix_ok(p) && lo <= n < hi && l == label_name(p, n)
}

/// Every label that the list defines was made with a counter in `lo .. hi`.
pub open spec fn labels_in(s: Seq<KNodeV>, lo: int, hi: int) -> bool {
    forall|l: Seq<char>| #[trigger] labels_of(s).contains(l) ==> made_in(l, lo, hi)
}

/// No two labels of the list have the same name.
pub open spec fn labels_once(s: Seq<KNodeV>) -> bool {
    forall|i: int, j: int|
        #![trigger s[i], s[j]]
        0 <= i < j < s.len() && s[i] is Label && s[j] is Label ==> s[i]->Label_name != s[j]->Label_name
}

/// No function body defines a label twice.
pub open spec fn all_once(fns: Seq<ProgScopeV>) -> bool {
    forall|i: int| 0 <= i < fns.len() ==> labels_once(#[trigger] fns[i].nodes)
}

proof fn lemma_decimal_shape(n: nat)
    ensures
        spec_decimal(n).len() >= 1,
        forall|i: int| 0 <= i < spec_decimal(n).len() ==> #[trigger] spec_decimal(n)[i] != '_',
    decreases n,
{
    if n >= 10 {
        lemma_decimal_shape(n / 10);
        let d = spec_decimal(n / 10);
        assert forall|i: int| 0 <= i < spec_decimal(n).len() implies #[trigger] spec_decimal(n)[i] != '_' by {
            if i < d.len() {
                assert(spec_decimal(n)[i] == d[i]);
            }
        }
    }
}

proof fn lemma_decimal_injective(n: nat, m: nat)
    requires
        spec_decimal(n) == spec_decimal(m),
    ensures
        n == m,
    decreases n,
{
    if n < 10 && m < 10 {
        assert(spec_decimal(n)[0] == digit_char(n as int));
        assert(spec_decimal(m)[0] == digit_char(m as int));
    } else if n < 10 {
        lemma_decimal_shape(m / 10);
        assert(spec_decimal(m).len() >= 2);
    } else if m < 10 {
        lemma_decimal_shape(n / 10);
        assert(spec_decimal(n).len() >= 2);
    } else {
        let a = spec_decimal(n);
        let b = spec_decimal(m);
        assert(a.last() == digit_char((n % 10) as int));
        assert(b.last() == digit_char((m % 10) as int));
        assert(a.drop_last() =~= spec_decimal(n / 10));
        assert(b.drop_last() =~= spec_decimal(m / 10));
        lemma_decimal_injective(n / 10, m / 10);
    }
}

/// A label name gives back its prefix and its counter.
pub proof fn lemma_label_name_injective(p1: Seq<char>, n1: usize, p2: Seq<char>, n2: usize)
    requires
        prefix_ok(p1),
        prefix_ok(p2),
        label_name(p1, n1) == label_name(p2, n2),
    ensures
        p1 == p2,
        n1 == n2,
{
    let d1 = spec_decimal(n1 as nat);
    let d2 = spec_decimal(n2 as nat);
    lemma_decimal_shape(n1 as nat);
    lemma_decimal_shape(n2 as nat);
    let l = label_name(p1, n1);
    assert(l == p1 + d1);
    assert(l == p2 + d2);
    if p1.len() < p2.len() {
        let k = p2.len() - 1;
        assert(l[k] == p2[k]);
        assert(l[k] == d1[k - p1.len()]);
    } else if p2.len() < p1.len() {
        let k = p1.len() - 1;
        assert(l[k] == p1[k]);
        assert(l[k] == d2[k - p2.len()]);
    } else {
        assert(p1 =~= l.subrange(0, p1.len() as int));
        assert(p2 =~= l.subrange(0, p2.len() as int));
        assert(d1 =~= l.subrange(p1.len() as int, l.len() as int));
        assert(d2 =~= l.subrange(p2.len() as int, l.len() as int));
        lemma_decimal_injective(n1 as nat, n2 as nat);
    }
}

/// A label made with a counter below `hi1` was not made with one from `lo2`
/// on, when `hi1 <= lo2`.
proof fn lemma_ranges_apart(l: Seq<char>, lo1: int, hi1: int, lo2: int, hi2: int)
    requires
        made_in(l, lo1, hi1),
        hi1 <= lo2,
    ensures
        !made_in(l, lo2, hi2),
{
    if made_in(l, lo2, hi2) {
        let (p1, n1): (Seq<char>, usize) = choose|p: Seq<char>, n: usize|
            prefix_ok(p) && lo1 <= n < hi1 && l == label_name(p, n);
        let (p2, n2): (Seq<char>, usize) = choose|p: Seq<char>, n: usize|
            prefix_ok(p) && lo2 <= n < hi2 && l == label_name(p, n);
        lemma_label_name_injective(p1, n1, p2, n2);
    }
}

proof fn lemma_prefixes_apart(p1: Seq<char>, p2: Seq<char>, c: usize)
    requires
        prefix_ok(p1),
        prefix_ok(p2),
        p1 != p2,
    ensures
        label_name(p1, c) != label_name(p2, c),
{
    if label_name(p1, c) == label_name(p2, c) {
        lemma_label_name_injective(p1, c, p2, c);
    }
}

// ---------------------------------------------------------------------------
// Joining lists

proof fn lemma_join(a: Seq<KNodeV>, b: Seq<KNodeV>)
    requires
        labels_once(a),
        labels_once(b),
        labels_of(a).disjoint(labels_of(b)),
    ensures
        labels_once(a + b),
{
    let s = a + b;
    assert forall|i: int, j: int|
        0 <= i < j < s.len() && s[i] is Label && s[j] is Label implies s[i]->Label_name
        != s[j]->Label_name by {
        if j < a.len() {
            assert(s[i] == a[i] && s[j] == a[j]);
        } else if i >= a.len() {
            assert(s[i] == b[i - a.len()] && s[j] == b[j - a.len()]);
        } else {
            assert(s[i] == a[i]);
            assert(s[j] == b[j - a.len()]);
            assert(a[i] == (KNodeV::Label { name: a[i]->Label_name }));
            assert(b[j - a.len()] == (KNodeV::Label { name: b[j - a.len()]->Label_name }));
            assert(labels_of(a).contains(a[i]->Label_name));
            assert(labels_of(b).contains(b[j - a.len()]->Label_name));
        }
    }
}

proof fn lemma_widen(s: Seq<KNodeV>, lo: int, hi: int, lo2: int, hi2: int)
    requires
        labels_in(s, lo, hi),
        lo2 <= lo,
        hi <= hi2,
    ensures
        labels_in(s, lo2, hi2),
{
    assert forall|l: Seq<char>| #[trigger] labels_of(s).contains(l) implies made_in(l, lo2, hi2) by {
        let (p, n): (Seq<char>, usize) = choose|p: Seq<char>, n: usize|
            prefix_ok(p) && lo <= n < hi && l == label_name(p, n);
        assert(prefix_ok(p) && lo2 <= n < hi2 && l == label_name(p, n));
    }
}

/// Appending a list whose labels are counted from `mid` on to one whose
/// labels are counted below `mid`.
proof fn lemma_join_ranges(a: Seq<KNodeV>, b: Seq<KNodeV>, lo: int, mid: int, hi: int)
    requires
        labels_once(a),
        labels_once(b),
        labels_in(a, lo, mid),
        labels_in(b, mid, hi),
        lo <= mid <= hi,
    ensures
        labels_once(a + b),
        labels_in(a + b, lo, hi),
        labels_of(a + b) == labels_of(a).union(labels_of(b)),
{
    broadcast use lemma_labels_concat;

    assert forall|l: Seq<char>| labels_of(a).contains(l) implies !labels_of(b).contains(l) by {
        if labels_of(b).contains(l) {
            lemma_ranges_apart(l, lo, mid, mid, hi);
        }
    }
    lemma_join(a, b);
    lemma_widen(a, lo, mid, lo, hi);
    lemma_widen(b, mid, hi, lo, hi);
}

/// A list that defines no label.
proof fn lemma_none(s: Seq<KNodeV>, lo: int, hi: int)
    requires
        labels_of(s) == Set::<Seq<char>>::empty(),
    ensures
        labels_once(s),
        labels_in(s, lo, hi),
{
    assert forall|i: int, j: int|
        0 <= i < j < s.len() && s[i] is Label && s[j] is Label implies s[i]->Label_name
        != s[j]->Label_name by {
        assert(s[i] == (KNodeV::Label { name: s[i]->Label_name }));
        assert(labels_of(s).contains(s[i]->Label_name));
    }
}

/// Appending a list without labels.
proof fn lemma_add_plain(a: Seq<KNodeV>, b: Seq<KNodeV>)
    requires
        labels_once(a),
        labels_of(b) == Set::<Seq<char>>::empty(),
    ensures
        labels_once(a + b),
        labels_of(a + b) == labels_of(a),
{
    broadcast use lemma_labels_concat;

    lemma_none(b, 0, 0);
    lemma_join(a, b);
    assert(labels_of(a).union(labels_of(b)) =~= labels_of(a));
}

/// Appending one label that the list does not define yet.
proof fn lemma_add_label(a: Seq<KNodeV>, l: Seq<char>)
    requires
        labels_once(a),
        !labels_of(a).contains(l),
    ensures
        labels_once(a + seq![KNodeV::Label { name: l }]),
        labels_of(a + seq![KNodeV::Label { name: l }]) == labels_of(a).insert(l),
{
    broadcast use lemma_labels_concat, lemma_one;

    let b = seq![KNodeV::Label { name: l }];
    assert(labels_once(b));
    lemma_join(a, b);
    assert(labels_of(a).union(set![l]) =~= labels_of(a).insert(l));
}

/// The one label `p<c>`.
proof fn lemma_made(p: Seq<char>, c: usize)
    requires
        prefix_ok(p),
    ensures
        made_in(label_name(p, c), c as int, c + 1),
{
    assert(prefix_ok(p) && c <= c < c + 1 && label_name(p, c) == label_name(p, c));
}

// ---------------------------------------------------------------------------
// What each construct defines

proof fn lemma_plain_node(n: KNodeV)
    requires
        !(n is Label),
    ensures
        labels_of(seq![n]) == Set::<Seq<char>>::empty(),
{
    broadcast use lemma_one;

}

proof fn lemma_stmts_once(syms: Seq<Seq<char>>, g: GState, ss: Seq<NodeV>)
    requires
        spec_gen_stmts(syms, g, ss) is Ok,
        all_once(g.fns),
    ensures
        g.labels <= spec_gen_stmts(syms, g, ss)->Ok_0.0.labels,
        labels_in(spec_gen_stmts(syms, g, ss)->Ok_0.1, g.labels as int, spec_gen_stmts(syms, g, ss)->Ok_0.0.labels as int),
        labels_once(spec_gen_stmts(syms, g, ss)->Ok_0.1),
        all_once(spec_gen_stmts(syms, g, ss)->Ok_0.0.fns),
    decreases ss,
{
    lemma_empty();
    if ss.len() == 0 {
        lemma_none(Seq::empty(), g.labels as int, g.labels as int);
    } else {
        lemma_stmt_once(syms, g, ss[0]);
        let (g1, s1) = spec_gen_stmt(syms, g, ss[0])->Ok_0;
        lemma_stmts_once(syms, g1, ss.subrange(1, ss.len() as int));
        let (g2, s2) = spec_gen_stmts(syms, g1, ss.subrange(1, ss.len() as int))->Ok_0;
        lemma_join_ranges(s1, s2, g.labels as int, g1.labels as int, g2.labels as int);
    }
}

proof fn lemma_stmt_once(syms: Seq<Seq<char>>, g: GState, n: NodeV)
    requires
        spec_gen_stmt(syms, g, n) is Ok,
        all_once(g.fns),
    ensures
        g.labels <= spec_gen_stmt(syms, g, n)->Ok_0.0.labels,
        labels_in(spec_gen_stmt(syms, g, n)->Ok_0.1, g.labels as int, spec_gen_stmt(syms, g, n)->Ok_0.0.labels as int),
        labels_once(spec_gen_stmt(syms, g, n)->Ok_0.1),
        all_once(spec_gen_stmt(syms, g, n)->Ok_0.0.fns),
    decreases n,
{
    broadcast use lemma_labels_concat, lemma_one;

    lemma_empty();
    let (g1, s) = spec_gen_stmt(syms, g, n)->Ok_0;
    match n {
        NodeV::VarDecl(d) => {
            lemma_expr_plain(syms, g, *d.value);
            let s1 = spec_gen_expr(syms, g, *d.value)->Ok_0.1;
            let k = s1.len() as int;
            assert(s =~= s1 + seq![s[k]] + seq![s[k + 1]]);
            assert(labels_of(s) =~= Set::<Seq<char>>::empty());
            lemma_none(s, g.labels as int, g1.labels as int);
        },
        NodeV::StmtExit(x) => {
            lemma_expr_plain(syms, g, *x.exit_code);
            let s1 = spec_gen_expr(syms, g, *x.exit_code)->Ok_0.1;
            let k = s1.len() as int;
            assert(s =~= s1 + seq![s[k]]);
            assert(labels_of(s) =~= Set::<Seq<char>>::empty());
            lemma_none(s, g.labels as int, g1.labels as int);
        },
        NodeV::Expr(e) => {
            lemma_expr_plain(syms, g, e);
            lemma_none(s, g.labels as int, g1.labels as int);
        },
        NodeV::StmtIf(x) => {
            lemma_if_once(syms, g, x);
        },
        NodeV::StmtWhile(x) => {
            lemma_while_once(syms, g, x);
        },
        NodeV::StmtFn(f) => {
            lemma_fn_once(syms, g, f);
            lemma_none(s, g.labels as int, g1.labels as int);
        },
        NodeV::Call(c) => {
            match c.args {
                Some(a) => {
                    lemma_call_args_plain(syms, g, a);
                    let sa = crate::irgenerator::spec_call_args(syms, g, a)->Ok_0.1;
                    let k = sa.len() as int;
                    assert(s =~= sa + seq![s[k]]);
                },
                None => {},
            }
            assert(labels_of(s) =~= Set::<Seq<char>>::empty());
            lemma_none(s, g.labels as int, g1.labels as int);
        },
        NodeV::Scope(sc) => {
            lemma_stmts_once(syms, g, sc.stmts);
        },
        _ => {},
    }
}

proof fn lemma_fn_once(syms: Seq<Seq<char>>, g: GState, f: StmtFnV)
    requires
        spec_gen_fn(syms, g, f) is Ok,
        all_once(g.fns),
    ensures
        g.labels <= spec_gen_fn(syms, g, f)->Ok_0.labels,
        all_once(spec_gen_fn(syms, g, f)->Ok_0.fns),
    decreases f,
{
    broadcast use lemma_labels_concat, lemma_one;

    lemma_stmts_once(syms, g, f.body.stmts);
    let g2 = spec_gen_fn(syms, g, f)->Ok_0;
    let (g1, body) = spec_gen_stmts(syms, g, f.body.stmts)->Ok_0;
    let last = g2.fns.last();
    assert(g2.fns == g1.fns.push(last));
    let d = seq![last.nodes[0]];
    assert(last.nodes == d + body);
    lemma_plain_node(last.nodes[0]);
    lemma_none(d, 0, 0);
    lemma_join(d, body);
    assert forall|i: int| 0 <= i < g2.fns.len() implies labels_once(#[trigger] g2.fns[i].nodes) by {
        if i < g1.fns.len() {
            assert(g2.fns[i] == g1.fns[i]);
        }
    }
}

proof fn lemma_while_once(syms: Seq<Seq<char>>, g: GState, x: WhileV)
    requires
        spec_gen_while(syms, g, x) is Ok,
        all_once(g.fns),
    ensures
        g.labels <= spec_gen_while(syms, g, x)->Ok_0.0.labels,
        labels_in(spec_gen_while(syms, g, x)->Ok_0.1, g.labels as int, spec_gen_while(syms, g, x)->Ok_0.0.labels as int),
        labels_once(spec_gen_while(syms, g, x)->Ok_0.1),
        all_once(spec_gen_while(syms, g, x)->Ok_0.0.fns),
    decreases x,
{
    broadcast use lemma_labels_concat, lemma_one;

    lemma_empty();
    reveal_strlit("START_WHILE_");
    reveal_strlit("LOOP_WHILE_");
    reveal_strlit("END_WHILE_");
    let c = g.labels;
    let start = label_name("START_WHILE_"@, c);
    let lp = label_name("LOOP_WHILE_"@, c);
    let end = label_name("END_WHILE_"@, c);
    lemma_expr_plain(syms, g, x.cond);
    let (g1, s1, atom, temp) = spec_gen_expr(syms, g, x.cond)->Ok_0;
    let flag = crate::irgenerator::spec_cond_flag(syms, atom, temp)->Some_0;
    let g2 = GState { labels: (g1.labels + 1) as usize, ..g1 };
    lemma_stmts_once(syms, g2, x.scope.stmts);
    let (g3, body) = spec_gen_stmts(syms, g2, x.scope.stmts)->Ok_0;
    lemma_made("START_WHILE_"@, c);
    lemma_made("LOOP_WHILE_"@, c);
    lemma_made("END_WHILE_"@, c);
    lemma_prefixes_apart("START_WHILE_"@, "LOOP_WHILE_"@, c);
    lemma_prefixes_apart("START_WHILE_"@, "END_WHILE_"@, c);
    lemma_prefixes_apart("LOOP_WHILE_"@, "END_WHILE_"@, c);
    // start, the condition, two branches
    let a0 = seq![KNodeV::Label { name: start }];
    lemma_add_label(Seq::empty(), start);
    assert(Seq::<KNodeV>::empty() + a0 =~= a0);
    lemma_add_plain(a0, s1);
    let br = seq![KNodeV::Br { label: lp, flag: Some(flag) }, KNodeV::Br { label: end, flag: None }];
    assert(labels_of(br) == Set::<Seq<char>>::empty()) by {
        assert(br =~= seq![KNodeV::Br { label: lp, flag: Some(flag) }] + seq![KNodeV::Br { label: end, flag: None }]);
    }
    lemma_add_plain(a0 + s1, br);
    let a1 = a0 + s1 + br;
    lemma_add_label(a1, lp);
    let a2 = a1 + seq![KNodeV::Label { name: lp }];
    assert(labels_of(a2) == set![start, lp]);
    assert(labels_in(a2, c as int, c + 1));
    lemma_join_ranges(a2, body, c as int, c + 1, g3.labels as int);
    let a3 = a2 + body;
    lemma_add_plain(a3, seq![KNodeV::Br { label: start, flag: None }]);
    let a4 = a3 + seq![KNodeV::Br { label: start, flag: None }];
    assert(!labels_of(a4).contains(end)) by {
        if labels_of(body).contains(end) {
            lemma_ranges_apart(end, c as int, c + 1, c + 1, g3.labels as int);
        }
    }
    lemma_add_label(a4, end);
    let a5 = a4 + seq![KNodeV::Label { name: end }];
    assert(labels_in(a5, c as int, g3.labels as int)) by {
        lemma_widen(body, c + 1, g3.labels as int, c as int, g3.labels as int);
    }
    let seg = spec_gen_while(syms, g, x)->Ok_0.1;
    assert(seg =~= a5);
}

proof fn lemma_elifs_once(
    syms: Seq<Seq<char>>,
    g: GState,
    es: Seq<Option<ElifV>>,
    has_else: bool,
    elseb: Seq<char>,
    endif: Seq<char>,
)
    requires
        spec_gen_elifs(syms, g, es, has_else, elseb, endif) is Ok,
        all_once(g.fns),
    ensures
        g.labels <= spec_gen_elifs(syms, g, es, has_else, elseb, endif)->Ok_0.0.labels,
        labels_in(
            spec_gen_elifs(syms, g, es, has_else, elseb, endif)->Ok_0.1,
            g.labels as int,
            spec_gen_elifs(syms, g, es, has_else, elseb, endif)->Ok_0.0.labels as int,
        ),
        labels_once(spec_gen_elifs(syms, g, es, has_else, elseb, endif)->Ok_0.1),
        all_once(spec_gen_elifs(syms, g, es, has_else, elseb, endif)->Ok_0.0.fns),
    decreases es,
{
    lemma_empty();
    if es.len() == 0 {
        lemma_none(Seq::empty(), g.labels as int, g.labels as int);
    } else {
        let (g1, s1) = match es[0] {
            None => {
                lemma_none(Seq::empty(), g.labels as int, g.labels as int);
                (g, Seq::<KNodeV>::empty())
            },
            Some(e) => {
                lemma_elif_once(syms, g, e, some_after(es), has_else, elseb, endif);
                spec_gen_elif(syms, g, e, some_after(es), has_else, elseb, endif)->Ok_0
            },
        };
        lemma_elifs_once(syms, g1, es.subrange(1, es.len() as int), has_else, elseb, endif);
        let (g2, s2) = spec_gen_elifs(syms, g1, es.subrange(1, es.len() as int), has_else, elseb, endif)->Ok_0;
        lemma_join_ranges(s1, s2, g.labels as int, g1.labels as int, g2.labels as int);
    }
}

#[verifier::rlimit(60)]
#[verifier::spinoff_prover]
proof fn lemma_elif_once(
    syms: Seq<Seq<char>>,
    g: GState,
    e: ElifV,
    more: bool,
    has_else: bool,
    elseb: Seq<char>,
    endif: Seq<char>,
)
    requires
        spec_gen_elif(syms, g, e, more, has_else, elseb, endif) is Ok,
        all_once(g.fns),
    ensures
        g.labels <= spec_gen_elif(syms, g, e, more, has_else, elseb, endif)->Ok_0.0.labels,
        labels_in(
            spec_gen_elif(syms, g, e, more, has_else, elseb, endif)->Ok_0.1,
            g.labels as int,
            spec_gen_elif(syms, g, e, more, has_else, elseb, endif)->Ok_0.0.labels as int,
        ),
        labels_once(spec_gen_elif(syms, g, e, more, has_else, elseb, endif)->Ok_0.1),
        all_once(spec_gen_elif(syms, g, e, more, has_else, elseb, endif)->Ok_0.0.fns),
    decreases e,
{
    broadcast use lemma_labels_concat, lemma_one;

    lemma_empty();
    reveal_strlit("LABEL_ELIF_BODY_");
    reveal_strlit("LABEL_ELIF_NEXT_");
    lemma_expr_plain(syms, g, e.cond);
    let (g1, s1, atom, temp) = spec_gen_expr(syms, g, e.cond)->Ok_0;
    let flag = crate::irgenerator::spec_cond_flag(syms, atom, temp)->Some_0;
    let c = g1.labels;
    let body_l = label_name("LABEL_ELIF_BODY_"@, c);
    let next_l = label_name("LABEL_ELIF_NEXT_"@, c);
    let g2 = GState { labels: (c + 1) as usize, ..g1 };
    lemma_stmts_once(syms, g2, e.scope.stmts);
    let (g3, body) = spec_gen_stmts(syms, g2, e.scope.stmts)->Ok_0;
    lemma_made("LABEL_ELIF_BODY_"@, c);
    lemma_made("LABEL_ELIF_NEXT_"@, c);
    assert("LABEL_ELIF_BODY_"@ != "LABEL_ELIF_NEXT_"@) by {
        assert("LABEL_ELIF_BODY_"@[11] != "LABEL_ELIF_NEXT_"@[11]);
    }
    lemma_prefixes_apart("LABEL_ELIF_BODY_"@, "LABEL_ELIF_NEXT_"@, c);
    let fallback = if more {
        next_l
    } else if has_else {
        elseb
    } else {
        endif
    };
    let br = seq![KNodeV::Br { label: body_l, flag: Some(flag) }, KNodeV::Br { label: fallback, flag: None }];
    assert(labels_of(br) == Set::<Seq<char>>::empty()) by {
        assert(br =~= seq![KNodeV::Br { label: body_l, flag: Some(flag) }] + seq![
            KNodeV::Br { label: fallback, flag: None },
        ]);
    }
    lemma_none(s1, 0, 0);
    lemma_add_plain(s1, br);
    let a1 = s1 + br;
    lemma_add_label(a1, body_l);
    let a2 = a1 + seq![KNodeV::Label { name: body_l }];
    assert(labels_in(a2, c as int, c + 1));
    lemma_join_ranges(a2, body, c as int, c + 1, g3.labels as int);
    let a3 = a2 + body;
    lemma_add_plain(a3, seq![KNodeV::Br { label: endif, flag: None }]);
    let a4 = a3 + seq![KNodeV::Br { label: endif, flag: None }];
    let seg = spec_gen_elif(syms, g, e, more, has_else, elseb, endif)->Ok_0.1;
    if more {
        assert(!labels_of(a4).contains(next_l)) by {
            if labels_of(body).contains(next_l) {
                lemma_ranges_apart(next_l, c as int, c + 1, c + 1, g3.labels as int);
            }
        }
        lemma_add_label(a4, next_l);
        let a5 = a4 + seq![KNodeV::Label { name: next_l }];
        assert(labels_in(a5, c as int, g3.labels as int));
        assert(seg =~= a5);
    } else {
        assert(seg =~= a4 + Seq::<KNodeV>::empty());
        assert(a4 + Seq::<KNodeV>::empty() =~= a4);
    }
}

#[verifier::rlimit(100)]
#[verifier::spinoff_prover]
proof fn lemma_if_once(syms: Seq<Seq<char>>, g: GState, x: StmtIfV)
    requires
        spec_gen_if(syms, g, x) is Ok,
        all_once(g.fns),
    ensures
        g.labels <= spec_gen_if(syms, g, x)->Ok_0.0.labels,
        labels_in(spec_gen_if(syms, g, x)->Ok_0.1, g.labels as int, spec_gen_if(syms, g, x)->Ok_0.0.labels as int),
        labels_once(spec_gen_if(syms, g, x)->Ok_0.1),
        all_once(spec_gen_if(syms, g, x)->Ok_0.0.fns),
    decreases x,
{
    broadcast use lemma_labels_concat, lemma_one;

    lemma_empty();
    reveal_strlit("LABEL_IF_BODY_");
    reveal_strlit("LABEL_ELIF_INIT_");
    reveal_strlit("LABEL_ELSE_BODY_");
    reveal_strlit("LABEL_ENDIF_");
    lemma_expr_plain(syms, g, x.cond);
    let (g1, s1, atom, temp) = spec_gen_expr(syms, g, x.cond)->Ok_0;
    let flag = crate::irgenerator::spec_cond_flag(syms, atom, temp)->Some_0;
    let c = g1.labels;
    let ifb = label_name("LABEL_IF_BODY_"@, c);
    let init = label_name("LABEL_ELIF_INIT_"@, c);
    let elseb = label_name("LABEL_ELSE_BODY_"@, c);
    let endif = label_name("LABEL_ENDIF_"@, c);
    lemma_made("LABEL_IF_BODY_"@, c);
    lemma_made("LABEL_ELIF_INIT_"@, c);
    lemma_made("LABEL_ELSE_BODY_"@, c);
    lemma_made("LABEL_ENDIF_"@, c);
    assert("LABEL_ELIF_INIT_"@ != "LABEL_ELSE_BODY_"@) by {
        assert("LABEL_ELIF_INIT_"@[8] != "LABEL_ELSE_BODY_"@[8]);
    }
    lemma_prefixes_apart("LABEL_IF_BODY_"@, "LABEL_ELIF_INIT_"@, c);
    lemma_prefixes_apart("LABEL_IF_BODY_"@, "LABEL_ELSE_BODY_"@, c);
    lemma_prefixes_apart("LABEL_IF_BODY_"@, "LABEL_ENDIF_"@, c);
    lemma_prefixes_apart("LABEL_ELIF_INIT_"@, "LABEL_ELSE_BODY_"@, c);
    lemma_prefixes_apart("LABEL_ELIF_INIT_"@, "LABEL_ENDIF_"@, c);
    lemma_prefixes_apart("LABEL_ELSE_BODY_"@, "LABEL_ENDIF_"@, c);
    let g2 = GState { labels: (c + 1) as usize, ..g1 };
    lemma_stmts_once(syms, g2, x.scope.stmts);
    let (g3, body) = spec_gen_stmts(syms, g2, x.scope.stmts)->Ok_0;
    lemma_elifs_once(syms, g3, x.elifs, x.els is Some, elseb, endif);
    let (g4, se) = spec_gen_elifs(syms, g3, x.elifs, x.els is Some, elseb, endif)->Ok_0;
    let (g5, sel) = match x.els {
        Some(e) => {
            lemma_stmts_once(syms, g4, e.scope.stmts);
            spec_gen_stmts(syms, g4, e.scope.stmts)->Ok_0
        },
        None => {
            lemma_none(Seq::empty(), g4.labels as int, g4.labels as int);
            (g4, Seq::<KNodeV>::empty())
        },
    };
    let second = if x.elifs.len() > 0 {
        init
    } else if x.els is Some {
        elseb
    } else {
        endif
    };
    // the condition and the branches into the body
    let br = seq![KNodeV::Br { label: ifb, flag: Some(flag) }, KNodeV::Br { label: second, flag: None }];
    assert(labels_of(br) == Set::<Seq<char>>::empty()) by {
        assert(br =~= seq![KNodeV::Br { label: ifb, flag: Some(flag) }] + seq![KNodeV::Br { label: second, flag: None }]);
    }
    lemma_none(s1, 0, 0);
    lemma_add_plain(s1, br);
    let a1 = s1 + br;
    lemma_add_label(a1, ifb);
    let a2 = a1 + seq![KNodeV::Label { name: ifb }];
    assert(labels_of(a2) == set![ifb]);
    assert(labels_in(a2, c as int, c + 1));
    // the body
    lemma_join_ranges(a2, body, c as int, c + 1, g3.labels as int);
    let a3 = a2 + body;
    lemma_add_plain(a3, seq![KNodeV::Br { label: endif, flag: None }]);
    let a4 = a3 + seq![KNodeV::Br { label: endif, flag: None }];
    // where the `elif` branches start
    let mid = if x.elifs.len() > 0 {
        seq![KNodeV::Label { name: init }]
    } else {
        Seq::<KNodeV>::empty()
    };
    let a5 = a4 + mid;
    if x.elifs.len() > 0 {
        assert(!labels_of(a4).contains(init)) by {
            if labels_of(body).contains(init) {
                lemma_ranges_apart(init, c as int, c + 1, c + 1, g3.labels as int);
            }
        }
        lemma_add_label(a4, init);
        assert(labels_of(a5) == set![ifb, init].union(labels_of(body)));
    } else {
        assert(a5 =~= a4);
        assert(labels_of(a5) == set![ifb].union(labels_of(body)));
    }
    assert(labels_in(a5, c as int, g3.labels as int)) by {
        lemma_widen(body, c + 1, g3.labels as int, c as int, g3.labels as int);
    }
    // the `elif` branches
    lemma_join_ranges(a5, se, c as int, g3.labels as int, g4.labels as int);
    let a6 = a5 + se;
    assert(!labels_of(a6).contains(elseb)) by {
        if labels_of(body).contains(elseb) {
            lemma_ranges_apart(elseb, c as int, c + 1, c + 1, g3.labels as int);
        }
        if labels_of(se).contains(elseb) {
            lemma_ranges_apart(elseb, c as int, c + 1, g3.labels as int, g4.labels as int);
        }
    }
    lemma_add_label(a6, elseb);
    let a7 = a6 + seq![KNodeV::Label { name: elseb }];
    assert(labels_in(a7, c as int, g4.labels as int)) by {
        lemma_widen(a6, c as int, g4.labels as int, c as int, g4.labels as int);
    }
    // the `else` body
    lemma_join_ranges(a7, sel, c as int, g4.labels as int, g5.labels as int);
    let a8 = a7 + sel;
    lemma_add_plain(a8, seq![KNodeV::Br { label: endif, flag: None }]);
    let a9 = a8 + seq![KNodeV::Br { label: endif, flag: None }];
    assert(!labels_of(a9).contains(endif)) by {
        if labels_of(body).contains(endif) {
            lemma_ranges_apart(endif, c as int, c + 1, c + 1, g3.labels as int);
        }
        if labels_of(se).contains(endif) {
            lemma_ranges_apart(endif, c as int, c + 1, g3.labels as int, g4.labels as int);
        }
        if labels_of(sel).contains(endif) {
            lemma_ranges_apart(endif, c as int, c + 1, g4.labels as int, g5.labels as int);
        }
    }
    lemma_add_label(a9, endif);
    let a10 = a9 + seq![KNodeV::Label { name: endif }];
    assert(labels_in(a10, c as int, g5.labels as int));
    let seg = spec_gen_if(syms, g, x)->Ok_0.1;
    assert(seg =~= a10);
}

/// Code generation defines every label once: in the instructions of a list
/// of statements, in every function body, and in the entry function that
/// holds the top-level statements, no two labels have the same name.
pub proof fn lemma_labels_defined_once(syms: Seq<Seq<char>>, g: GState, ss: Seq<NodeV>)
    requires
        spec_gen_stmts(syms, g, ss) is Ok,
        all_once(g.fns),
    ensures
        labels_once(spec_gen_stmts(syms, g, ss)->Ok_0.1),
        all_once(spec_gen_stmts(syms, g, ss)->Ok_0.0.fns),
        all_once(
            spec_with_main(spec_gen_stmts(syms, g, ss)->Ok_0.0.fns, spec_gen_stmts(syms, g, ss)->Ok_0.1),
        ),
{
    broadcast use lemma_labels_concat, lemma_one;

    lemma_stmts_once(syms, g, ss);
    let (g1, top) = spec_gen_stmts(syms, g, ss)->Ok_0;
    if top.len() > 0 {
        let m = spec_main_scope(top);
        let d = seq![KNodeV::Define { return_ty: crate::ast::Type::Void, name: "main"@, args: None }];
        lemma_none(d, 0, 0);
        lemma_join(d, top);
        let fs = g1.fns.push(m);
        assert forall|i: int| 0 <= i < fs.len() implies labels_once(#[trigger] fs[i].nodes) by {
            if i < g1.fns.len() {
                assert(fs[i] == g1.fns[i]);
            }
        }
    }
}

} // verus!
