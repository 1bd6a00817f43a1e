use vstd::prelude::*;

use crate::ast::{ElifV, Expr, NodeV, StmtFnV, StmtIfV, WhileV};
use crate::irgenerator::{
    spec_call_args, spec_gen_elif, spec_gen_elifs, spec_gen_expr, spec_gen_fn, spec_gen_if, spec_gen_stmt, spec_gen_stmts, spec_gen_while, spec_main_scope, spec_with_main, GState,
    KNodeV, ProgScopeV,
};

verus! {

/// The labels that an instruction list defines.
pub open spec fn labels_of(s: Seq<KNodeV>) -> Set<Seq<char>> {
    Set::new(|l: Seq<char>| exists|i: int| 0 <= i < s.len() && s[i] == (KNodeV::Label { name: l }))
}

/// The labels that the branches of an instruction list go to.
pub open spec fn targets_of(s: Seq<KNodeV>) -> Set<Seq<char>> {
    Set::new(|l: Seq<char>| exists|i: int| 0 <= i < s.len() && s[i] is Br && s[i]->Br_label == l)
}

/// Every branch of the list goes to a label that the list defines.
pub open spec fn branches_closed(s: Seq<KNodeV>) -> bool {
    targets_of(s).subset_of(labels_of(s))
}

pub open spec fn all_closed(fns: Seq<ProgScopeV>) -> bool {
    forall|i: int| 0 <= i < fns.len() ==> branches_closed(#[trigger] fns[i].nodes)
}

pub broadcast proof fn lemma_labels_concat(a: Seq<KNodeV>, b: Seq<KNodeV>)
    ensures
        #[trigger] labels_of(a + b) == labels_of(a).union(labels_of(b)),
{
    assert forall|l: Seq<char>| #[trigger] labels_of(a + b).contains(l) implies labels_of(a).union(
        labels_of(b),
    ).contains(l) by {
        let i = choose|i: int| 0 <= i < (a + b).len() && (a + b)[i] == (KNodeV::Label { name: l });
        if i < a.len() {
            assert(a[i] == (KNodeV::Label { name: l }));
        } else {
            assert(b[i - a.len()] == (KNodeV::Label { name: l }));
        }
    }
    assert forall|l: Seq<char>| #[trigger] labels_of(a).union(labels_of(b)).contains(l) implies labels_of(
        a + b,
    ).contains(l) by {
        if labels_of(a).contains(l) {
            let i = choose|i: int| 0 <= i < a.len() && a[i] == (KNodeV::Label { name: l });
            assert((a + b)[i] == (KNodeV::Label { name: l }));
        } else {
            let i = choose|i: int| 0 <= i < b.len() && b[i] == (KNodeV::Label { name: l });
            assert((a + b)[i + a.len()] == (KNodeV::Label { name: l }));
        }
    }
    assert(labels_of(a + b) =~= labels_of(a).union(labels_of(b)));
}

pub broadcast proof fn lemma_targets_concat(a: Seq<KNodeV>, b: Seq<KNodeV>)
    ensures
        #[trigger] targets_of(a + b) == targets_of(a).union(targets_of(b)),
{
    assert forall|l: Seq<char>| #[trigger] targets_of(a + b).contains(l) implies targets_of(a).union(
        targets_of(b),
    ).contains(l) by {
        let i = choose|i: int| 0 <= i < (a + b).len() && (a + b)[i] is Br && (a + b)[i]->Br_label == l;
        if i < a.len() {
            assert(a[i] is Br && a[i]->Br_label == l);
        } else {
            assert(b[i - a.len()] is Br && b[i - a.len()]->Br_label == l);
        }
    }
    assert forall|l: Seq<char>| #[trigger] targets_of(a).union(targets_of(b)).contains(l) implies targets_of(
        a + b,
    ).contains(l) by {
        if targets_of(a).contains(l) {
            let i = choose|i: int| 0 <= i < a.len() && a[i] is Br && a[i]->Br_label == l;
            assert((a + b)[i] is Br && (a + b)[i]->Br_label == l);
        } else {
            let i = choose|i: int| 0 <= i < b.len() && b[i] is Br && b[i]->Br_label == l;
            assert((a + b)[i + a.len()] is Br && (a + b)[i + a.len()]->Br_label == l);
        }
    }
    assert(targets_of(a + b) =~= targets_of(a).union(targets_of(b)));
}

/// The labels and branch targets of a single instruction.
pub broadcast proof fn lemma_one(n: KNodeV)
    ensures
        #[trigger] labels_of(seq![n]) == (match n {
            KNodeV::Label { name } => set![name],
            _ => Set::empty(),
        }),
        targets_of(seq![n]) == (match n {
            KNodeV::Br { label, .. } => set![label],
            _ => Set::empty(),
        }),
{
    let s = seq![n];
    assert(s[0] == n);
    match n {
        KNodeV::Label { name } => {
            assert(labels_of(s) =~= set![name]);
        },
        _ => {
            assert(labels_of(s) =~= Set::empty());
        },
    }
    match n {
        KNodeV::Br { label, .. } => {
            assert(targets_of(s) =~= set![label]);
        },
        _ => {
            assert(targets_of(s) =~= Set::empty());
        },
    }
}

/// The empty list defines no label and branches nowhere.
pub proof fn lemma_empty()
    ensures
        labels_of(Seq::empty()) == Set::<Seq<char>>::empty(),
        targets_of(Seq::empty()) == Set::<Seq<char>>::empty(),
{
    assert(labels_of(Seq::empty()) =~= Set::<Seq<char>>::empty());
    assert(targets_of(Seq::empty()) =~= Set::<Seq<char>>::empty());
}

/// An expression emits arithmetic only, and changes neither the label
/// counter nor the finished functions.
pub proof fn lemma_expr_plain(syms: Seq<Seq<char>>, g: GState, e: Expr)
    requires
        spec_gen_expr(syms, g, e) is Ok,
    ensures
        ({
            let (g1, s, _, _) = spec_gen_expr(syms, g, e)->Ok_0;
            &&& g1.labels == g.labels
            &&& g1.fns == g.fns
            &&& labels_of(s) == Set::<Seq<char>>::empty()
            &&& targets_of(s) == Set::<Seq<char>>::empty()
        }),
    decreases e,
{
    broadcast use lemma_labels_concat, lemma_targets_concat, lemma_one;

    lemma_empty();
    if e.lhs is Some && e.rhs is Some {
        lemma_expr_plain(syms, g, *e.lhs->Some_0);
        let g1 = spec_gen_expr(syms, g, *e.lhs->Some_0)->Ok_0.0;
        lemma_expr_plain(syms, g1, *e.rhs->Some_0);
    }
}

/// The arguments of a call emit arithmetic only: no label, no branch.
pub proof fn lemma_call_args_plain(syms: Seq<Seq<char>>, g: GState, a: Seq<Expr>)
    requires
        spec_call_args(syms, g, a) is Ok,
    ensures
        spec_call_args(syms, g, a)->Ok_0.0.labels == g.labels,
        spec_call_args(syms, g, a)->Ok_0.0.fns == g.fns,
        labels_of(spec_call_args(syms, g, a)->Ok_0.1) == Set::<Seq<char>>::empty(),
        targets_of(spec_call_args(syms, g, a)->Ok_0.1) == Set::<Seq<char>>::empty(),
    decreases a.len(),
{
    broadcast use lemma_labels_concat, lemma_targets_concat;

    lemma_empty();
    if a.len() > 0 {
        lemma_expr_plain(syms, g, a[0]);
        let g1 = spec_gen_expr(syms, g, a[0])->Ok_0.0;
        lemma_call_args_plain(syms, g1, a.subrange(1, a.len() as int));
    }
}

proof fn lemma_stmt_closed(syms: Seq<Seq<char>>, g: GState, n: NodeV)
    requires
        spec_gen_stmt(syms, g, n) is Ok,
        all_closed(g.fns),
    ensures
        branches_closed(spec_gen_stmt(syms, g, n)->Ok_0.1),
        all_closed(spec_gen_stmt(syms, g, n)->Ok_0.0.fns),
    decreases n,
{
    broadcast use lemma_labels_concat, lemma_targets_concat, lemma_one;

    lemma_empty();
    match n {
        NodeV::VarDecl(d) => {
            lemma_expr_plain(syms, g, *d.value);
        },
        NodeV::StmtExit(x) => {
            lemma_expr_plain(syms, g, *x.exit_code);
        },
        NodeV::Expr(e) => {
            lemma_expr_plain(syms, g, e);
        },
        NodeV::StmtIf(x) => {
            lemma_if_closed(syms, g, x);
        },
        NodeV::StmtWhile(x) => {
            lemma_while_closed(syms, g, x);
        },
        NodeV::StmtFn(f) => {
            lemma_fn_closed(syms, g, f);
        },
        NodeV::Call(c) => {
            match c.args {
                Some(a) => {
                    lemma_call_args_plain(syms, g, a);
                },
                None => {},
            }
        },
        NodeV::Scope(s) => {
            lemma_stmts_closed(syms, g, s.stmts);
        },
        _ => {},
    }
}

proof fn lemma_stmts_closed(syms: Seq<Seq<char>>, g: GState, ss: Seq<NodeV>)
    requires
        spec_gen_stmts(syms, g, ss) is Ok,
        all_closed(g.fns),
    ensures
        branches_closed(spec_gen_stmts(syms, g, ss)->Ok_0.1),
        all_closed(spec_gen_stmts(syms, g, ss)->Ok_0.0.fns),
    decreases ss,
{
    broadcast use lemma_labels_concat, lemma_targets_concat, lemma_one;

    lemma_empty();
    if ss.len() > 0 {
        lemma_stmt_closed(syms, g, ss[0]);
        let g1 = spec_gen_stmt(syms, g, ss[0])->Ok_0.0;
        lemma_stmts_closed(syms, g1, ss.subrange(1, ss.len() as int));
    }
}

proof fn lemma_fn_closed(syms: Seq<Seq<char>>, g: GState, f: StmtFnV)
    requires
        spec_gen_fn(syms, g, f) is Ok,
        all_closed(g.fns),
    ensures
        all_closed(spec_gen_fn(syms, g, f)->Ok_0.fns),
    decreases f,
{
    broadcast use lemma_labels_concat, lemma_targets_concat, lemma_one;

    lemma_stmts_closed(syms, g, f.body.stmts);
    let g2 = spec_gen_fn(syms, g, f)->Ok_0;
    let g1 = spec_gen_stmts(syms, g, f.body.stmts)->Ok_0.0;
    assert(g2.fns == g1.fns.push(g2.fns.last()));
    assert forall|i: int| 0 <= i < g2.fns.len() implies branches_closed(#[trigger] g2.fns[i].nodes) by {
        if i < g1.fns.len() {
            assert(g2.fns[i] == g1.fns[i]);
        }
    }
}

proof fn lemma_while_closed(syms: Seq<Seq<char>>, g: GState, x: WhileV)
    requires
        spec_gen_while(syms, g, x) is Ok,
        all_closed(g.fns),
    ensures
        branches_closed(spec_gen_while(syms, g, x)->Ok_0.1),
        all_closed(spec_gen_while(syms, g, x)->Ok_0.0.fns),
    decreases x,
{
    broadcast use lemma_labels_concat, lemma_targets_concat, lemma_one;

    lemma_empty();
    lemma_expr_plain(syms, g, x.cond);
    let g1 = spec_gen_expr(syms, g, x.cond)->Ok_0.0;
    let g2 = GState { labels: (g1.labels + 1) as usize, ..g1 };
    lemma_stmts_closed(syms, g2, x.scope.stmts);
}

proof fn lemma_if_closed(syms: Seq<Seq<char>>, g: GState, x: StmtIfV)
    requires
        spec_gen_if(syms, g, x) is Ok,
        all_closed(g.fns),
    ensures
        branches_closed(spec_gen_if(syms, g, x)->Ok_0.1),
        all_closed(spec_gen_if(syms, g, x)->Ok_0.0.fns),
    decreases x,
{
    broadcast use lemma_labels_concat, lemma_targets_concat, lemma_one;

    lemma_empty();
    lemma_expr_plain(syms, g, x.cond);
    let g1 = spec_gen_expr(syms, g, x.cond)->Ok_0.0;
    let g2 = GState { labels: (g1.labels + 1) as usize, ..g1 };
    lemma_stmts_closed(syms, g2, x.scope.stmts);
    let g3 = spec_gen_stmts(syms, g2, x.scope.stmts)->Ok_0.0;
    let c = g1.labels;
    let elseb = crate::irgenerator::label_name("LABEL_ELSE_BODY_"@, c);
    let endif = crate::irgenerator::label_name("LABEL_ENDIF_"@, c);
    lemma_elifs_closed(syms, g3, x.elifs, x.els is Some, elseb, endif);
    let g4 = spec_gen_elifs(syms, g3, x.elifs, x.els is Some, elseb, endif)->Ok_0.0;
    match x.els {
        Some(e) => {
            lemma_stmts_closed(syms, g4, e.scope.stmts);
        },
        None => {},
    }
}

/// The branches of the `elif` list go to its own labels or to the `else` and
/// end labels of the `if`.
proof fn lemma_elifs_closed(
    syms: Seq<Seq<char>>,
    g: GState,
    es: Seq<Option<ElifV>>,
    has_else: bool,
    elseb: Seq<char>,
    endif: Seq<char>,
)
    requires
        spec_gen_elifs(syms, g, es, has_else, elseb, endif) is Ok,
        all_closed(g.fns),
    ensures
        targets_of(spec_gen_elifs(syms, g, es, has_else, elseb, endif)->Ok_0.1).subset_of(
            labels_of(spec_gen_elifs(syms, g, es, has_else, elseb, endif)->Ok_0.1).insert(elseb).insert(
                endif,
            ),
        ),
        all_closed(spec_gen_elifs(syms, g, es, has_else, elseb, endif)->Ok_0.0.fns),
    decreases es,
{
    broadcast use lemma_labels_concat, lemma_targets_concat, lemma_one;

    lemma_empty();
    if es.len() > 0 {
        let g1 = match es[0] {
            None => g,
            Some(e) => {
                lemma_elif_closed(syms, g, e, crate::irgenerator::some_after(es), has_else, elseb, endif);
                spec_gen_elif(syms, g, e, crate::irgenerator::some_after(es), has_else, elseb, endif)->Ok_0.0
            },
        };
        lemma_elifs_closed(syms, g1, es.subrange(1, es.len() as int), has_else, elseb, endif);
    }
}

#[verifier::rlimit(60)]
#[verifier::spinoff_prover]
proof fn lemma_elif_closed(
    syms: Seq<Seq<char>>,
    g: GState,
    e: ElifV,
    more: bool,
    has_else: bool,
    elseb: Seq<char>,
    endif: Seq<char>,
)
    requires
        spec_gen_elif(syms, g, e, more, has_else, elseb, endif) is Ok,
        all_closed(g.fns),
    ensures
        targets_of(spec_gen_elif(syms, g, e, more, has_else, elseb, endif)->Ok_0.1).subset_of(
            labels_of(spec_gen_elif(syms, g, e, more, has_else, elseb, endif)->Ok_0.1).insert(elseb).insert(
                endif,
            ),
        ),
        all_closed(spec_gen_elif(syms, g, e, more, has_else, elseb, endif)->Ok_0.0.fns),
    decreases e,
{
    broadcast use lemma_labels_concat, lemma_targets_concat, lemma_one;

    lemma_empty();
    lemma_expr_plain(syms, g, e.cond);
    let g1 = spec_gen_expr(syms, g, e.cond)->Ok_0.0;
    let g2 = GState { labels: (g1.labels + 1) as usize, ..g1 };
    lemma_stmts_closed(syms, g2, e.scope.stmts);
}

/// Every branch that code generation emits goes to a label defined in the
/// same instruction list: in the list of the statements themselves, in
/// every function body it finishes, and in the entry function that holds the
/// top-level statements.
pub proof fn lemma_branch_targets_defined(syms: Seq<Seq<char>>, g: GState, ss: Seq<NodeV>)
    requires
        spec_gen_stmts(syms, g, ss) is Ok,
        all_closed(g.fns),
    ensures
        branches_closed(spec_gen_stmts(syms, g, ss)->Ok_0.1),
        all_closed(spec_gen_stmts(syms, g, ss)->Ok_0.0.fns),
        all_closed(
            spec_with_main(spec_gen_stmts(syms, g, ss)->Ok_0.0.fns, spec_gen_stmts(syms, g, ss)->Ok_0.1),
        ),
{
    broadcast use lemma_labels_concat, lemma_targets_concat, lemma_one;

    lemma_stmts_closed(syms, g, ss);
    let (g1, top) = spec_gen_stmts(syms, g, ss)->Ok_0;
    if top.len() > 0 {
        let m = spec_main_scope(top);
        let d = seq![KNodeV::Define { return_ty: crate::ast::Type::Void, name: "main"@, args: None }];
        assert(labels_of(d + top) == labels_of(d).union(labels_of(top)));
        assert(targets_of(d + top) == targets_of(d).union(targets_of(top)));
        assert(branches_closed(m.nodes));
        let fs = g1.fns.push(m);
        assert forall|i: int| 0 <= i < fs.len() implies branches_closed(#[trigger] fs[i].nodes) by {
            if i < g1.fns.len() {
                assert(fs[i] == g1.fns[i]);
            }
        }
    }
}

} // verus!
