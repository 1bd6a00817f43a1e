use vstd::prelude::*;
use vstd::string::*;

use crate::ast::{
    self, elifs_view, fn_view, if_view, node_view, nodes_view, while_view, AtomKind, ElifV,
    NodeV, Program, StmtFnV, StmtIfV, Type, UnionNode, WhileV, CallV, spec_is_signed,
};
use crate::diagnostics::DiagHandler;
use crate::lexer::{Op, Symbol, SymbolTable};
use crate::semantics::sym_name;
use crate::text::{push_decimal, push_int, spec_decimal, spec_int_text};

verus! {

/// The machine that code is generated for.
#[derive(Debug, Clone, Copy, PartialEq, Eq, Structural)]
pub enum Target {
    UnknownArch,
    Aarch64,
    X86_64,
}

pub open spec fn spec_target_of(arch: Seq<char>) -> Target {
    if arch == "aarch64"@ {
        Target::Aarch64
    } else {
        Target::X86_64
    }
}

impl Target {
    /// The target named by an architecture string: `aarch64`, else x86-64.
    pub fn from(value: &str) -> (r: Target)
        ensures
            r == spec_target_of(value@),
    {
        proof {
            reveal_strlit("aarch64");
        }
        let n = value.unicode_len();
        if n == 7 && value.get_char(0) == 'a' && value.get_char(1) == 'a' && value.get_char(2) == 'r'
            && value.get_char(3) == 'c' && value.get_char(4) == 'h' && value.get_char(5) == '6'
            && value.get_char(6) == '4' {
            assert(value@ =~= "aarch64"@);
            Target::Aarch64
        } else {
            Target::X86_64
        }
    }
}

/// Lowering stopped on a tree it cannot lower: an operand or a statement of a
/// form the intermediate language has no instruction for.
#[derive(Debug, Clone, Copy, PartialEq, Eq, Structural)]
pub enum IrError {
    Abort,
}

/// An operand: a named variable, a temporary, or an immediate.
#[derive(Debug, PartialEq, Eq)]
pub enum ArgType {
    Sym(String),
    Temp(String),
    Imm(i128),
}

#[derive(Debug)]
pub struct Alloca {
    pub ty: Type,
    pub dest: String,
}

#[derive(Debug)]
pub struct Define {
    pub return_ty: Type,
    pub name: String,
    pub args: Option<Vec<(ArgType, Type)>>,
}

#[derive(Debug)]
pub struct Call {
    pub return_ty: Type,
    pub name: String,
    pub args: Option<Vec<(ArgType, Type)>>,
}

#[derive(Debug)]
pub struct Store {
    pub ty: Type,
    pub src: ArgType,
    pub dest: String,
}

#[derive(Debug)]
pub struct Expr {
    pub ty: Type,
    pub lhs: ArgType,
    pub rhs: ArgType,
    pub op: Op,
    pub dest: String,
}

#[derive(Debug)]
pub struct Label {
    pub name: String,
}

/// A branch to `label`: conditional on `flag` when there is one.
#[derive(Debug)]
pub struct Br {
    pub label: String,
    pub flag: Option<String>,
}

/// One instruction of the intermediate language.
#[derive(Debug)]
pub enum KlirNode {
    Alloca(Alloca),
    Store(Store),
    Define(Define),
    Call(Call),
    Expr(Expr),
    Br(Br),
    Label(Label),
}

/// A list of instructions.
#[derive(Debug)]
pub struct KlirBlob {
    pub nodes: Vec<KlirNode>,
}

/// A named list of instructions (a function body).
#[derive(Debug)]
pub struct ProgScope {
    pub id: String,
    pub ir: KlirBlob,
}

impl KlirBlob {
    pub fn new() -> (r: KlirBlob)
        ensures
            r.nodes@.len() == 0,
    {
        KlirBlob { nodes: Vec::new() }
    }
}

impl ProgScope {
    pub fn new() -> (r: ProgScope)
        ensures
            r@.id.len() == 0,
            r@.nodes.len() == 0,
    {
        ProgScope { id: String::new(), ir: KlirBlob::new() }
    }
}

// ---------------------------------------------------------------------------
// The instructions as values.

pub enum ArgV {
    Sym(Seq<char>),
    Temp(Seq<char>),
    Imm(i128),
}

pub enum KNodeV {
    Alloca { ty: Type, dest: Seq<char> },
    Store { ty: Type, src: ArgV, dest: Seq<char> },
    Define { return_ty: Type, name: Seq<char>, args: Option<Seq<(ArgV, Type)>> },
    Call { return_ty: Type, name: Seq<char>, args: Option<Seq<(ArgV, Type)>> },
    Expr { ty: Type, lhs: ArgV, rhs: ArgV, op: Op, dest: Seq<char> },
    Br { label: Seq<char>, flag: Option<Seq<char>> },
    Label { name: Seq<char> },
}

pub struct ProgScopeV {
    pub id: Seq<char>,
    pub nodes: Seq<KNodeV>,
}

pub open spec fn arg_view(a: ArgType) -> ArgV {
    match a {
        ArgType::Sym(s) => ArgV::Sym(s@),
        ArgType::Temp(s) => ArgV::Temp(s@),
        ArgType::Imm(v) => ArgV::Imm(v),
    }
}

pub open spec fn args_view(v: Seq<(ArgType, Type)>) -> Seq<(ArgV, Type)> {
    v.map_values(|p: (ArgType, Type)| (arg_view(p.0), p.1))
}

pub open spec fn opt_args_view(v: Option<Vec<(ArgType, Type)>>) -> Option<Seq<(ArgV, Type)>> {
    match v {
        Some(a) => Some(args_view(a@)),
        None => None,
    }
}

pub open spec fn knode_view(n: KlirNode) -> KNodeV {
    match n {
        KlirNode::Alloca(a) => KNodeV::Alloca { ty: a.ty, dest: a.dest@ },
        KlirNode::Store(s) => KNodeV::Store { ty: s.ty, src: arg_view(s.src), dest: s.dest@ },
        KlirNode::Define(d) => KNodeV::Define {
            return_ty: d.return_ty,
            name: d.name@,
            args: opt_args_view(d.args),
        },
        KlirNode::Call(c) => KNodeV::Call {
            return_ty: c.return_ty,
            name: c.name@,
            args: opt_args_view(c.args),
        },
        KlirNode::Expr(e) => KNodeV::Expr {
            ty: e.ty,
            lhs: arg_view(e.lhs),
            rhs: arg_view(e.rhs),
            op: e.op,
            dest: e.dest@,
        },
        KlirNode::Br(b) => KNodeV::Br {
            label: b.label@,
            flag: match b.flag {
                Some(f) => Some(f@),
                None => None,
            },
        },
        KlirNode::Label(l) => KNodeV::Label { name: l.name@ },
    }
}

pub open spec fn knodes_view(v: Seq<KlirNode>) -> Seq<KNodeV> {
    v.map_values(|n: KlirNode| knode_view(n))
}

pub open spec fn scopes_view(v: Seq<ProgScope>) -> Seq<ProgScopeV> {
    v.map_values(|s: ProgScope| s@)
}

impl View for ArgType {
    type V = ArgV;

    open spec fn view(&self) -> ArgV {
        arg_view(*self)
    }
}

impl View for KlirNode {
    type V = KNodeV;

    open spec fn view(&self) -> KNodeV {
        knode_view(*self)
    }
}

impl View for ProgScope {
    type V = ProgScopeV;

    open spec fn view(&self) -> ProgScopeV {
        ProgScopeV { id: self.id@, nodes: knodes_view(self.ir.nodes@) }
    }
}

// ---------------------------------------------------------------------------
// What generation emits, as a function of the typed syntax tree.

/// The generator's counters and the function bodies it has finished.
pub struct GState {
    pub regs: usize,
    pub labels: usize,
    pub fns: Seq<ProgScopeV>,
}

pub open spec fn temp_name(n: usize) -> Seq<char> {
    "t"@ + spec_decimal(n as nat)
}

pub open spec fn label_name(prefix: Seq<char>, n: usize) -> Seq<char> {
    prefix + spec_decimal(n as nat)
}

/// An expression's operand: what its atom names, else the temporary that
/// holds its value.
pub open spec fn spec_expr_operand(
    syms: Seq<Seq<char>>,
    atom: AtomKind,
    temp: Option<Seq<char>>,
) -> Option<ArgV> {
    match atom {
        AtomKind::Ident(id) => match sym_name(syms, id.name) {
            Some(n) => Some(ArgV::Sym(n)),
            None => None,
        },
        AtomKind::IntLit(lit) => Some(ArgV::Imm(lit.val)),
        AtomKind::NoAtom => match temp {
            Some(t) => Some(ArgV::Temp(t)),
            None => None,
        },
    }
}

/// A value's operand: the temporary that holds it, else what its atom names.
pub open spec fn spec_value_operand(
    syms: Seq<Seq<char>>,
    atom: AtomKind,
    temp: Option<Seq<char>>,
) -> Option<ArgV> {
    match temp {
        Some(t) => Some(ArgV::Temp(t)),
        None => match atom {
            AtomKind::Ident(id) => match sym_name(syms, id.name) {
                Some(n) => Some(ArgV::Sym(n)),
                None => None,
            },
            AtomKind::IntLit(lit) => Some(ArgV::Imm(lit.val)),
            AtomKind::NoAtom => None,
        },
    }
}

/// The text of an atom: a name, a number, or `None`.
pub open spec fn spec_atom_text(syms: Seq<Seq<char>>, atom: AtomKind) -> Option<Seq<char>> {
    match atom {
        AtomKind::Ident(id) => sym_name(syms, id.name),
        AtomKind::IntLit(lit) => Some(spec_int_text(lit.val as int)),
        AtomKind::NoAtom => Some("None"@),
    }
}

/// The flag a condition branches on: its temporary, else its atom's text.
pub open spec fn spec_cond_flag(
    syms: Seq<Seq<char>>,
    atom: AtomKind,
    temp: Option<Seq<char>>,
) -> Option<Seq<char>> {
    match temp {
        Some(t) => Some(t),
        None => spec_atom_text(syms, atom),
    }
}

pub open spec fn spec_op_for(op: Op, ty: Type) -> Op {
    if op == Op::Lsr && spec_is_signed(ty) {
        Op::Asr
    } else {
        op
    }
}

/// An expression, children first: the instructions it emits, and the atom
/// and temporary that stand for its value.
pub open spec fn spec_gen_expr(syms: Seq<Seq<char>>, g: GState, e: ast::Expr) -> Result<
    (GState, Seq<KNodeV>, AtomKind, Option<Seq<char>>),
    IrError,
>
    decreases e,
{
    if e.lhs is Some && e.rhs is Some {
        match spec_gen_expr(syms, g, *e.lhs->Some_0) {
            Err(x) => Err(x),
            Ok((g1, s1, la, lt)) => match spec_gen_expr(syms, g1, *e.rhs->Some_0) {
                Err(x) => Err(x),
                Ok((g2, s2, ra, rt)) => {
                    if g2.regs == usize::MAX {
                        Err(IrError::Abort)
                    } else {
                        let dest = temp_name(g2.regs);
                        let g3 = GState { regs: (g2.regs + 1) as usize, ..g2 };
                        match (spec_expr_operand(syms, la, lt), spec_expr_operand(syms, ra, rt), e.ty) {
                            (Some(l), Some(r), Some(ty)) => Ok(
                                (
                                    g3,
                                    s1 + s2 + seq![
                                        KNodeV::Expr {
                                            ty,
                                            lhs: l,
                                            rhs: r,
                                            op: spec_op_for(e.op, ty),
                                            dest,
                                        },
                                    ],
                                    e.atom,
                                    Some(dest),
                                ),
                            ),
                            _ => Err(IrError::Abort),
                        }
                    }
                },
            },
        }
    } else {
        Ok((g, Seq::empty(), e.atom, None))
    }
}

/// A declaration: its value, then `alloca` and `store` of the variable.
pub open spec fn spec_gen_decl(syms: Seq<Seq<char>>, g: GState, d: ast::VarDecl) -> Result<
    (GState, Seq<KNodeV>),
    IrError,
> {
    match spec_gen_expr(syms, g, *d.value) {
        Err(x) => Err(x),
        Ok((g1, s1, atom, temp)) => match (d.ty, sym_name(syms, d.id.name), spec_value_operand(syms, atom, temp)) {
            (Some(ty), Some(name), Some(src)) => Ok(
                (
                    g1,
                    s1 + seq![
                        KNodeV::Alloca { ty, dest: name },
                        KNodeV::Store { ty, src, dest: name },
                    ],
                ),
            ),
            _ => Err(IrError::Abort),
        },
    }
}

/// `exit`: its code, then a call of `_exit` on it.
pub open spec fn spec_gen_exit(syms: Seq<Seq<char>>, g: GState, x: ast::StmtExit) -> Result<
    (GState, Seq<KNodeV>),
    IrError,
> {
    match spec_gen_expr(syms, g, *x.exit_code) {
        Err(e) => Err(e),
        Ok((g1, s1, atom, temp)) => match (x.exit_code.ty, spec_value_operand(syms, atom, temp)) {
            (Some(ty), Some(arg)) => Ok(
                (
                    g1,
                    s1 + seq![
                        KNodeV::Call { return_ty: Type::Void, name: "_exit"@, args: Some(seq![(arg, ty)]) },
                    ],
                ),
            ),
            _ => Err(IrError::Abort),
        },
    }
}

/// Whether an entry after the first of an `elif` list is present.
pub open spec fn some_after(es: Seq<Option<ElifV>>) -> bool {
    exists|j: int| 1 <= j < es.len() && (#[trigger] es[j]) is Some
}

/// The parameters of a function definition as operands.
pub open spec fn spec_def_args(syms: Seq<Seq<char>>, a: Seq<(Symbol, Type)>) -> Option<Seq<(ArgV, Type)>>
    decreases a.len(),
{
    if a.len() == 0 {
        Some(Seq::empty())
    } else {
        match (sym_name(syms, a[0].0), spec_def_args(syms, a.subrange(1, a.len() as int))) {
            (Some(n), Some(rest)) => Some(seq![(ArgV::Sym(n), a[0].1)] + rest),
            _ => None,
        }
    }
}

/// The arguments of a call: the instructions that compute each argument, in
/// order, and the operands that hold their values.
pub open spec fn spec_call_args(syms: Seq<Seq<char>>, g: GState, a: Seq<ast::Expr>) -> Result<
    (GState, Seq<KNodeV>, Seq<(ArgV, Type)>),
    IrError,
>
    decreases a.len(),
{
    if a.len() == 0 {
        Ok((g, Seq::empty(), Seq::empty()))
    } else {
        match spec_gen_expr(syms, g, a[0]) {
            Err(e) => Err(e),
            Ok((g1, s1, atom, temp)) => match spec_value_operand(syms, atom, temp) {
                None => Err(IrError::Abort),
                Some(arg) => {
                    let ty = match a[0].ty {
                        Some(t) => t,
                        None => Type::NoType,
                    };
                    match spec_call_args(syms, g1, a.subrange(1, a.len() as int)) {
                        Err(e) => Err(e),
                        Ok((g2, s2, rest)) => Ok((g2, s1 + s2, seq![(arg, ty)] + rest)),
                    }
                },
            },
        }
    }
}

/// A call statement.
pub open spec fn spec_gen_call(syms: Seq<Seq<char>>, g: GState, c: CallV) -> Result<
    (GState, Seq<KNodeV>),
    IrError,
> {
    match sym_name(syms, c.name) {
        None => Err(IrError::Abort),
        Some(name) => {
            let rt = match c.return_ty {
                Some(t) => t,
                None => Type::NoType,
            };
            match c.args {
                None => Ok((g, seq![KNodeV::Call { return_ty: rt, name, args: None }])),
                Some(a) => match spec_call_args(syms, g, a) {
                    Err(e) => Err(e),
                    Ok((g1, sa, args)) => Ok(
                        (g1, sa + seq![KNodeV::Call { return_ty: rt, name, args: Some(args) }]),
                    ),
                },
            }
        },
    }
}

pub open spec fn spec_gen_stmt(syms: Seq<Seq<char>>, g: GState, n: NodeV) -> Result<
    (GState, Seq<KNodeV>),
    IrError,
>
    decreases n,
{
    match n {
        NodeV::VarDecl(d) => spec_gen_decl(syms, g, d),
        NodeV::StmtExit(x) => spec_gen_exit(syms, g, x),
        NodeV::Expr(e) => match spec_gen_expr(syms, g, e) {
            Err(x) => Err(x),
            Ok((g1, s1, _, _)) => Ok((g1, s1)),
        },
        NodeV::StmtIf(x) => spec_gen_if(syms, g, x),
        NodeV::StmtWhile(x) => spec_gen_while(syms, g, x),
        NodeV::StmtFn(f) => match spec_gen_fn(syms, g, f) {
            Err(x) => Err(x),
            Ok(g1) => Ok((g1, Seq::empty())),
        },
        NodeV::Call(c) => spec_gen_call(syms, g, c),
        NodeV::Scope(s) => spec_gen_stmts(syms, g, s.stmts),
        _ => Err(IrError::Abort),
    }
}

pub open spec fn spec_gen_stmts(syms: Seq<Seq<char>>, g: GState, ss: Seq<NodeV>) -> Result<
    (GState, Seq<KNodeV>),
    IrError,
>
    decreases ss,
{
    if ss.len() == 0 {
        Ok((g, Seq::empty()))
    } else {
        match spec_gen_stmt(syms, g, ss[0]) {
            Err(x) => Err(x),
            Ok((g1, s1)) => match spec_gen_stmts(syms, g1, ss.subrange(1, ss.len() as int)) {
                Err(x) => Err(x),
                Ok((g2, s2)) => Ok((g2, s1 + s2)),
            },
        }
    }
}

/// A function definition: a new instruction list, opened by `define`, that
/// joins the finished functions after the ones its body defines.
pub open spec fn spec_gen_fn(syms: Seq<Seq<char>>, g: GState, f: StmtFnV) -> Result<GState, IrError>
    decreases f,
{
    match sym_name(syms, f.name) {
        None => Err(IrError::Abort),
        Some(name) => {
            let args: Option<Option<Seq<(ArgV, Type)>>> = match f.args {
                None => Some(None),
                Some(a) => match spec_def_args(syms, a) {
                    Some(x) => Some(Some(x)),
                    None => None,
                },
            };
            match args {
                None => Err(IrError::Abort),
                Some(args) => match spec_gen_stmts(syms, g, f.body.stmts) {
                    Err(e) => Err(e),
                    Ok((g1, body)) => Ok(
                        GState {
                            fns: g1.fns.push(
                                ProgScopeV {
                                    id: name,
                                    nodes: seq![KNodeV::Define { return_ty: f.return_ty, name, args }]
                                        + body,
                                },
                            ),
                            ..g1
                        },
                    ),
                },
            }
        },
    }
}

/// `while`: a start label, the condition, branches into the body or past it,
/// the body, and a branch back to the start.
pub open spec fn spec_gen_while(syms: Seq<Seq<char>>, g: GState, x: WhileV) -> Result<
    (GState, Seq<KNodeV>),
    IrError,
>
    decreases x,
{
    let start = label_name("START_WHILE_"@, g.labels);
    let lp = label_name("LOOP_WHILE_"@, g.labels);
    let end = label_name("END_WHILE_"@, g.labels);
    match spec_gen_expr(syms, g, x.cond) {
        Err(e) => Err(e),
        Ok((g1, s1, atom, temp)) => {
            if g1.labels == usize::MAX {
                Err(IrError::Abort)
            } else {
                match spec_cond_flag(syms, atom, temp) {
                    None => Err(IrError::Abort),
                    Some(flag) => {
                        let g2 = GState { labels: (g1.labels + 1) as usize, ..g1 };
                        match spec_gen_stmts(syms, g2, x.scope.stmts) {
                            Err(e) => Err(e),
                            Ok((g3, body)) => Ok(
                                (
                                    g3,
                                    seq![KNodeV::Label { name: start }] + s1 + seq![
                                        KNodeV::Br { label: lp, flag: Some(flag) },
                                        KNodeV::Br { label: end, flag: None },
                                        KNodeV::Label { name: lp },
                                    ] + body + seq![
                                        KNodeV::Br { label: start, flag: None },
                                        KNodeV::Label { name: end },
                                    ],
                                ),
                            ),
                        }
                    },
                }
            }
        },
    }
}

/// `if`: the condition, a branch into the body, a branch to the first `elif`
/// (or the `else`, or the end), the body, the `elif` branches, the `else`
/// body and the end label.
pub open spec fn spec_gen_if(syms: Seq<Seq<char>>, g: GState, x: StmtIfV) -> Result<
    (GState, Seq<KNodeV>),
    IrError,
>
    decreases x,
{
    match spec_gen_expr(syms, g, x.cond) {
        Err(e) => Err(e),
        Ok((g1, s1, atom, temp)) => match spec_cond_flag(syms, atom, temp) {
            None => Err(IrError::Abort),
            Some(flag) => {
                if g1.labels == usize::MAX {
                    Err(IrError::Abort)
                } else {
                    let c = g1.labels;
                    let ifb = label_name("LABEL_IF_BODY_"@, c);
                    let init = label_name("LABEL_ELIF_INIT_"@, c);
                    let elseb = label_name("LABEL_ELSE_BODY_"@, c);
                    let endif = label_name("LABEL_ENDIF_"@, c);
                    let g2 = GState { labels: (c + 1) as usize, ..g1 };
                    let head = s1 + seq![
                        KNodeV::Br { label: ifb, flag: Some(flag) },
                        KNodeV::Br {
                            label: if x.elifs.len() > 0 {
                                init
                            } else if x.els is Some {
                                elseb
                            } else {
                                endif
                            },
                            flag: None,
                        },
                        KNodeV::Label { name: ifb },
                    ];
                    match spec_gen_stmts(syms, g2, x.scope.stmts) {
                        Err(e) => Err(e),
                        Ok((g3, body)) => {
                            let s2 = head + body + seq![KNodeV::Br { label: endif, flag: None }] + (
                            if x.elifs.len() > 0 {
                                seq![KNodeV::Label { name: init }]
                            } else {
                                Seq::empty()
                            });
                            match spec_gen_elifs(syms, g3, x.elifs, x.els is Some, elseb, endif) {
                                Err(e) => Err(e),
                                Ok((g4, se)) => {
                                    let s3 = s2 + se + seq![KNodeV::Label { name: elseb }];
                                    let rel: Result<(GState, Seq<KNodeV>), IrError> = match x.els {
                                        Some(e) => spec_gen_stmts(syms, g4, e.scope.stmts),
                                        None => Ok((g4, Seq::empty())),
                                    };
                                    match rel {
                                        Err(e) => Err(e),
                                        Ok((g5, sel)) => Ok(
                                            (
                                                g5,
                                                s3 + sel + seq![
                                                    KNodeV::Br { label: endif, flag: None },
                                                    KNodeV::Label { name: endif },
                                                ],
                                            ),
                                        ),
                                    }
                                },
                            }
                        },
                    }
                }
            },
        },
    }
}

/// The entry function that holds the top-level instructions.
pub open spec fn spec_main_scope(top: Seq<KNodeV>) -> ProgScopeV {
    ProgScopeV {
        id: "main"@,
        nodes: seq![KNodeV::Define { return_ty: Type::Void, name: "main"@, args: None }] + top,
    }
}

/// The generated functions, followed by the entry function when the
/// top-level statements generated any instruction.
pub open spec fn spec_with_main(fns: Seq<ProgScopeV>, top: Seq<KNodeV>) -> Seq<ProgScopeV> {
    if top.len() == 0 {
        fns
    } else {
        fns.push(spec_main_scope(top))
    }
}

/// One present `elif` branch; `more` says whether another present one follows.
pub open spec fn spec_gen_elif(
    syms: Seq<Seq<char>>,
    g: GState,
    e: ElifV,
    more: bool,
    has_else: bool,
    elseb: Seq<char>,
    endif: Seq<char>,
) -> Result<(GState, Seq<KNodeV>), IrError>
    decreases e,
{
    match spec_gen_expr(syms, g, e.cond) {
        Err(x) => Err(x),
        Ok((g1, s1, atom, temp)) => match spec_cond_flag(syms, atom, temp) {
            None => Err(IrError::Abort),
            Some(flag) => {
                if g1.labels == usize::MAX {
                    Err(IrError::Abort)
                } else {
                    let c = g1.labels;
                    let body_l = label_name("LABEL_ELIF_BODY_"@, c);
                    let next_l = label_name("LABEL_ELIF_NEXT_"@, c);
                    let g2 = GState { labels: (c + 1) as usize, ..g1 };
                    match spec_gen_stmts(syms, g2, e.scope.stmts) {
                        Err(x) => Err(x),
                        Ok((g3, body)) => Ok(
                            (
                                g3,
                                s1 + seq![
                                    KNodeV::Br { label: body_l, flag: Some(flag) },
                                    KNodeV::Br {
                                        label: if more {
                                            next_l
                                        } else if has_else {
                                            elseb
                                        } else {
                                            endif
                                        },
                                        flag: None,
                                    },
                                    KNodeV::Label { name: body_l },
                                ] + body + seq![KNodeV::Br { label: endif, flag: None }] + (if more {
                                    seq![KNodeV::Label { name: next_l }]
                                } else {
                                    Seq::empty()
                                }),
                            ),
                        ),
                    }
                }
            },
        },
    }
}

/// The `elif` branches that are present, in order.
pub open spec fn spec_gen_elifs(
    syms: Seq<Seq<char>>,
    g: GState,
    es: Seq<Option<ElifV>>,
    has_else: bool,
    elseb: Seq<char>,
    endif: Seq<char>,
) -> Result<(GState, Seq<KNodeV>), IrError>
    decreases es,
{
    if es.len() == 0 {
        Ok((g, Seq::empty()))
    } else {
        let r1: Result<(GState, Seq<KNodeV>), IrError> = match es[0] {
            None => Ok((g, Seq::empty())),
            Some(e) => spec_gen_elif(syms, g, e, some_after(es), has_else, elseb, endif),
        };
        match r1 {
            Err(x) => Err(x),
            Ok((g1, s1)) => match spec_gen_elifs(
                syms,
                g1,
                es.subrange(1, es.len() as int),
                has_else,
                elseb,
                endif,
            ) {
                Err(x) => Err(x),
                Ok((g2, s2)) => Ok((g2, s1 + s2)),
            },
        }
    }
}

pub open spec fn opt_str_view(o: Option<String>) -> Option<Seq<char>> {
    match o {
        Some(s) => Some(s@),
        None => None,
    }
}

/// `new` is `old` with `seg` appended to its instructions.
pub open spec fn emitted(old: ProgScopeV, new: ProgScopeV, seg: Seq<KNodeV>) -> bool {
    new.id == old.id && new.nodes == old.nodes + seg
}

/// Appends one instruction.
fn emit(outer: &mut ProgScope, n: KlirNode)
    ensures
        emitted(old(outer)@, final(outer)@, seq![n@]),
{
    let ghost old_nodes = outer.ir.nodes@;
    outer.ir.nodes.push(n);
    proof {
        assert(knodes_view(old_nodes.push(n)) =~= knodes_view(old_nodes) + seq![n@]);
    }
}

/// `prefix` followed by the decimal text of `n`.
fn make_name(prefix: &str, n: usize) -> (r: String)
    ensures
        r@ == prefix@ + spec_decimal(n as nat),
{
    let mut r = String::new();
    r.append(prefix);
    push_decimal(&mut r, n as u128);
    r
}

pub open spec fn gen_result(r: Result<(GState, Seq<KNodeV>), IrError>, done: Seq<KNodeV>) -> Result<
    (GState, Seq<KNodeV>),
    IrError,
> {
    match r {
        Ok((g, seg)) => Ok((g, done + seg)),
        Err(e) => Err(e),
    }
}

proof fn lemma_gen_stmts_step(syms: Seq<Seq<char>>, g: GState, ss: Seq<NodeV>, done: Seq<KNodeV>)
    requires
        ss.len() > 0,
        spec_gen_stmt(syms, g, ss[0]) is Ok,
    ensures
        ({
            let (g1, s1) = spec_gen_stmt(syms, g, ss[0])->Ok_0;
            gen_result(spec_gen_stmts(syms, g1, ss.subrange(1, ss.len() as int)), done + s1)
                == gen_result(spec_gen_stmts(syms, g, ss), done)
        }),
{
    let (g1, s1) = spec_gen_stmt(syms, g, ss[0])->Ok_0;
    match spec_gen_stmts(syms, g1, ss.subrange(1, ss.len() as int)) {
        Ok((g2, s2)) => {
            assert(done + s1 + s2 =~= done + (s1 + s2));
        },
        Err(_) => {},
    }
}

pub open spec fn spec_elif_first(
    syms: Seq<Seq<char>>,
    g: GState,
    es: Seq<Option<ElifV>>,
    has_else: bool,
    elseb: Seq<char>,
    endif: Seq<char>,
) -> Result<(GState, Seq<KNodeV>), IrError> {
    match es[0] {
        None => Ok((g, Seq::empty())),
        Some(e) => spec_gen_elif(syms, g, e, some_after(es), has_else, elseb, endif),
    }
}

proof fn lemma_gen_elifs_step(
    syms: Seq<Seq<char>>,
    g: GState,
    es: Seq<Option<ElifV>>,
    has_else: bool,
    elseb: Seq<char>,
    endif: Seq<char>,
    done: Seq<KNodeV>,
)
    requires
        es.len() > 0,
        spec_elif_first(syms, g, es, has_else, elseb, endif) is Ok,
    ensures
        ({
            let (g1, s1) = spec_elif_first(syms, g, es, has_else, elseb, endif)->Ok_0;
            gen_result(
                spec_gen_elifs(syms, g1, es.subrange(1, es.len() as int), has_else, elseb, endif),
                done + s1,
            ) == gen_result(spec_gen_elifs(syms, g, es, has_else, elseb, endif), done)
        }),
{
    let (g1, s1) = spec_elif_first(syms, g, es, has_else, elseb, endif)->Ok_0;
    match spec_gen_elifs(syms, g1, es.subrange(1, es.len() as int), has_else, elseb, endif) {
        Ok((g2, s2)) => {
            assert(done + s1 + s2 =~= done + (s1 + s2));
        },
        Err(_) => {},
    }
}

/// Whether a present entry follows the `i`-th.
fn some_after_from(es: &Vec<Option<ast::StmtElif>>, i: usize) -> (r: bool)
    requires
        i < es@.len(),
    ensures
        r == some_after(elifs_view(es@).subrange(i as int, es@.len() as int)),
{
    let ghost rest = elifs_view(es@).subrange(i as int, es@.len() as int);
    let len = es.len();
    let mut j: usize = i + 1;
    while j < len
        invariant
            i < j <= es@.len(),
            len == es@.len(),
            rest == elifs_view(es@).subrange(i as int, es@.len() as int),
            forall|k: int| 1 <= k < j - i ==> (#[trigger] rest[k]) is None,
        decreases es@.len() - j,
    {
        if es[j].is_some() {
            assert(rest[j - i] is Some);
            return true;
        }
        assert(rest[j - i] is None);
        j = j + 1;
    }
    false
}

/// Generates the intermediate language for a typed program.
pub struct IrGenerator {
    prog: Program,
    _diag: DiagHandler,
    sym: SymbolTable,
    pub ir: KlirBlob,
    pub scopes: Vec<ProgScope>,
    pub target: Target,
    reg_counter: usize,
    label_counter: usize,
}

impl IrGenerator {
    pub closed spec fn gst(&self) -> GState {
        GState { regs: self.reg_counter, labels: self.label_counter, fns: scopes_view(self.scopes@) }
    }

    pub closed spec fn syms(&self) -> Seq<Seq<char>> {
        self.sym@
    }

    pub closed spec fn prog_stmts(&self) -> Seq<NodeV> {
        nodes_view(self.prog.stmts@)
    }

    pub closed spec fn ir_nodes(&self) -> Seq<KNodeV> {
        knodes_view(self.ir.nodes@)
    }

    pub closed spec fn arch(&self) -> Target {
        self.target
    }

    pub fn new(prog: Program, diag: DiagHandler, sym: SymbolTable) -> (r: IrGenerator)
        ensures
            r.gst() == (GState { regs: 0, labels: 0, fns: Seq::empty() }),
            r.syms() == sym@,
            r.prog_stmts() == nodes_view(prog.stmts@),
            r.ir_nodes().len() == 0,
            r.arch() == Target::UnknownArch,
    {
        let scopes: Vec<ProgScope> = Vec::new();
        proof {
            assert(scopes_view(scopes@) =~= Seq::<ProgScopeV>::empty());
        }
        IrGenerator {
            prog,
            _diag: diag,
            sym,
            ir: KlirBlob::new(),
            scopes,
            target: Target::UnknownArch,
            reg_counter: 0,
            label_counter: 0,
        }
    }

    fn sym_text(&self, s: Symbol) -> (r: Option<String>)
        ensures
            opt_str_view(r) == sym_name(self.syms(), s),
    {
        self.sym.get(s)
    }

    fn expr_operand(&self, atom: AtomKind, temp: &Option<String>) -> (r: Option<ArgType>)
        ensures
            match r {
                Some(a) => spec_expr_operand(self.syms(), atom, opt_str_view(*temp)) == Some(a@),
                None => spec_expr_operand(self.syms(), atom, opt_str_view(*temp)) is None,
            },
    {
        match atom {
            AtomKind::Ident(id) => match self.sym_text(id.name) {
                Some(n) => Some(ArgType::Sym(n)),
                None => None,
            },
            AtomKind::IntLit(lit) => Some(ArgType::Imm(lit.val)),
            AtomKind::NoAtom => match temp {
                Some(t) => Some(ArgType::Temp(t.clone())),
                None => None,
            },
        }
    }

    fn value_operand(&self, atom: AtomKind, temp: &Option<String>) -> (r: Option<ArgType>)
        ensures
            match r {
                Some(a) => spec_value_operand(self.syms(), atom, opt_str_view(*temp)) == Some(a@),
                None => spec_value_operand(self.syms(), atom, opt_str_view(*temp)) is None,
            },
    {
        match temp {
            Some(t) => Some(ArgType::Temp(t.clone())),
            None => match atom {
                AtomKind::Ident(id) => match self.sym_text(id.name) {
                    Some(n) => Some(ArgType::Sym(n)),
                    None => None,
                },
                AtomKind::IntLit(lit) => Some(ArgType::Imm(lit.val)),
                AtomKind::NoAtom => None,
            },
        }
    }

    fn cond_flag(&self, atom: AtomKind, temp: Option<String>) -> (r: Option<String>)
        ensures
            opt_str_view(r) == spec_cond_flag(self.syms(), atom, opt_str_view(temp)),
    {
        match temp {
            Some(t) => Some(t),
            None => match atom {
                AtomKind::Ident(id) => self.sym_text(id.name),
                AtomKind::IntLit(lit) => {
                    let mut s = String::new();
                    push_int(&mut s, lit.val);
                    proof {
                        assert(s@ =~= spec_int_text(lit.val as int));
                    }
                    Some(s)
                },
                AtomKind::NoAtom => {
                    proof {
                        reveal_strlit("None");
                    }
                    Some("None".to_owned())
                },
            },
        }
    }

    fn visit_expr(&mut self, expr: &ast::Expr, outer_scp: &mut ProgScope) -> (r: Result<(AtomKind, Option<String>), IrError>)
        ensures
            final(self).syms() == old(self).syms(),
            final(self).prog_stmts() == old(self).prog_stmts(),
            match spec_gen_expr(old(self).syms(), old(self).gst(), *expr) {
                Ok((g, seg, atom, temp)) => r matches Ok((a, t)) && a == atom && opt_str_view(t) == temp
                    && final(self).gst() == g && emitted(old(outer_scp)@, final(outer_scp)@, seg),
                Err(e) => r == Err::<(AtomKind, Option<String>), IrError>(e),
            },
        decreases expr,
    {
        match (&expr.lhs, &expr.rhs) {
            (Some(l), Some(rr)) => {
                let ghost o0 = outer_scp@;
                let ghost r1 = spec_gen_expr(self.syms(), self.gst(), **l);
                let lvalue = match self.visit_expr(&**l, outer_scp) {
                    Ok(v) => v,
                    Err(e) => {
                        return Err(e);
                    },
                };
                let ghost o1 = outer_scp@;
                let ghost r2 = spec_gen_expr(self.syms(), self.gst(), **rr);
                let rvalue = match self.visit_expr(&**rr, outer_scp) {
                    Ok(v) => v,
                    Err(e) => {
                        return Err(e);
                    },
                };
                let ghost o2 = outer_scp@;
                if self.reg_counter == usize::MAX {
                    return Err(IrError::Abort);
                }
                let dest = make_name("t", self.reg_counter);
                proof {
                    reveal_strlit("t");
                }
                self.reg_counter = self.reg_counter + 1;
                let lhs = match self.expr_operand(lvalue.0, &lvalue.1) {
                    Some(a) => a,
                    None => {
                        return Err(IrError::Abort);
                    },
                };
                let rhs = match self.expr_operand(rvalue.0, &rvalue.1) {
                    Some(a) => a,
                    None => {
                        return Err(IrError::Abort);
                    },
                };
                let ty = match expr.ty {
                    Some(t) => t,
                    None => {
                        return Err(IrError::Abort);
                    },
                };
                let op = if matches!(expr.op, Op::Lsr) && ty.is_signed() {
                    Op::Asr
                } else {
                    expr.op
                };
                let node = KlirNode::Expr(Expr { ty, lhs, rhs, op, dest: dest.clone() });
                let ghost nv = node@;
                emit(outer_scp, node);
                proof {
                    assert(outer_scp@.nodes =~= o0.nodes + (r1->Ok_0.1 + r2->Ok_0.1 + seq![nv]));
                }
                Ok((expr.atom, Some(dest)))
            },
            _ => {
                proof {
                    assert(outer_scp@.nodes =~= outer_scp@.nodes + Seq::<KNodeV>::empty());
                }
                Ok((expr.atom, None))
            },
        }
    }
    fn visit_decl(&mut self, decl: &ast::VarDecl, outer_scp: &mut ProgScope) -> (r: Result<(), IrError>)
        ensures
            final(self).syms() == old(self).syms(),
            final(self).prog_stmts() == old(self).prog_stmts(),
            match spec_gen_decl(old(self).syms(), old(self).gst(), *decl) {
                Ok((g, seg)) => r is Ok && final(self).gst() == g && emitted(old(outer_scp)@, final(outer_scp)@, seg),
                Err(e) => r == Err::<(), IrError>(e),
            },
    {
        let ghost o0 = outer_scp@;
        let ghost r1 = spec_gen_expr(self.syms(), self.gst(), *decl.value);
        let (atom, temp) = match self.visit_expr(&*decl.value, outer_scp) {
            Ok(v) => v,
            Err(e) => {
                return Err(e);
            },
        };
        let ty = match decl.ty {
            Some(t) => t,
            None => {
                return Err(IrError::Abort);
            },
        };
        let name = match self.sym_text(decl.id.name) {
            Some(n) => n,
            None => {
                return Err(IrError::Abort);
            },
        };
        let src = match self.value_operand(atom, &temp) {
            Some(a) => a,
            None => {
                return Err(IrError::Abort);
            },
        };
        let n1 = KlirNode::Alloca(Alloca { ty, dest: name.clone() });
        let n2 = KlirNode::Store(Store { ty, src, dest: name });
        let ghost v1 = n1@;
        let ghost v2 = n2@;
        emit(outer_scp, n1);
        emit(outer_scp, n2);
        proof {
            assert(outer_scp@.nodes =~= o0.nodes + (r1->Ok_0.1 + seq![v1, v2]));
        }
        Ok(())
    }

    fn visit_stmt_exit(&mut self, enode: &ast::StmtExit, outer_scp: &mut ProgScope) -> (r: Result<(), IrError>)
        ensures
            final(self).syms() == old(self).syms(),
            final(self).prog_stmts() == old(self).prog_stmts(),
            match spec_gen_exit(old(self).syms(), old(self).gst(), *enode) {
                Ok((g, seg)) => r is Ok && final(self).gst() == g && emitted(old(outer_scp)@, final(outer_scp)@, seg),
                Err(e) => r == Err::<(), IrError>(e),
            },
    {
        let ghost o0 = outer_scp@;
        let ghost r1 = spec_gen_expr(self.syms(), self.gst(), *enode.exit_code);
        let (atom, temp) = match self.visit_expr(&*enode.exit_code, outer_scp) {
            Ok(v) => v,
            Err(e) => {
                return Err(e);
            },
        };
        let ty = match enode.exit_code.ty {
            Some(t) => t,
            None => {
                return Err(IrError::Abort);
            },
        };
        let arg = match self.value_operand(atom, &temp) {
            Some(a) => a,
            None => {
                return Err(IrError::Abort);
            },
        };
        let mut args: Vec<(ArgType, Type)> = Vec::new();
        args.push((arg, ty));
        proof {
            reveal_strlit("_exit");
            assert(args_view(args@) =~= seq![(args@[0].0@, ty)]);
        }
        let n1 = KlirNode::Call(Call { return_ty: Type::Void, name: "_exit".to_owned(), args: Some(args) });
        let ghost v1 = n1@;
        emit(outer_scp, n1);
        proof {
            assert(outer_scp@.nodes =~= o0.nodes + (r1->Ok_0.1 + seq![v1]));
        }
        Ok(())
    }

    /// The operands of a call's arguments, from the `i`-th on.
    fn visit_call_args(&mut self, a: &Vec<ast::Expr>, i: usize, outer_scp: &mut ProgScope) -> (r: Result<Vec<(ArgType, Type)>, IrError>)
        requires
            i <= a@.len(),
        ensures
            final(self).syms() == old(self).syms(),
            final(self).prog_stmts() == old(self).prog_stmts(),
            match spec_call_args(old(self).syms(), old(self).gst(), a@.subrange(i as int, a@.len() as int)) {
                Ok((g, seg, args)) => r matches Ok(v) && args_view(v@) == args && final(self).gst() == g
                    && emitted(old(outer_scp)@, final(outer_scp)@, seg),
                Err(e) => r == Err::<Vec<(ArgType, Type)>, IrError>(e),
            },
        decreases a@.len() - i,
    {
        let ghost rest = a@.subrange(i as int, a@.len() as int);
        let ghost o0 = outer_scp@;
        if i == a.len() {
            let v: Vec<(ArgType, Type)> = Vec::new();
            proof {
                assert(args_view(v@) =~= Seq::<(ArgV, Type)>::empty());
                assert(outer_scp@.nodes =~= o0.nodes + Seq::<KNodeV>::empty());
            }
            return Ok(v);
        }
        assert(rest[0] == a@[i as int]);
        assert(rest.subrange(1, rest.len() as int) =~= a@.subrange(i + 1, a@.len() as int));
        let (atom, temp) = match self.visit_expr(&a[i], outer_scp) {
            Ok(v) => v,
            Err(e) => {
                return Err(e);
            },
        };
        let arg = match self.value_operand(atom, &temp) {
            Some(x) => x,
            None => {
                return Err(IrError::Abort);
            },
        };
        let ty = match a[i].ty {
            Some(t) => t,
            None => Type::NoType,
        };
        let mut tail = match self.visit_call_args(a, i + 1, outer_scp) {
            Ok(v) => v,
            Err(e) => {
                return Err(e);
            },
        };
        let ghost tv = tail@;
        tail.insert(0, (arg, ty));
        proof {
            assert(args_view(tail@) =~= seq![(tail@[0].0@, ty)] + args_view(tv));
            let s1 = spec_gen_expr(old(self).syms(), old(self).gst(), a@[i as int])->Ok_0.1;
            let g1 = spec_gen_expr(old(self).syms(), old(self).gst(), a@[i as int])->Ok_0.0;
            let s2 = spec_call_args(old(self).syms(), g1, a@.subrange(i + 1, a@.len() as int))->Ok_0.1;
            assert(outer_scp@.nodes =~= o0.nodes + (s1 + s2));
        }
        Ok(tail)
    }

    fn visit_fn_call(&mut self, call: &ast::Call, outer_scp: &mut ProgScope) -> (r: Result<(), IrError>)
        ensures
            final(self).syms() == old(self).syms(),
            final(self).prog_stmts() == old(self).prog_stmts(),
            match spec_gen_call(old(self).syms(), old(self).gst(), ast::call_view(*call)) {
                Ok((g, seg)) => r is Ok && final(self).gst() == g && emitted(old(outer_scp)@, final(outer_scp)@, seg),
                Err(e) => r == Err::<(), IrError>(e),
            },
    {
        let name = match self.sym_text(call.name) {
            Some(n) => n,
            None => {
                return Err(IrError::Abort);
            },
        };
        let ghost o0 = outer_scp@;
        let ghost mut sa: Seq<KNodeV> = Seq::empty();
        let rt = match call.return_ty {
            Some(t) => t,
            None => Type::NoType,
        };
        let args = match &call.args {
            Some(call_args) => {
                proof {
                    assert(call_args@.subrange(0, call_args@.len() as int) =~= call_args@);
                }
                match self.visit_call_args(call_args, 0, outer_scp) {
                    Ok(v) => {
                        proof {
                            sa = spec_call_args(old(self).syms(), old(self).gst(), call_args@)->Ok_0.1;
                        }
                        Some(v)
                    },
                    Err(e) => {
                        return Err(e);
                    },
                }
            },
            None => None,
        };
        let ghost o1 = outer_scp@;
        let n1 = KlirNode::Call(Call { return_ty: rt, name, args });
        let ghost v1 = n1@;
        emit(outer_scp, n1);
        proof {
            assert(o1.nodes =~= o0.nodes + sa);
            assert(outer_scp@.nodes =~= o0.nodes + (sa + seq![v1]));
        }
        Ok(())
    }
    /// The parameters of a definition from the `i`-th on.
    fn def_args(&self, a: &Vec<(Symbol, Type)>, i: usize) -> (r: Option<Vec<(ArgType, Type)>>)
        requires
            i <= a@.len(),
        ensures
            match r {
                Some(v) => spec_def_args(self.syms(), a@.subrange(i as int, a@.len() as int)) == Some(args_view(v@)),
                None => spec_def_args(self.syms(), a@.subrange(i as int, a@.len() as int)) is None,
            },
        decreases a@.len() - i,
    {
        let ghost rest = a@.subrange(i as int, a@.len() as int);
        if i == a.len() {
            let v: Vec<(ArgType, Type)> = Vec::new();
            proof {
                assert(args_view(v@) =~= Seq::<(ArgV, Type)>::empty());
            }
            return Some(v);
        }
        assert(rest[0] == a@[i as int]);
        assert(rest.subrange(1, rest.len() as int) =~= a@.subrange(i + 1, a@.len() as int));
        let (sym, ty) = a[i];
        let n = match self.sym_text(sym) {
            Some(n) => n,
            None => {
                return None;
            },
        };
        let mut tail = match self.def_args(a, i + 1) {
            Some(v) => v,
            None => {
                return None;
            },
        };
        let ghost tv = tail@;
        tail.insert(0, (ArgType::Sym(n), ty));
        proof {
            assert(args_view(tail@) =~= seq![(tail@[0].0@, ty)] + args_view(tv));
        }
        Some(tail)
    }

    fn visit_stmt(&mut self, stmt: &UnionNode, outer_scp: &mut ProgScope) -> (r: Result<(), IrError>)
        ensures
            final(self).syms() == old(self).syms(),
            final(self).prog_stmts() == old(self).prog_stmts(),
            match spec_gen_stmt(old(self).syms(), old(self).gst(), node_view(*stmt)) {
                Ok((g, seg)) => r is Ok && final(self).gst() == g && emitted(old(outer_scp)@, final(outer_scp)@, seg),
                Err(e) => r == Err::<(), IrError>(e),
            },
        decreases stmt,
    {
        match stmt {
            UnionNode::VarDecl(decl) => self.visit_decl(&**decl, outer_scp),
            UnionNode::StmtExit(enode) => self.visit_stmt_exit(enode, outer_scp),
            UnionNode::Expr(expr) => match self.visit_expr(&**expr, outer_scp) {
                Ok(_) => Ok(()),
                Err(e) => Err(e),
            },
            UnionNode::StmtIf(stmt_if) => self.visit_stmt_if(stmt_if, outer_scp),
            UnionNode::StmtWhile(stmt_while) => self.visit_stmt_while(stmt_while, outer_scp),
            UnionNode::StmtFn(stmt_fn) => {
                let fn_scope = match self.visit_stmt_fn(stmt_fn) {
                    Ok(f) => f,
                    Err(e) => {
                        return Err(e);
                    },
                };
                let ghost before = self.scopes@;
                self.scopes.push(fn_scope);
                proof {
                    assert(scopes_view(before.push(fn_scope)) =~= scopes_view(before).push(fn_scope@));
                    assert(outer_scp@.nodes =~= outer_scp@.nodes + Seq::<KNodeV>::empty());
                }
                Ok(())
            },
            UnionNode::Call(call) => self.visit_fn_call(call, outer_scp),
            UnionNode::Scope(scp) => self.visit_scope(&scp.stmts, outer_scp),
            _ => Err(IrError::Abort),
        }
    }

    /// The statements of a block, in order, into the same instruction list.
    fn visit_scope(&mut self, stmts: &Vec<UnionNode>, outer_scp: &mut ProgScope) -> (r: Result<(), IrError>)
        ensures
            final(self).syms() == old(self).syms(),
            final(self).prog_stmts() == old(self).prog_stmts(),
            match spec_gen_stmts(old(self).syms(), old(self).gst(), nodes_view(stmts@)) {
                Ok((g, seg)) => r is Ok && final(self).gst() == g && emitted(old(outer_scp)@, final(outer_scp)@, seg),
                Err(e) => r == Err::<(), IrError>(e),
            },
        decreases stmts,
    {
        let ghost ov = nodes_view(stmts@);
        let ghost n = stmts@.len();
        let ghost o0 = outer_scp@;
        let ghost goal = spec_gen_stmts(self.syms(), self.gst(), ov);
        let ghost mut done: Seq<KNodeV> = Seq::empty();
        let mut i: usize = 0;
        proof {
            assert(ov.subrange(0, n as int) =~= ov);
            assert(o0.nodes =~= o0.nodes + done);
            match goal {
                Ok((g, seg)) => {
                    assert(Seq::<KNodeV>::empty() + seg =~= seg);
                },
                Err(_) => {},
            }
        }
        while i < stmts.len()
            invariant
                i <= n,
                n == stmts@.len(),
                ov == nodes_view(stmts@),
                self.syms() == old(self).syms(),
                self.prog_stmts() == old(self).prog_stmts(),
                goal == spec_gen_stmts(old(self).syms(), old(self).gst(), ov),
                o0 == old(outer_scp)@,
                outer_scp@.id == o0.id,
                outer_scp@.nodes == o0.nodes + done,
                gen_result(spec_gen_stmts(self.syms(), self.gst(), ov.subrange(i as int, n as int)), done)
                    == gen_result(goal, Seq::empty()),
            decreases n - i,
        {
            let ghost rest = ov.subrange(i as int, n as int);
            let ghost g0 = self.gst();
            proof {
                assert(decreases_to!(stmts => stmts@));
                assert(decreases_to!(stmts@ => stmts@[i as int]));
                assert(rest[0] == node_view(stmts@[i as int]));
                assert(rest.subrange(1, rest.len() as int) =~= ov.subrange(i + 1, n as int));
            }
            match self.visit_stmt(&stmts[i], outer_scp) {
                Ok(()) => {
                    proof {
                        let seg = spec_gen_stmt(self.syms(), g0, rest[0])->Ok_0.1;
                        lemma_gen_stmts_step(self.syms(), g0, rest, done);
                        done = done + seg;
                        assert(outer_scp@.nodes =~= o0.nodes + done);
                    }
                },
                Err(e) => {
                    return Err(e);
                },
            }
            i = i + 1;
        }
        proof {
            assert(ov.subrange(n as int, n as int) =~= Seq::<NodeV>::empty());
            match goal {
                Ok((g, seg)) => {
                    assert(Seq::<KNodeV>::empty() + seg =~= seg);
                    assert(done + Seq::<KNodeV>::empty() =~= done);
                },
                Err(_) => {},
            }
        }
        Ok(())
    }

    fn visit_stmt_fn(&mut self, stmt_fn: &ast::StmtFn) -> (r: Result<ProgScope, IrError>)
        ensures
            final(self).syms() == old(self).syms(),
            final(self).prog_stmts() == old(self).prog_stmts(),
            match spec_gen_fn(old(self).syms(), old(self).gst(), fn_view(*stmt_fn)) {
                Ok(g) => r matches Ok(f) && (GState { fns: final(self).gst().fns.push(f@), ..final(self).gst() }) == g,
                Err(e) => r == Err::<ProgScope, IrError>(e),
            },
        decreases stmt_fn,
    {
        let name = match self.sym_text(stmt_fn.name) {
            Some(n) => n,
            None => {
                return Err(IrError::Abort);
            },
        };
        let args = match &stmt_fn.args {
            Some(a) => {
                proof {
                    assert(a@.subrange(0, a@.len() as int) =~= a@);
                }
                match self.def_args(a, 0) {
                    Some(v) => Some(v),
                    None => {
                        return Err(IrError::Abort);
                    },
                }
            },
            None => None,
        };
        let mut fn_scope = ProgScope { id: name.clone(), ir: KlirBlob::new() };
        proof {
            assert(knodes_view(fn_scope.ir.nodes@) =~= Seq::<KNodeV>::empty());
        }
        emit(&mut fn_scope, KlirNode::Define(Define { return_ty: stmt_fn.return_ty, name, args }));
        match self.visit_scope(&stmt_fn.body.stmts, &mut fn_scope) {
            Ok(()) => Ok(fn_scope),
            Err(e) => Err(e),
        }
    }

    fn visit_stmt_while(&mut self, stmt_while: &ast::StmtWhile, outer_scp: &mut ProgScope) -> (r: Result<(), IrError>)
        ensures
            final(self).syms() == old(self).syms(),
            final(self).prog_stmts() == old(self).prog_stmts(),
            match spec_gen_while(old(self).syms(), old(self).gst(), while_view(*stmt_while)) {
                Ok((g, seg)) => r is Ok && final(self).gst() == g && emitted(old(outer_scp)@, final(outer_scp)@, seg),
                Err(e) => r == Err::<(), IrError>(e),
            },
        decreases stmt_while,
    {
        let ghost o0 = outer_scp@;
        let c = self.label_counter;
        let start = make_name("START_WHILE_", c);
        let lp = make_name("LOOP_WHILE_", c);
        let end = make_name("END_WHILE_", c);
        let n0 = KlirNode::Label(Label { name: start.clone() });
        let ghost v0 = n0@;
        emit(outer_scp, n0);
        let ghost o1 = outer_scp@;
        let ghost r1 = spec_gen_expr(self.syms(), self.gst(), stmt_while.cond);
        let (atom, temp) = match self.visit_expr(&stmt_while.cond, outer_scp) {
            Ok(v) => v,
            Err(e) => {
                return Err(e);
            },
        };
        if self.label_counter == usize::MAX {
            return Err(IrError::Abort);
        }
        self.label_counter = self.label_counter + 1;
        let flag = match self.cond_flag(atom, temp) {
            Some(f) => f,
            None => {
                return Err(IrError::Abort);
            },
        };
        let n1 = KlirNode::Br(Br { label: lp.clone(), flag: Some(flag) });
        let n2 = KlirNode::Br(Br { label: end.clone(), flag: None });
        let n3 = KlirNode::Label(Label { name: lp });
        let ghost (v1, v2, v3) = (n1@, n2@, n3@);
        emit(outer_scp, n1);
        emit(outer_scp, n2);
        emit(outer_scp, n3);
        let ghost o2 = outer_scp@;
        let ghost r2 = spec_gen_stmts(self.syms(), self.gst(), nodes_view(stmt_while.scope.stmts@));
        match self.visit_scope(&stmt_while.scope.stmts, outer_scp) {
            Ok(()) => {},
            Err(e) => {
                return Err(e);
            },
        }
        let n4 = KlirNode::Br(Br { label: start, flag: None });
        let n5 = KlirNode::Label(Label { name: end });
        let ghost (v4, v5) = (n4@, n5@);
        emit(outer_scp, n4);
        emit(outer_scp, n5);
        proof {
            reveal_strlit("START_WHILE_");
            reveal_strlit("LOOP_WHILE_");
            reveal_strlit("END_WHILE_");
            assert(outer_scp@.nodes =~= o0.nodes + (seq![v0] + r1->Ok_0.1 + seq![v1, v2, v3] + r2->Ok_0.1
                + seq![v4, v5]));
        }
        Ok(())
    }
    #[verifier::spinoff_prover]
    #[verifier::rlimit(80)]
    fn visit_stmt_if(&mut self, stmt_if: &ast::StmtIf, outer_scp: &mut ProgScope) -> (r: Result<(), IrError>)
        ensures
            final(self).syms() == old(self).syms(),
            final(self).prog_stmts() == old(self).prog_stmts(),
            match spec_gen_if(old(self).syms(), old(self).gst(), if_view(*stmt_if)) {
                Ok((g, seg)) => r is Ok && final(self).gst() == g && emitted(old(outer_scp)@, final(outer_scp)@, seg),
                Err(e) => r == Err::<(), IrError>(e),
            },
        decreases stmt_if,
    {
        let ghost o0 = outer_scp@;
        let ghost r1 = spec_gen_expr(self.syms(), self.gst(), stmt_if.cond);
        let (atom, temp) = match self.visit_expr(&stmt_if.cond, outer_scp) {
            Ok(v) => v,
            Err(e) => {
                return Err(e);
            },
        };
        let flag = match self.cond_flag(atom, temp) {
            Some(f) => f,
            None => {
                return Err(IrError::Abort);
            },
        };
        if self.label_counter == usize::MAX {
            return Err(IrError::Abort);
        }
        let c = self.label_counter;
        let if_body_label = make_name("LABEL_IF_BODY_", c);
        let init_elif_body_label = make_name("LABEL_ELIF_INIT_", c);
        let else_body_label = make_name("LABEL_ELSE_BODY_", c);
        let endif_label = make_name("LABEL_ENDIF_", c);
        proof {
            reveal_strlit("LABEL_IF_BODY_");
            reveal_strlit("LABEL_ELIF_INIT_");
            reveal_strlit("LABEL_ELSE_BODY_");
            reveal_strlit("LABEL_ENDIF_");
        }
        self.label_counter = self.label_counter + 1;
        let second = if stmt_if._elif.len() > 0 {
            init_elif_body_label.clone()
        } else if stmt_if._else.is_some() {
            else_body_label.clone()
        } else {
            endif_label.clone()
        };
        let n1 = KlirNode::Br(Br { label: if_body_label.clone(), flag: Some(flag) });
        let n2 = KlirNode::Br(Br { label: second, flag: None });
        let n3 = KlirNode::Label(Label { name: if_body_label });
        let ghost (v1, v2, v3) = (n1@, n2@, n3@);
        emit(outer_scp, n1);
        emit(outer_scp, n2);
        emit(outer_scp, n3);
        let ghost r2 = spec_gen_stmts(self.syms(), self.gst(), nodes_view(stmt_if.scope.stmts@));
        match self.visit_scope(&stmt_if.scope.stmts, outer_scp) {
            Ok(()) => {},
            Err(e) => {
                return Err(e);
            },
        }
        let n4 = KlirNode::Br(Br { label: endif_label.clone(), flag: None });
        let ghost v4 = n4@;
        emit(outer_scp, n4);
        let ghost mut part: Seq<KNodeV> = r1->Ok_0.1 + seq![v1, v2, v3] + r2->Ok_0.1 + seq![v4];
        if stmt_if._elif.len() > 0 {
            let n5 = KlirNode::Label(Label { name: init_elif_body_label });
            let ghost v5 = n5@;
            emit(outer_scp, n5);
            proof {
                part = part + seq![v5];
            }
        } else {
            proof {
                part = part + Seq::<KNodeV>::empty();
            }
        }
        proof {
            assert(outer_scp@.nodes =~= o0.nodes + part);
        }
        let ghost r3 = spec_gen_elifs(
            self.syms(),
            self.gst(),
            elifs_view(stmt_if._elif@),
            stmt_if._else is Some,
            else_body_label@,
            endif_label@,
        );
        match self.visit_elifs(&stmt_if._elif, stmt_if._else.is_some(), &else_body_label, &endif_label, outer_scp) {
            Ok(()) => {},
            Err(e) => {
                return Err(e);
            },
        }
        let n6 = KlirNode::Label(Label { name: else_body_label });
        let ghost v6 = n6@;
        emit(outer_scp, n6);
        let ghost mut part2: Seq<KNodeV> = part + r3->Ok_0.1 + seq![v6];
        proof {
            assert(outer_scp@.nodes =~= o0.nodes + part2);
        }
        match &stmt_if._else {
            Some(maybeelse) => {
                let ghost r4 = spec_gen_stmts(self.syms(), self.gst(), nodes_view(maybeelse.scope.stmts@));
                match self.visit_scope(&maybeelse.scope.stmts, outer_scp) {
                    Ok(()) => {},
                    Err(e) => {
                        return Err(e);
                    },
                }
                proof {
                    part2 = part2 + r4->Ok_0.1;
                    assert(outer_scp@.nodes =~= o0.nodes + part2);
                }
            },
            None => {
                proof {
                    part2 = part2 + Seq::<KNodeV>::empty();
                    assert(outer_scp@.nodes =~= o0.nodes + part2);
                }
            },
        }
        let n7 = KlirNode::Br(Br { label: endif_label.clone(), flag: None });
        let n8 = KlirNode::Label(Label { name: endif_label });
        let ghost (v7, v8) = (n7@, n8@);
        emit(outer_scp, n7);
        emit(outer_scp, n8);
        proof {
            assert(outer_scp@.nodes =~= o0.nodes + (part2 + seq![v7, v8]));
        }
        Ok(())
    }

    #[verifier::spinoff_prover]
    #[verifier::rlimit(40)]
    fn visit_elifs(
        &mut self,
        es: &Vec<Option<ast::StmtElif>>,
        has_else: bool,
        elseb: &String,
        endif: &String,
        outer_scp: &mut ProgScope,
    ) -> (r: Result<(), IrError>)
        ensures
            final(self).syms() == old(self).syms(),
            final(self).prog_stmts() == old(self).prog_stmts(),
            match spec_gen_elifs(old(self).syms(), old(self).gst(), elifs_view(es@), has_else, elseb@, endif@) {
                Ok((g, seg)) => r is Ok && final(self).gst() == g && emitted(old(outer_scp)@, final(outer_scp)@, seg),
                Err(e) => r == Err::<(), IrError>(e),
            },
        decreases es,
    {
        let ghost ov = elifs_view(es@);
        let ghost n = es@.len();
        let ghost o0 = outer_scp@;
        let ghost goal = spec_gen_elifs(self.syms(), self.gst(), ov, has_else, elseb@, endif@);
        let ghost mut done: Seq<KNodeV> = Seq::empty();
        let mut i: usize = 0;
        proof {
            assert(ov.subrange(0, n as int) =~= ov);
            assert(o0.nodes =~= o0.nodes + done);
            match goal {
                Ok((g, seg)) => {
                    assert(Seq::<KNodeV>::empty() + seg =~= seg);
                },
                Err(_) => {},
            }
        }
        while i < es.len()
            invariant
                i <= n,
                n == es@.len(),
                ov == elifs_view(es@),
                self.syms() == old(self).syms(),
                self.prog_stmts() == old(self).prog_stmts(),
                goal == spec_gen_elifs(old(self).syms(), old(self).gst(), ov, has_else, elseb@, endif@),
                o0 == old(outer_scp)@,
                outer_scp@.id == o0.id,
                outer_scp@.nodes == o0.nodes + done,
                gen_result(
                    spec_gen_elifs(self.syms(), self.gst(), ov.subrange(i as int, n as int), has_else, elseb@, endif@),
                    done,
                ) == gen_result(goal, Seq::empty()),
            decreases n - i,
        {
            let ghost rest = ov.subrange(i as int, n as int);
            let ghost g0 = self.gst();
            proof {
                assert(rest[0] == ov[i as int]);
                assert(rest.subrange(1, rest.len() as int) =~= ov.subrange(i + 1, n as int));
            }
            match &es[i] {
                None => {
                    proof {
                        lemma_gen_elifs_step(self.syms(), g0, rest, has_else, elseb@, endif@, done);
                        done = done + Seq::<KNodeV>::empty();
                        assert(outer_scp@.nodes =~= o0.nodes + done);
                    }
                },
                Some(e) => {
                    let more = some_after_from(es, i);
                    proof {
                        assert(decreases_to!(es => es@));
                        assert(decreases_to!(es@ => es@[i as int]));
                        assert(decreases_to!(es@[i as int] => es@[i as int]->Some_0));
                    }
                    match self.visit_elif(e, more, has_else, elseb, endif, outer_scp) {
                        Ok(()) => {
                            proof {
                                let seg = spec_elif_first(self.syms(), g0, rest, has_else, elseb@, endif@)->Ok_0.1;
                                lemma_gen_elifs_step(self.syms(), g0, rest, has_else, elseb@, endif@, done);
                                done = done + seg;
                                assert(outer_scp@.nodes =~= o0.nodes + done);
                            }
                        },
                        Err(x) => {
                            return Err(x);
                        },
                    }
                },
            }
            i = i + 1;
        }
        proof {
            assert(ov.subrange(n as int, n as int) =~= Seq::<Option<ElifV>>::empty());
            match goal {
                Ok((g, seg)) => {
                    assert(Seq::<KNodeV>::empty() + seg =~= seg);
                    assert(done + Seq::<KNodeV>::empty() =~= done);
                },
                Err(_) => {},
            }
        }
        Ok(())
    }

    #[verifier::spinoff_prover]
    #[verifier::rlimit(80)]
    fn visit_elif(
        &mut self,
        elif: &ast::StmtElif,
        more: bool,
        has_else: bool,
        elseb: &String,
        endif: &String,
        outer_scp: &mut ProgScope,
    ) -> (r: Result<(), IrError>)
        ensures
            final(self).syms() == old(self).syms(),
            final(self).prog_stmts() == old(self).prog_stmts(),
            match spec_gen_elif(old(self).syms(), old(self).gst(), ast::elif_view(*elif), more, has_else, elseb@, endif@) {
                Ok((g, seg)) => r is Ok && final(self).gst() == g && emitted(old(outer_scp)@, final(outer_scp)@, seg),
                Err(e) => r == Err::<(), IrError>(e),
            },
        decreases elif,
    {
        let ghost o0 = outer_scp@;
        let ghost r1 = spec_gen_expr(self.syms(), self.gst(), elif.cond);
        let (atom, temp) = match self.visit_expr(&elif.cond, outer_scp) {
            Ok(v) => v,
            Err(e) => {
                return Err(e);
            },
        };
        let flag = match self.cond_flag(atom, temp) {
            Some(f) => f,
            None => {
                return Err(IrError::Abort);
            },
        };
        if self.label_counter == usize::MAX {
            return Err(IrError::Abort);
        }
        let elif_body_label = make_name("LABEL_ELIF_BODY_", self.label_counter);
        let next_elif_body_label = make_name("LABEL_ELIF_NEXT_", self.label_counter);
        self.label_counter = self.label_counter + 1;
        proof {
            reveal_strlit("LABEL_ELIF_BODY_");
            reveal_strlit("LABEL_ELIF_NEXT_");
        }
        let fallback = if more {
            next_elif_body_label.clone()
        } else if has_else {
            elseb.clone()
        } else {
            endif.clone()
        };
        let n1 = KlirNode::Br(Br { label: elif_body_label.clone(), flag: Some(flag) });
        let n2 = KlirNode::Br(Br { label: fallback, flag: None });
        let n3 = KlirNode::Label(Label { name: elif_body_label });
        let ghost (v1, v2, v3) = (n1@, n2@, n3@);
        emit(outer_scp, n1);
        emit(outer_scp, n2);
        emit(outer_scp, n3);
        let ghost r2 = spec_gen_stmts(self.syms(), self.gst(), nodes_view(elif.scope.stmts@));
        match self.visit_scope(&elif.scope.stmts, outer_scp) {
            Ok(()) => {},
            Err(e) => {
                return Err(e);
            },
        }
        let n4 = KlirNode::Br(Br { label: endif.clone(), flag: None });
        let ghost v4 = n4@;
        emit(outer_scp, n4);
        let ghost mut part: Seq<KNodeV> = r1->Ok_0.1 + seq![v1, v2, v3] + r2->Ok_0.1 + seq![v4];
        if more {
            let n5 = KlirNode::Label(Label { name: next_elif_body_label });
            let ghost v5 = n5@;
            emit(outer_scp, n5);
            proof {
                part = part + seq![v5];
            }
        } else {
            proof {
                part = part + Seq::<KNodeV>::empty();
            }
        }
        proof {
            assert(outer_scp@.nodes =~= o0.nodes + part);
        }
        Ok(())
    }
    /// Generates the program for the target named by `arch`: each function
    /// body becomes a scope of its own, in the order they end, and the
    /// top-level statements, when they generate any instruction, become the
    /// body of the entry function `main`, after the functions.
    pub fn emit_klir(&mut self, arch: &str) -> (r: Result<(), IrError>)
        ensures
            final(self).syms() == old(self).syms(),
            r is Ok ==> final(self).arch() == spec_target_of(arch@),
            r is Ok ==> final(self).ir_nodes().len() == 0,
            match spec_gen_stmts(old(self).syms(), old(self).gst(), old(self).prog_stmts()) {
                Ok((g, top)) => r is Ok && final(self).gst() == (GState { fns: spec_with_main(g.fns, top), ..g })
                    && final(self).prog_stmts() == old(self).prog_stmts(),
                Err(e) => r == Err::<(), IrError>(e),
            },
    {
        let mut stmts: Vec<UnionNode> = Vec::new();
        std::mem::swap(&mut stmts, &mut self.prog.stmts);
        let mut top = ProgScope::new();
        let ghost t0 = top@;
        match self.visit_scope(&stmts, &mut top) {
            Ok(()) => {
                self.prog.stmts = stmts;
                self.ir = KlirBlob::new();
                proof {
                    assert(knodes_view(self.ir.nodes@) =~= Seq::<KNodeV>::empty());
                    assert(top@.nodes =~= t0.nodes + top@.nodes);
                }
                if top.ir.nodes.len() > 0 {
                    let ghost tv = top@.nodes;
                    let ghost raw = top.ir.nodes@;
                    let d = KlirNode::Define(Define { return_ty: Type::Void, name: "main".to_owned(), args: None });
                    let ghost dv = d@;
                    let mut nodes: Vec<KlirNode> = Vec::new();
                    nodes.push(d);
                    let ghost n0 = nodes@;
                    nodes.append(&mut top.ir.nodes);
                    let main = ProgScope { id: "main".to_owned(), ir: KlirBlob { nodes } };
                    let ghost s0 = self.scopes@;
                    let ghost mv = main@;
                    self.scopes.push(main);
                    proof {
                        reveal_strlit("main");
                        assert(knodes_view(n0 + raw) =~= seq![dv] + tv);
                        assert(mv == spec_main_scope(tv));
                        assert(scopes_view(s0.push(main)) =~= scopes_view(s0).push(mv));
                    }
                } else {
                    proof {
                        assert(top@.nodes.len() == 0);
                    }
                }
                self.target = Target::from(arch);
                Ok(())
            },
            Err(e) => Err(e),
        }
    }

    /// The function bodies generated so far.
    pub fn into_scopes(self) -> (r: Vec<ProgScope>)
        ensures
            scopes_view(r@) == self.gst().fns,
    {
        self.scopes
    }
}

} // verus!
