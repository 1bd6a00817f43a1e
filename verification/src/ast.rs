use std::rc::Rc;
use vstd::prelude::*;

use crate::lexer::{LocData, Op, Symbol, SymbolTable, TokenType};

verus! {

/// How a variable was declared.
#[derive(Debug, Clone, Copy, PartialEq, Eq, Structural)]
pub enum VarType {
    Let,
    Mut,
}

impl VarType {
    /// The keyword of the declaration kind (its `Display` text).
    pub fn name(&self) -> (r: &'static str)
        ensures
            r@ == (match *self {
                VarType::Let => "let"@,
                VarType::Mut => "mut"@,
            }),
    {
        match *self {
            VarType::Let => "let",
            VarType::Mut => "mut",
        }
    }
}

/// The types of the language.
#[derive(Debug, Clone, Copy, PartialEq, Eq, PartialOrd, Ord, Structural)]
pub enum Type {
    NoType,
    I8,
    U8,
    I16,
    U16,
    I32,
    U32,
    I64,
    U64,
    F32,
    F64,
    // Aliases
    Usize,
    Bool,
    Char,
    Byte,
    Str,
    Void,
}

/// Bit width (mantissa width for floats), signedness and floatness of a
/// numeric type.
pub open spec fn spec_numeric_info(t: Type) -> Option<(u8, bool, bool)> {
    match t {
        Type::I8 => Some((8, true, false)),
        Type::U8 => Some((8, false, false)),
        Type::I16 => Some((16, true, false)),
        Type::U16 => Some((16, false, false)),
        Type::I32 => Some((32, true, false)),
        Type::U32 => Some((32, false, false)),
        Type::I64 => Some((64, true, false)),
        Type::U64 => Some((64, false, false)),
        Type::F32 => Some((24, true, true)),
        Type::F64 => Some((53, true, true)),
        _ => None,
    }
}

/// A value of type `from` fits type `to`: both are numeric, `to` is at least as
/// wide with the same signedness, a float never goes to an integer (that
/// would truncate), and an integer goes to a float only when it is signed and
/// narrower than the float's mantissa.
pub open spec fn spec_convertible(from: Type, to: Type) -> bool {
    match (spec_numeric_info(from), spec_numeric_info(to)) {
        (Some((fb, fs, ff)), Some((tb, ts, tf))) => if fb > tb || fs != ts {
            false
        } else if ff && !tf {
            false
        } else if !ff && tf {
            fb < tb && fs
        } else {
            true
        },
        _ => false,
    }
}

pub open spec fn spec_is_signed(t: Type) -> bool {
    match spec_numeric_info(t) {
        Some((_, s, _)) => s,
        None => false,
    }
}

pub open spec fn spec_type_from_token(k: TokenType) -> Type {
    match k {
        TokenType::Ti8 => Type::I8,
        TokenType::Tu8 => Type::U8,
        TokenType::Ti16 => Type::I16,
        TokenType::Tu16 => Type::U16,
        TokenType::Ti32 => Type::I32,
        TokenType::Tu32 => Type::U32,
        TokenType::Ti64 => Type::I64,
        TokenType::Tu64 => Type::U64,
        TokenType::Tf32 => Type::F32,
        TokenType::Tf64 => Type::F64,
        TokenType::Tusize => Type::Usize,
        TokenType::Tbyte => Type::Byte,
        TokenType::Tchar => Type::Char,
        TokenType::Tstring => Type::Str,
        TokenType::Tbool => Type::Bool,
        _ => Type::NoType,
    }
}

pub open spec fn spec_type_name(t: Type) -> Seq<char> {
    match t {
        Type::I8 => "i8"@,
        Type::U8 => "u8"@,
        Type::I16 => "i16"@,
        Type::U16 => "u16"@,
        Type::I32 => "i32"@,
        Type::U32 => "u32"@,
        Type::I64 => "i64"@,
        Type::U64 => "u64"@,
        Type::F32 => "f32"@,
        Type::F64 => "f64"@,
        Type::Usize => "usize"@,
        Type::Byte => "byte"@,
        Type::Char => "char"@,
        Type::Str => "string"@,
        Type::Bool => "bool"@,
        Type::NoType => "None"@,
        Type::Void => "void"@,
    }
}

impl Type {
    fn numeric_type_info(&self) -> (r: Option<(u8, bool, bool)>)
        ensures
            r == spec_numeric_info(*self),
    {
        match *self {
            Type::I8 => Some((8, true, false)),
            Type::U8 => Some((8, false, false)),
            Type::I16 => Some((16, true, false)),
            Type::U16 => Some((16, false, false)),
            Type::I32 => Some((32, true, false)),
            Type::U32 => Some((32, false, false)),
            Type::I64 => Some((64, true, false)),
            Type::U64 => Some((64, false, false)),
            Type::F32 => Some((24, true, true)),
            Type::F64 => Some((53, true, true)),
            _ => None,
        }
    }

    /// Whether a value of this type may be used where `to` is expected.
    pub fn is_digit_convertible_to(&self, to: &Type) -> (r: bool)
        ensures
            r == spec_convertible(*self, *to),
    {
        if let (Some((from_bits, from_signed, from_is_fp)), Some((to_bits, to_signed, to_is_fp))) =
            (self.numeric_type_info(), to.numeric_type_info()) {
            if from_bits > to_bits || from_signed != to_signed {
                false
            } else if from_is_fp && !to_is_fp {
                false
            } else if !from_is_fp && to_is_fp {
                (from_bits < to_bits) && from_signed
            } else {
                true
            }
        } else {
            false
        }
    }

    /// Whether the type is a signed numeric type.
    pub fn is_signed(&self) -> (r: bool)
        ensures
            r == spec_is_signed(*self),
    {
        match self.numeric_type_info() {
            Some((_, s, _)) => s,
            None => false,
        }
    }

    /// The type that a type-name token denotes; `NoType` for other tokens.
    pub fn from_token(value: TokenType) -> (r: Type)
        ensures
            r == spec_type_from_token(value),
    {
        match value {
            TokenType::Ti8 => Type::I8,
            TokenType::Tu8 => Type::U8,
            TokenType::Ti16 => Type::I16,
            TokenType::Tu16 => Type::U16,
            TokenType::Ti32 => Type::I32,
            TokenType::Tu32 => Type::U32,
            TokenType::Ti64 => Type::I64,
            TokenType::Tu64 => Type::U64,
            TokenType::Tf32 => Type::F32,
            TokenType::Tf64 => Type::F64,
            TokenType::Tusize => Type::Usize,
            TokenType::Tbyte => Type::Byte,
            TokenType::Tchar => Type::Char,
            TokenType::Tstring => Type::Str,
            TokenType::Tbool => Type::Bool,
            _ => Type::NoType,
        }
    }

    /// The name of the type as written in source (its `Display` text).
    pub fn name(&self) -> (r: &'static str)
        ensures
            r@ == spec_type_name(*self),
    {
        match *self {
            Type::I8 => "i8",
            Type::U8 => "u8",
            Type::I16 => "i16",
            Type::U16 => "u16",
            Type::I32 => "i32",
            Type::U32 => "u32",
            Type::I64 => "i64",
            Type::U64 => "u64",
            Type::F32 => "f32",
            Type::F64 => "f64",
            Type::Usize => "usize",
            Type::Byte => "byte",
            Type::Char => "char",
            Type::Str => "string",
            Type::Bool => "bool",
            Type::NoType => "None",
            Type::Void => "void",
        }
    }
}

/// Every numeric type fits itself.
pub proof fn lemma_convertible_reflexive(t: Type)
    requires
        spec_numeric_info(t) is Some,
    ensures
        spec_convertible(t, t),
{
}

/// Fitting is transitive: if `a` fits `b` and `b` fits `c`, then `a` fits `c`.
pub proof fn lemma_convertible_transitive(a: Type, b: Type, c: Type)
    requires
        spec_convertible(a, b),
        spec_convertible(b, c),
    ensures
        spec_convertible(a, c),
{
}

/// Only numeric types fit anything, and fitting never changes signedness.
pub proof fn lemma_convertible_numeric(a: Type, b: Type)
    requires
        spec_convertible(a, b),
    ensures
        spec_numeric_info(a) is Some,
        spec_numeric_info(b) is Some,
        spec_is_signed(a) == spec_is_signed(b),
{
}

/// A floating-point value never fits an integer type: it would be truncated.
pub proof fn lemma_float_not_to_integer(a: Type, b: Type)
    requires
        a == Type::F32 || a == Type::F64,
        spec_numeric_info(b) is Some,
        b != Type::F32,
        b != Type::F64,
    ensures
        !spec_convertible(a, b),
{
}

/// An identifier occurrence.
#[derive(Debug, Clone, Copy, PartialEq, Eq, Hash, Structural)]
pub struct Ident {
    pub name: Symbol,
    pub loc: LocData,
}

/// An integer literal occurrence.
#[derive(Debug, Clone, Copy, PartialEq, Eq, Structural)]
pub struct IntLit {
    pub val: i128,
    pub loc: LocData,
}

/// What a leaf expression is.
#[derive(Debug, Clone, Copy, PartialEq, Eq, Structural)]
pub enum AtomKind {
    NoAtom,
    Ident(Ident),
    IntLit(IntLit),
}

/// An expression: a leaf (`atom`) or a binary operation on `lhs` and `rhs`.
#[derive(Debug)]
pub struct Expr {
    pub atom: AtomKind,
    pub op: Op,
    pub lhs: Option<Box<Expr>>,
    pub rhs: Option<Box<Expr>>,
    pub ty: Option<Type>,
    pub loc: LocData,
}

/// A variable declaration, or (with `is_reassign`) an assignment.
#[derive(Debug)]
pub struct VarDecl {
    pub kind: VarType,
    pub id: Ident,
    pub is_reassign: bool,
    pub decl_type: Option<Type>,
    pub ty: Option<Type>,
    pub value: Box<Expr>,
    pub loc: LocData,
}

/// A block: its statements, and the variables and functions visible in it.
#[derive(Debug)]
pub struct Scope {
    pub stmts: Vec<UnionNode>,
    pub vars: Vec<(Symbol, Rc<VarDecl>)>,
    pub fns: Vec<(Symbol, Type)>,
}

/// A function definition.
#[derive(Debug)]
pub struct StmtFn {
    pub name: Symbol,
    pub args: Option<Vec<(Symbol, Type)>>,
    pub return_ty: Type,
    pub body: Scope,
    pub loc: LocData,
}

/// A function call statement.
#[derive(Debug)]
pub struct Call {
    pub name: Symbol,
    pub args: Option<Vec<Expr>>,
    pub return_ty: Option<Type>,
    pub loc: LocData,
}

/// `exit <expr>;`
#[derive(Debug)]
pub struct StmtExit {
    pub exit_code: Box<Expr>,
    pub loc: LocData,
}

/// `if` with its `elif` and `else` branches.
#[derive(Debug)]
pub struct StmtIf {
    pub cond: Expr,
    pub scope: Scope,
    pub _elif: Vec<Option<StmtElif>>,
    pub _else: Option<StmtElse>,
    pub loc: LocData,
}

#[derive(Debug)]
pub struct StmtElif {
    pub cond: Expr,
    pub scope: Scope,
    pub loc: LocData,
}

#[derive(Debug)]
pub struct StmtElse {
    pub scope: Scope,
    pub loc: LocData,
}

#[derive(Debug)]
pub struct StmtWhile {
    pub cond: Expr,
    pub scope: Scope,
    pub loc: LocData,
}

/// A statement or other node of the syntax tree.
#[derive(Debug)]
pub enum UnionNode {
    Ident(Ident),
    IntLit(IntLit),
    Expr(Box<Expr>),
    VarDecl(Rc<VarDecl>),
    Scope(Scope),
    Call(Call),
    StmtFn(StmtFn),
    StmtExit(StmtExit),
    StmtIf(StmtIf),
    StmtElif(StmtElif),
    StmtElse(StmtElse),
    StmtWhile(StmtWhile),
}

/// A parsed program: its symbols, its top-level statements, and the return
/// types of the functions it defines.
#[derive(Debug)]
pub struct Program {
    pub sym: SymbolTable,
    pub stmts: Vec<UnionNode>,
    pub fns: Vec<(Symbol, Type)>,
}

// ---------------------------------------------------------------------------
// The syntax tree as a value: the same tree with sequences in place of vectors.

pub struct ScopeV {
    pub stmts: Seq<NodeV>,
    pub vars: Seq<(Symbol, VarDecl)>,
    pub fns: Seq<(Symbol, Type)>,
}

pub struct StmtFnV {
    pub name: Symbol,
    pub args: Option<Seq<(Symbol, Type)>>,
    pub return_ty: Type,
    pub body: ScopeV,
    pub loc: LocData,
}

pub struct CallV {
    pub name: Symbol,
    pub args: Option<Seq<Expr>>,
    pub return_ty: Option<Type>,
    pub loc: LocData,
}

pub struct ElifV {
    pub cond: Expr,
    pub scope: ScopeV,
    pub loc: LocData,
}

pub struct ElseV {
    pub scope: ScopeV,
    pub loc: LocData,
}

pub struct StmtIfV {
    pub cond: Expr,
    pub scope: ScopeV,
    pub elifs: Seq<Option<ElifV>>,
    pub els: Option<ElseV>,
    pub loc: LocData,
}

pub struct WhileV {
    pub cond: Expr,
    pub scope: ScopeV,
    pub loc: LocData,
}

pub enum NodeV {
    Ident(Ident),
    IntLit(IntLit),
    Expr(Expr),
    VarDecl(VarDecl),
    Scope(ScopeV),
    Call(CallV),
    StmtFn(StmtFnV),
    StmtExit(StmtExit),
    StmtIf(StmtIfV),
    StmtElif(ElifV),
    StmtElse(ElseV),
    StmtWhile(WhileV),
}

pub open spec fn vars_view(v: Seq<(Symbol, Rc<VarDecl>)>) -> Seq<(Symbol, VarDecl)> {
    Seq::new(v.len(), |i: int| (v[i].0, *v[i].1))
}

pub open spec fn call_view(c: Call) -> CallV {
    CallV {
        name: c.name,
        args: match c.args {
            Some(a) => Some(a@),
            None => None,
        },
        return_ty: c.return_ty,
        loc: c.loc,
    }
}

pub open spec fn fn_view(f: StmtFn) -> StmtFnV
    decreases f, 3nat,
{
    StmtFnV {
        name: f.name,
        args: match f.args {
            Some(a) => Some(a@),
            None => None,
        },
        return_ty: f.return_ty,
        body: scope_view(f.body),
        loc: f.loc,
    }
}

pub open spec fn elif_view(x: StmtElif) -> ElifV
    decreases x, 3nat,
{
    ElifV { cond: x.cond, scope: scope_view(x.scope), loc: x.loc }
}

pub open spec fn else_view(x: StmtElse) -> ElseV
    decreases x, 3nat,
{
    ElseV { scope: scope_view(x.scope), loc: x.loc }
}

pub open spec fn if_view(x: StmtIf) -> StmtIfV
    decreases x, 3nat,
{
    StmtIfV {
        cond: x.cond,
        scope: scope_view(x.scope),
        elifs: elifs_view(x._elif@),
        els: match x._else {
            Some(e) => Some(else_view(e)),
            None => None,
        },
        loc: x.loc,
    }
}

pub open spec fn while_view(x: StmtWhile) -> WhileV
    decreases x, 3nat,
{
    WhileV { cond: x.cond, scope: scope_view(x.scope), loc: x.loc }
}

pub open spec fn node_view(n: UnionNode) -> NodeV
    decreases n, 4nat,
{
    match n {
        UnionNode::Ident(x) => NodeV::Ident(x),
        UnionNode::IntLit(x) => NodeV::IntLit(x),
        UnionNode::Expr(e) => NodeV::Expr(*e),
        UnionNode::VarDecl(d) => NodeV::VarDecl(*d),
        UnionNode::Scope(s) => NodeV::Scope(scope_view(s)),
        UnionNode::Call(c) => NodeV::Call(call_view(c)),
        UnionNode::StmtFn(f) => NodeV::StmtFn(fn_view(f)),
        UnionNode::StmtExit(x) => NodeV::StmtExit(x),
        UnionNode::StmtIf(x) => NodeV::StmtIf(if_view(x)),
        UnionNode::StmtElif(x) => NodeV::StmtElif(elif_view(x)),
        UnionNode::StmtElse(x) => NodeV::StmtElse(else_view(x)),
        UnionNode::StmtWhile(x) => NodeV::StmtWhile(while_view(x)),
    }
}

pub open spec fn scope_view(s: Scope) -> ScopeV
    decreases s, 2nat,
{
    ScopeV { stmts: nodes_view(s.stmts@), vars: vars_view(s.vars@), fns: s.fns@ }
}

pub open spec fn nodes_view(v: Seq<UnionNode>) -> Seq<NodeV>
    decreases v, 1nat,
{
    Seq::new(
        v.len(),
        |i: int|
            if 0 <= i < v.len() {
                node_view(v[i])
            } else {
                NodeV::Ident(Ident { name: Symbol(0), loc: spec_empty_loc() })
            },
    )
}

pub open spec fn elifs_view(v: Seq<Option<StmtElif>>) -> Seq<Option<ElifV>>
    decreases v, 1nat,
{
    Seq::new(
        v.len(),
        |i: int|
            if 0 <= i < v.len() {
                match v[i] {
                    Some(x) => Some(elif_view(x)),
                    None => None,
                }
            } else {
                None
            },
    )
}

impl View for Scope {
    type V = ScopeV;

    open spec fn view(&self) -> ScopeV {
        scope_view(*self)
    }
}

impl View for UnionNode {
    type V = NodeV;

    open spec fn view(&self) -> NodeV {
        node_view(*self)
    }
}

/// Viewing a vector of nodes after a push is pushing the pushed node's view.
pub proof fn lemma_nodes_view_push(v: Seq<UnionNode>, n: UnionNode)
    ensures
        nodes_view(v.push(n)) == nodes_view(v).push(node_view(n)),
{
    assert(nodes_view(v.push(n)) =~= nodes_view(v).push(node_view(n)));
}

pub proof fn lemma_elifs_view_push(v: Seq<Option<StmtElif>>, n: Option<StmtElif>)
    ensures
        elifs_view(v.push(n)) == elifs_view(v).push(
            match n {
                Some(x) => Some(elif_view(x)),
                None => None,
            },
        ),
{
    let r = match n {
        Some(x) => Some(elif_view(x)),
        None => None,
    };
    assert(elifs_view(v.push(n)) =~= elifs_view(v).push(r));
}

pub proof fn lemma_vars_view_push(v: Seq<(Symbol, Rc<VarDecl>)>, p: (Symbol, Rc<VarDecl>))
    ensures
        vars_view(v.push(p)) == vars_view(v).push((p.0, *p.1)),
{
    assert(vars_view(v.push(p)) =~= vars_view(v).push((p.0, *p.1)));
}

pub open spec fn spec_empty_loc() -> LocData {
    LocData { line: 0, col: 0 }
}

/// The expression with nothing in it.
pub open spec fn spec_empty_expr() -> Expr {
    Expr { atom: AtomKind::NoAtom, op: Op::Nop, lhs: None, rhs: None, ty: None, loc: spec_empty_loc() }
}

impl Expr {
    /// The expression with nothing in it.
    pub fn empty() -> (r: Expr)
        ensures
            r == spec_empty_expr(),
    {
        Expr {
            atom: AtomKind::NoAtom,
            op: Op::Nop,
            lhs: None,
            rhs: None,
            ty: None,
            loc: LocData { line: 0, col: 0 },
        }
    }
}

impl Scope {
    pub open spec fn is_empty_scope(&self) -> bool {
        &&& self.stmts@.len() == 0
        &&& self.vars@.len() == 0
        &&& self.fns@.len() == 0
    }

    /// The block with nothing in it.
    pub fn empty() -> (r: Scope)
        ensures
            r.is_empty_scope(),
    {
        Scope { stmts: Vec::new(), vars: Vec::new(), fns: Vec::new() }
    }
}

/// Shares a declaration: calls std's `Rc::clone`, which gives another pointer
/// to the same allocation, so the value is the same.
#[verifier::external_body]
pub(crate) fn rc_clone(r: &Rc<VarDecl>) -> (res: Rc<VarDecl>)
    ensures
        res == *r,
{
    Rc::clone(r)
}

pub(crate) fn copy_vars(v: &Vec<(Symbol, Rc<VarDecl>)>) -> (r: Vec<(Symbol, Rc<VarDecl>)>)
    ensures
        r@ == v@,
{
    let mut r: Vec<(Symbol, Rc<VarDecl>)> = Vec::new();
    let mut i: usize = 0;
    while i < v.len()
        invariant
            i <= v.len(),
            r@ == v@.take(i as int),
        decreases v.len() - i,
    {
        let k = v[i].0;
        let d = rc_clone(&v[i].1);
        r.push((k, d));
        assert(r@ =~= v@.take(i + 1));
        i = i + 1;
    }
    assert(v@.take(v.len() as int) =~= v@);
    r
}

} // verus!
