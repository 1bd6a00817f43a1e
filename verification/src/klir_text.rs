use vstd::prelude::*;
use vstd::string::*;

use crate::ast::{spec_type_name, Type};
use crate::irgenerator::{
    args_view, arg_view, knode_view, knodes_view, Alloca, ArgType, ArgV, Br, Call, Define, Expr,
    KNodeV, KlirBlob, KlirNode, Label, Store,
};
use crate::lexer::Op;
use crate::text::{push_int, spec_int_text};

verus! {

/// The text of an operand: `%name` for variables and temporaries, the number
/// for an immediate.
pub open spec fn spec_arg_text(a: ArgV) -> Seq<char> {
    match a {
        ArgV::Sym(s) | ArgV::Temp(s) => "%"@ + s,
        ArgV::Imm(v) => spec_int_text(v as int),
    }
}

/// The parameters or arguments of a definition or call, each as `operand
/// type`, followed by `, ` unless it equals the last one.
pub open spec fn spec_args_text(a: Seq<(ArgV, Type)>, last: (ArgV, Type)) -> Seq<char>
    decreases a.len(),
{
    if a.len() == 0 {
        Seq::empty()
    } else {
        spec_arg_text(a[0].0) + " "@ + spec_type_name(a[0].1) + (if a[0] != last {
            ", "@
        } else {
            Seq::empty()
        }) + spec_args_text(a.subrange(1, a.len() as int), last)
    }
}

pub open spec fn spec_opt_args_text(a: Option<Seq<(ArgV, Type)>>) -> Seq<char> {
    match a {
        Some(v) => if v.len() > 0 {
            spec_args_text(v, v.last())
        } else {
            Seq::empty()
        },
        None => Seq::empty(),
    }
}

/// The mnemonic of an operation, for the operations the language has.
pub open spec fn spec_op_mnemonic(op: Op) -> Option<Seq<char>> {
    match op {
        Op::Add => Some("add"@),
        Op::Sub => Some("sub"@),
        Op::Mul => Some("mul"@),
        Op::Div => Some("div"@),
        Op::Mod => Some("mod"@),
        Op::Pwr => Some("pwr"@),
        Op::BwAnd => Some("and"@),
        Op::BwOr => Some("or"@),
        Op::BwXor => Some("xor"@),
        Op::BwNot => Some("not"@),
        Op::LgAnd => Some("lgand"@),
        Op::LgOr => Some("lgor"@),
        Op::LgNot => Some("lgnot"@),
        Op::Lt => Some("lt"@),
        Op::Gt => Some("gt"@),
        Op::Lte => Some("lte"@),
        Op::Gte => Some("gte"@),
        Op::Eq => Some("eq"@),
        Op::Neq => Some("neq"@),
        Op::Lsl => Some("lsl"@),
        Op::Lsr => Some("lsr"@),
        Op::Asr => Some("asr"@),
        _ => None,
    }
}

/// Whether an operation compares its operands: its mnemonic then names the
/// condition of a `cmp` instruction.
pub open spec fn spec_is_comparison(op: Op) -> bool {
    op == Op::Lt || op == Op::Gt || op == Op::Lte || op == Op::Gte || op == Op::Eq || op == Op::Neq
}

/// The start of an operation's line: `cmp <type>, <cond>` for a comparison,
/// `<mnemonic> <type>` for any other operation.
pub open spec fn spec_op_head(op: Op, m: Seq<char>, ty: Type) -> Seq<char> {
    if spec_is_comparison(op) {
        "    cmp "@ + spec_type_name(ty) + ", "@ + m
    } else {
        "    "@ + m + " "@ + spec_type_name(ty)
    }
}

/// The text line of one instruction.
pub open spec fn spec_node_text(n: KNodeV) -> Option<Seq<char>> {
    match n {
        KNodeV::Alloca { ty, dest } => Some("    alloca "@ + spec_type_name(ty) + ", %"@ + dest + "\n"@),
        KNodeV::Store { ty, src, dest } => Some(
            "    store "@ + spec_type_name(ty) + ", "@ + spec_arg_text(src) + ", "@ + dest + "\n"@,
        ),
        KNodeV::Define { return_ty, name, args } => Some(
            "    define "@ + spec_type_name(return_ty) + ", %"@ + name + "("@ + spec_opt_args_text(args)
                + "):"@ + "\n"@,
        ),
        KNodeV::Call { return_ty, name, args } => Some(
            "    call "@ + spec_type_name(return_ty) + ", "@ + name + "("@ + spec_opt_args_text(args) + ")"@
                + "\n"@,
        ),
        KNodeV::Expr { ty, lhs, rhs, op, dest } => match spec_op_mnemonic(op) {
            Some(m) => Some(
                spec_op_head(op, m, ty) + ", "@ + spec_arg_text(lhs) + ", "@ + spec_arg_text(rhs) + ", %"@
                    + dest + "\n"@,
            ),
            None => None,
        },
        KNodeV::Label { name } => Some("label "@ + name + ":\n"@),
        KNodeV::Br { label, flag } => Some(
            "    br "@ + label + ", "@ + (match flag {
                Some(f) => f,
                None => "unconditional"@,
            }) + "\n"@,
        ),
    }
}

/// The text of an instruction list, one line per instruction.
pub open spec fn spec_blob_text(ns: Seq<KNodeV>) -> Option<Seq<char>>
    decreases ns.len(),
{
    if ns.len() == 0 {
        Some(Seq::empty())
    } else {
        match (spec_node_text(ns[0]), spec_blob_text(ns.subrange(1, ns.len() as int))) {
            (Some(a), Some(b)) => Some(a + b),
            _ => None,
        }
    }
}

fn push_arg(s: &mut String, a: &ArgType)
    ensures
        final(s)@ == old(s)@ + spec_arg_text(a@),
{
    match a {
        ArgType::Sym(id) | ArgType::Temp(id) => {
            s.append("%");
            s.append(id.as_str());
        },
        ArgType::Imm(val) => {
            push_int(s, *val);
        },
    }
    proof {
        assert(final(s)@ =~= old(s)@ + spec_arg_text(a@));
    }
}

fn arg_eq(a: &(ArgType, Type), b: &(ArgType, Type)) -> (r: bool)
    ensures
        r == ((arg_view(a.0), a.1) == (arg_view(b.0), b.1)),
{
    let same = match (&a.0, &b.0) {
        (ArgType::Sym(x), ArgType::Sym(y)) => *x == *y,
        (ArgType::Temp(x), ArgType::Temp(y)) => *x == *y,
        (ArgType::Imm(x), ArgType::Imm(y)) => *x == *y,
        _ => false,
    };
    same && a.1 == b.1
}

fn push_args(s: &mut String, args: &Option<Vec<(ArgType, Type)>>)
    ensures
        final(s)@ == old(s)@ + spec_opt_args_text(crate::irgenerator::opt_args_view(*args)),
{
    match args {
        None => {
            assert(final(s)@ =~= old(s)@ + Seq::<char>::empty());
        },
        Some(v) => {
            let n = v.len();
            if n == 0 {
                assert(final(s)@ =~= old(s)@ + Seq::<char>::empty());
                return;
            }
            let ghost av = args_view(v@);
            let ghost last = av.last();
            let mut i: usize = 0;
            proof {
                assert(av.subrange(0, n as int) =~= av);
                assert(s@ =~= old(s)@ + Seq::<char>::empty());
            }
            let ghost mut done: Seq<char> = Seq::empty();
            while i < n
                invariant
                    n == v@.len(),
                    n > 0,
                    i <= n,
                    av == args_view(v@),
                    av.len() == n,
                    last == av[n - 1],
                    s@ == old(s)@ + done,
                    done + spec_args_text(av.subrange(i as int, n as int), last) == spec_args_text(av, last),
                decreases n - i,
            {
                let ghost rest = av.subrange(i as int, n as int);
                let ghost s0 = s@;
                proof {
                    assert(rest[0] == av[i as int]);
                    assert(av[i as int] == (arg_view(v@[i as int].0), v@[i as int].1));
                    assert(av[n - 1] == (arg_view(v@[n - 1].0), v@[n - 1].1));
                    assert(rest.subrange(1, rest.len() as int) =~= av.subrange(i + 1, n as int));
                }
                push_arg(s, &v[i].0);
                s.append(" ");
                s.append(v[i].1.name());
                let sep = !arg_eq(&v[i], &v[n - 1]);
                if sep {
                    s.append(", ");
                }
                proof {
                    let piece = spec_arg_text(av[i as int].0) + " "@ + spec_type_name(av[i as int].1) + (if av[i as int]
                        != last {
                        ", "@
                    } else {
                        Seq::<char>::empty()
                    });
                    assert(s@ =~= s0 + piece);
                    assert(done + piece + spec_args_text(av.subrange(i + 1, n as int), last) =~= done + spec_args_text(
                        rest,
                        last,
                    ));
                    done = done + piece;
                }
                i = i + 1;
            }
            proof {
                assert(av.subrange(n as int, n as int) =~= Seq::<(ArgV, Type)>::empty());
                assert(done + Seq::<char>::empty() =~= done);
            }
        },
    }
}

fn op_mnemonic(op: Op) -> (r: Option<&'static str>)
    ensures
        match r {
            Some(m) => spec_op_mnemonic(op) == Some(m@),
            None => spec_op_mnemonic(op) is None,
        },
{
    match op {
        Op::Add => Some("add"),
        Op::Sub => Some("sub"),
        Op::Mul => Some("mul"),
        Op::Div => Some("div"),
        Op::Mod => Some("mod"),
        Op::Pwr => Some("pwr"),
        Op::BwAnd => Some("and"),
        Op::BwOr => Some("or"),
        Op::BwXor => Some("xor"),
        Op::BwNot => Some("not"),
        Op::LgAnd => Some("lgand"),
        Op::LgOr => Some("lgor"),
        Op::LgNot => Some("lgnot"),
        Op::Lt => Some("lt"),
        Op::Gt => Some("gt"),
        Op::Lte => Some("lte"),
        Op::Gte => Some("gte"),
        Op::Eq => Some("eq"),
        Op::Neq => Some("neq"),
        Op::Lsl => Some("lsl"),
        Op::Lsr => Some("lsr"),
        Op::Asr => Some("asr"),
        _ => None,
    }
}

impl ArgType {
    /// The text of the operand.
    pub fn fmt(&self) -> (r: String)
        ensures
            r@ == spec_arg_text(self@),
    {
        let mut s = String::new();
        push_arg(&mut s, self);
        assert(s@ =~= spec_arg_text(self@));
        s
    }
}

impl Alloca {
    /// The text line of the instruction.
    pub fn dump(&self) -> (r: String)
        ensures
            Some(r@) == spec_node_text(KNodeV::Alloca { ty: self.ty, dest: self.dest@ }),
    {
        let mut s = String::new();
        s.append("    alloca ");
        s.append(self.ty.name());
        s.append(", %");
        s.append(self.dest.as_str());
        s.append("\n");
        s
    }
}

impl Store {
    /// The text line of the instruction.
    pub fn dump(&self) -> (r: String)
        ensures
            Some(r@) == spec_node_text(KNodeV::Store { ty: self.ty, src: self.src@, dest: self.dest@ }),
    {
        let mut s = String::new();
        s.append("    store ");
        s.append(self.ty.name());
        s.append(", ");
        push_arg(&mut s, &self.src);
        s.append(", ");
        s.append(self.dest.as_str());
        s.append("\n");
        s
    }
}

impl Define {
    /// The text line of the instruction.
    pub fn dump(&self) -> (r: String)
        ensures
            Some(r@) == spec_node_text(
                KNodeV::Define {
                    return_ty: self.return_ty,
                    name: self.name@,
                    args: crate::irgenerator::opt_args_view(self.args),
                },
            ),
    {
        let mut s = String::new();
        s.append("    define ");
        s.append(self.return_ty.name());
        s.append(", %");
        s.append(self.name.as_str());
        s.append("(");
        push_args(&mut s, &self.args);
        s.append("):");
        s.append("\n");
        s
    }
}

impl Call {
    /// The text line of the instruction.
    pub fn dump(&self) -> (r: String)
        ensures
            Some(r@) == spec_node_text(
                KNodeV::Call {
                    return_ty: self.return_ty,
                    name: self.name@,
                    args: crate::irgenerator::opt_args_view(self.args),
                },
            ),
    {
        let mut s = String::new();
        s.append("    call ");
        s.append(self.return_ty.name());
        s.append(", ");
        s.append(self.name.as_str());
        s.append("(");
        push_args(&mut s, &self.args);
        s.append(")");
        s.append("\n");
        s
    }
}

impl Expr {
    /// The text line of the instruction; none for an operation the
    /// intermediate language does not have.
    pub fn dump(&self) -> (r: Option<String>)
        ensures
            match r {
                Some(t) => spec_node_text(
                    KNodeV::Expr { ty: self.ty, lhs: self.lhs@, rhs: self.rhs@, op: self.op, dest: self.dest@ },
                ) == Some(t@),
                None => spec_node_text(
                    KNodeV::Expr { ty: self.ty, lhs: self.lhs@, rhs: self.rhs@, op: self.op, dest: self.dest@ },
                ) is None,
            },
    {
        let m = match op_mnemonic(self.op) {
            Some(m) => m,
            None => {
                return None;
            },
        };
        let mut s = String::new();
        let cmp = match self.op {
            Op::Lt | Op::Gt | Op::Lte | Op::Gte | Op::Eq | Op::Neq => true,
            _ => false,
        };
        if cmp {
            s.append("    cmp ");
            s.append(self.ty.name());
            s.append(", ");
            s.append(m);
        } else {
            s.append("    ");
            s.append(m);
            s.append(" ");
            s.append(self.ty.name());
        }
        proof {
            assert(cmp == spec_is_comparison(self.op));
            assert(s@ =~= spec_op_head(self.op, m@, self.ty));
        }
        s.append(", ");
        push_arg(&mut s, &self.lhs);
        s.append(", ");
        push_arg(&mut s, &self.rhs);
        s.append(", %");
        s.append(self.dest.as_str());
        s.append("\n");
        proof {
            let t = spec_op_head(self.op, m@, self.ty) + ", "@ + spec_arg_text(self.lhs@) + ", "@
                + spec_arg_text(self.rhs@) + ", %"@ + self.dest@ + "\n"@;
            assert(s@ =~= t);
        }
        Some(s)
    }
}

impl Label {
    /// The text line of the instruction.
    pub fn dump(&self) -> (r: String)
        ensures
            Some(r@) == spec_node_text(KNodeV::Label { name: self.name@ }),
    {
        let mut s = String::new();
        s.append("label ");
        s.append(self.name.as_str());
        s.append(":\n");
        s
    }
}

impl Br {
    /// The text line of the instruction.
    pub fn dump(&self) -> (r: String)
        ensures
            Some(r@) == spec_node_text(
                KNodeV::Br { label: self.label@, flag: crate::irgenerator::opt_str_view(self.flag) },
            ),
    {
        let mut s = String::new();
        s.append("    br ");
        s.append(self.label.as_str());
        s.append(", ");
        match &self.flag {
            Some(f) => s.append(f.as_str()),
            None => s.append("unconditional"),
        }
        s.append("\n");
        s
    }
}

impl KlirNode {
    /// The text line of the instruction; none for an operation the
    /// intermediate language does not have.
    pub fn dump(&self) -> (r: Option<String>)
        ensures
            match r {
                Some(t) => spec_node_text(self@) == Some(t@),
                None => spec_node_text(self@) is None,
            },
    {
        match self {
            KlirNode::Alloca(alloca) => Some(alloca.dump()),
            KlirNode::Store(store) => Some(store.dump()),
            KlirNode::Define(define) => Some(define.dump()),
            KlirNode::Call(call) => Some(call.dump()),
            KlirNode::Expr(op) => op.dump(),
            KlirNode::Br(br) => Some(br.dump()),
            KlirNode::Label(label) => Some(label.dump()),
        }
    }
}

impl KlirBlob {
    /// The text of the instructions, one line each; none when one of them is
    /// an operation the intermediate language does not have.
    pub fn dump(&self) -> (r: Option<String>)
        ensures
            match r {
                Some(t) => spec_blob_text(knodes_view(self.nodes@)) == Some(t@),
                None => spec_blob_text(knodes_view(self.nodes@)) is None,
            },
    {
        let ghost ns = knodes_view(self.nodes@);
        let n = self.nodes.len();
        let mut out = String::new();
        let mut i: usize = 0;
        proof {
            assert(ns.subrange(0, n as int) =~= ns);
            assert(out@ =~= Seq::<char>::empty());
        }
        while i < n
            invariant
                n == self.nodes@.len(),
                ns == knodes_view(self.nodes@),
                ns.len() == n,
                i <= n,
                (match spec_blob_text(ns.subrange(i as int, n as int)) {
                    Some(b) => Some(out@ + b),
                    None => None::<Seq<char>>,
                }) == spec_blob_text(ns),
            decreases n - i,
        {
            let ghost rest = ns.subrange(i as int, n as int);
            proof {
                assert(rest[0] == knode_view(self.nodes@[i as int]));
                assert(rest.subrange(1, rest.len() as int) =~= ns.subrange(i + 1, n as int));
            }
            let ghost o0 = out@;
            match self.nodes[i].dump() {
                Some(t) => {
                    out.append(t.as_str());
                    proof {
                        match spec_blob_text(ns.subrange(i + 1, n as int)) {
                            Some(b) => {
                                assert(o0 + (t@ + b) =~= out@ + b);
                            },
                            None => {},
                        }
                    }
                },
                None => {
                    return None;
                },
            }
            i = i + 1;
        }
        proof {
            assert(ns.subrange(n as int, n as int) =~= Seq::<KNodeV>::empty());
            assert(out@ + Seq::<char>::empty() =~= out@);
        }
        Some(out)
    }
}

} // verus!
