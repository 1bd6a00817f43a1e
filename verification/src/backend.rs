use vstd::prelude::*;
use vstd::string::*;

use crate::ast::{spec_is_signed, Type};
use crate::irgenerator::{
    scopes_view, ArgType, ArgV, Br, Call, Define, Expr, KNodeV, KlirNode, ProgScope, ProgScopeV,
    Store,
};
use crate::lexer::Op;
use crate::text::{push_decimal, push_hex, push_int, spec_decimal, spec_hex, spec_int_text};

verus! {

/// Code generation stopped on a program it cannot lower: an operation or a
/// type the target has no instruction for, or a stack frame past its limit.
#[derive(Debug, Clone, Copy, PartialEq, Eq, Structural)]
pub enum CodegenError {
    Abort,
}

// ---------------------------------------------------------------------------
// Association lists keyed by text.

pub open spec fn sfind<V>(s: Seq<(Seq<char>, V)>, k: Seq<char>, i: int) -> Option<int>
    decreases s.len() - i,
{
    if i < 0 || i >= s.len() {
        None
    } else if s[i].0 == k {
        Some(i)
    } else {
        sfind(s, k, i + 1)
    }
}

pub open spec fn sget<V>(s: Seq<(Seq<char>, V)>, k: Seq<char>) -> Option<V> {
    match sfind(s, k, 0) {
        Some(i) => Some(s[i].1),
        None => None,
    }
}

/// Sets the value of key `k`, in place if it is present, else at the end.
pub open spec fn sput<V>(s: Seq<(Seq<char>, V)>, k: Seq<char>, v: V) -> Seq<(Seq<char>, V)> {
    match sfind(s, k, 0) {
        Some(i) => s.update(i, (k, v)),
        None => s.push((k, v)),
    }
}

proof fn lemma_sfind_skip<V>(s: Seq<(Seq<char>, V)>, k: Seq<char>, i: int)
    requires
        0 <= i <= s.len(),
        forall|j: int| 0 <= j < i ==> s[j].0 != k,
    ensures
        sfind(s, k, 0) == sfind(s, k, i),
    decreases i,
{
    if i > 0 {
        lemma_sfind_skip(s, k, i - 1);
    }
}

pub open spec fn vars_view(v: Seq<(String, (Type, usize))>) -> Seq<(Seq<char>, (Type, usize))> {
    v.map_values(|p: (String, (Type, usize))| (p.0@, p.1))
}

pub type FnSig = (Type, Option<Vec<(String, Type)>>);

pub type FnSigV = (Type, Option<Seq<(Seq<char>, Type)>>);

pub open spec fn params_view(v: Seq<(String, Type)>) -> Seq<(Seq<char>, Type)> {
    v.map_values(|p: (String, Type)| (p.0@, p.1))
}

pub open spec fn sig_view(s: FnSig) -> FnSigV {
    (
        s.0,
        match s.1 {
            Some(v) => Some(params_view(v@)),
            None => None,
        },
    )
}

pub open spec fn fns_view(v: Seq<(String, FnSig)>) -> Seq<(Seq<char>, FnSigV)> {
    v.map_values(|p: (String, FnSig)| (p.0@, sig_view(p.1)))
}

fn var_get(vars: &Vec<(String, (Type, usize))>, k: &String) -> (r: Option<(Type, usize)>)
    ensures
        r == sget(vars_view(vars@), k@),
{
    let ghost vs = vars_view(vars@);
    let mut i: usize = 0;
    while i < vars.len()
        invariant
            i <= vars@.len(),
            vs == vars_view(vars@),
            vs.len() == vars@.len(),
            forall|j: int| 0 <= j < i ==> vs[j].0 != k@,
        decreases vars@.len() - i,
    {
        assert(vs[i as int] == (vars@[i as int].0@, vars@[i as int].1));
        if vars[i].0 == *k {
            proof {
                lemma_sfind_skip(vs, k@, i as int);
            }
            return Some(vars[i].1);
        }
        i = i + 1;
    }
    proof {
        lemma_sfind_skip(vs, k@, i as int);
    }
    None
}

fn var_put(vars: &mut Vec<(String, (Type, usize))>, k: String, v: (Type, usize))
    ensures
        vars_view(final(vars)@) == sput(vars_view(old(vars)@), k@, v),
{
    let ghost vs = vars_view(vars@);
    let mut i: usize = 0;
    while i < vars.len()
        invariant
            i <= vars@.len(),
            vars@ == old(vars)@,
            vs == vars_view(vars@),
            vs.len() == vars@.len(),
            forall|j: int| 0 <= j < i ==> vs[j].0 != k@,
        decreases vars@.len() - i,
    {
        assert(vs[i as int] == (vars@[i as int].0@, vars@[i as int].1));
        if vars[i].0 == k {
            proof {
                lemma_sfind_skip(vs, k@, i as int);
            }
            let ghost kv = k@;
            vars.set(i, (k, v));
            proof {
                assert(vars_view(vars@) =~= vs.update(i as int, (kv, v)));
            }
            return;
        }
        i = i + 1;
    }
    proof {
        lemma_sfind_skip(vs, k@, i as int);
    }
    let ghost kv = k@;
    vars.push((k, v));
    proof {
        assert(vars_view(vars@) =~= vs.push((kv, v)));
    }
}

// ---------------------------------------------------------------------------
// The text of the instructions.

/// The load instruction (with its register prefix) for a type.
pub open spec fn spec_load_mnemonic(ty: Type) -> Option<Seq<char>> {
    match ty {
        Type::I8 => Some("    ldrsb   x"@),
        Type::I16 => Some("    ldrsh   x"@),
        Type::I32 => Some("    ldrsw   x"@),
        Type::U8 | Type::Char | Type::Bool => Some("    ldrb    w"@),
        Type::U16 => Some("    ldrh    w"@),
        Type::U32 => Some("    ldr     w"@),
        Type::I64 | Type::U64 | Type::Usize => Some("    ldr     x"@),
        _ => None,
    }
}

/// The store instruction (with its register prefix) for a type.
pub open spec fn spec_store_mnemonic(ty: Type) -> Option<Seq<char>> {
    match ty {
        Type::I8 | Type::U8 | Type::Char | Type::Bool => Some("    strb    w"@),
        Type::I16 | Type::U16 => Some("    strh    w"@),
        Type::I32 | Type::U32 => Some("    str     w"@),
        Type::I64 | Type::U64 | Type::Usize => Some("    str     x"@),
        _ => None,
    }
}

/// `<mnemonic><reg>, [sp, <addr>]`.
pub open spec fn spec_mem_text(m: Seq<char>, reg: usize, addr: usize) -> Seq<char> {
    m + spec_decimal(reg as nat) + ", [sp, "@ + spec_decimal(addr as nat) + "]\n"@
}

pub open spec fn spec_load_text(ty: Type, reg: usize, addr: usize) -> Option<Seq<char>> {
    match spec_load_mnemonic(ty) {
        Some(m) => Some(spec_mem_text(m, reg, addr)),
        None => None,
    }
}

pub open spec fn spec_store_text(ty: Type, reg: usize, addr: usize) -> Option<Seq<char>> {
    match spec_store_mnemonic(ty) {
        Some(m) => Some(spec_mem_text(m, reg, addr)),
        None => None,
    }
}

/// The instructions of an operation on `x9` and `x10` into `x8`.
pub open spec fn spec_op_text(op: Op, ty: Type) -> Option<Seq<char>> {
    match op {
        Op::Add => Some("    add     x8, x9, x10\n"@),
        Op::Sub => Some("    sub     x8, x9, x10\n"@),
        Op::Mul => Some("    mul     x8, x9, x10\n"@),
        Op::Lsl => Some("    lsl     x8, x9, x10\n"@),
        Op::Lsr => Some("    lsr     x8, x9, x10\n"@),
        Op::Asr => Some("    asr     x8, x9, x10\n"@),
        Op::BwAnd => Some("    and     x8, x9, x10\n"@),
        Op::BwOr => Some("    orr     x8, x9, x10\n"@),
        Op::BwXor => Some("    eor     x8, x9, x10\n"@),
        Op::BwNot => Some("    mvn     x8, x9\n"@),
        Op::Div => if spec_is_signed(ty) {
            Some("    sdiv    x8, x9, x10\n"@)
        } else {
            Some("    udiv    x8, x9, x10\n"@)
        },
        Op::Mod => if spec_is_signed(ty) {
            Some("    sdiv    x8, x9, x10\n    mul     x10, x8, x10\n    sub     x8, x9, x10\n"@)
        } else {
            Some("    udiv    x8, x9, x10\n    mul     x10, x8, x10\n    sub     x8, x9, x10\n"@)
        },
        Op::LgAnd => Some(
            "    cmp     x9, 0\n    cset    x9, ne\n    cmp     x10, 0\n    cset    x10, ne\n    and     x8, x9, x10\n    cmp     x8, 0\n    cset    x8, ne\n"@,
        ),
        Op::LgOr => Some(
            "    cmp     x9, 0\n    cset    x9, ne\n    cmp     x10, 0\n    cset    x10, ne\n    orr     x8, x9, x10\n    cmp     x8, 0\n    cset    x8, ne\n"@,
        ),
        Op::Lt => Some("    cmp     x9, x10\n    cset    x8, lt\n"@),
        Op::Gt => Some("    cmp     x9, x10\n    cset    x8, gt\n"@),
        Op::Lte => Some("    cmp     x9, x10\n    cset    x8, le\n"@),
        Op::Gte => Some("    cmp     x9, x10\n    cset    x8, ge\n"@),
        Op::Eq => Some("    cmp     x9, x10\n    cset    x8, eq\n"@),
        Op::Neq => Some("    cmp     x9, x10\n    cset    x8, ne\n"@),
        _ => None,
    }
}

/// The power loop for `x9 ** x10` into `x8`; its labels end in the name of
/// the destination, so that each power in a function has labels of its own.
pub open spec fn spec_pwr_text(d: Seq<char>) -> Seq<char> {
    "    cbnz    x10, BASE_CASE_"@ + d + "\n    mov     x8, 1\n    b       PWR_LOOP_END_"@ + d
        + "\nBASE_CASE_"@ + d + ":\n    mov     x8, x9\n    cmp     x10, 1\n    bne     PWR_LOOP_START_"@ + d
        + "\n    b       PWR_LOOP_END_"@ + d + "\nPWR_LOOP_START_"@ + d
        + ":\n    sub     x10, x10, 1\n    cbz    x10, PWR_LOOP_END_"@ + d + "\n    mul     x8, x8, x9\n    b       PWR_LOOP_START_"@
        + d + "\nPWR_LOOP_END_"@ + d + ":\n"@
}

/// The instructions of an operation whose result goes to `dest`.
pub open spec fn spec_operation_text(op: Op, ty: Type, dest: Seq<char>) -> Option<Seq<char>> {
    if op == Op::Pwr {
        Some(spec_pwr_text(dest))
    } else {
        spec_op_text(op, ty)
    }
}

/// The 16-bit pieces of an immediate, lowest first.
pub open spec fn chunk0(val: i128) -> u16 {
    (val & 0xFFFF) as u16
}

pub open spec fn chunk1(val: i128) -> u16 {
    (val >> 16u32) as u16
}

pub open spec fn chunk2(val: i128) -> u16 {
    (val >> 32u32) as u16
}

pub open spec fn chunk3(val: i128) -> u16 {
    (val >> 48u32) as u16
}

/// `movk` of a piece at a shift into register `<rl><reg>`, when the piece is
/// not zero.
pub open spec fn spec_movk(rl: Seq<char>, reg: usize, piece: u16, shift: Seq<char>) -> Seq<char> {
    if piece != 0 {
        "    movk    "@ + rl + spec_decimal(reg as nat) + ", 0x"@ + spec_hex(piece as nat) + ", lsl "@
            + shift + "\n"@
    } else {
        Seq::empty()
    }
}

/// The first instruction of an immediate load: the low piece by `mov`.
pub open spec fn spec_mov_low(rl: Seq<char>, reg: usize, val: i128) -> Seq<char> {
    "    mov     "@ + rl + spec_decimal(reg as nat) + ", 0x"@ + spec_hex(chunk0(val) as nat) + "\n"@
}

/// The instructions that load an immediate into a register: the low piece by
/// `mov`, the others that are not zero by `movk`. Types of up to 32 bits use
/// the 32-bit `w` register and two pieces; 64-bit types use the `x` register
/// and four pieces.
pub open spec fn spec_move_text(ty: Type, reg: usize, val: i128) -> Option<Seq<char>> {
    match ty {
        Type::I8 | Type::Bool | Type::Char | Type::I16 | Type::U8 | Type::U16 | Type::I32 | Type::U32 => Some(
            spec_mov_low("w"@, reg, val) + spec_movk("w"@, reg, chunk1(val), "16"@),
        ),
        Type::I64 | Type::U64 | Type::Usize => Some(
            spec_mov_low("x"@, reg, val) + spec_movk("x"@, reg, chunk1(val), "16"@) + spec_movk(
                "x"@,
                reg,
                chunk2(val),
                "32"@,
            ) + spec_movk("x"@, reg, chunk3(val), "48"@),
        ),
        _ => None,
    }
}

/// The four pieces put back together give the value modulo 2^64.
pub proof fn lemma_move_pieces(val: i128)
    ensures
        chunk0(val) as u64 | (chunk1(val) as u64) << 16u64 | (chunk2(val) as u64) << 32u64 | (chunk3(
            val,
        ) as u64) << 48u64 == val as u64,
{
    assert(((val & 0xFFFF) as u16) as u64 | (((val >> 16u32) as u16) as u64) << 16u64 | (((val
        >> 32u32) as u16) as u64) << 32u64 | (((val >> 48u32) as u16) as u64) << 48u64 == val as u64)
        by (bit_vector);
}

/// The stack size rounded up to a multiple of 16.
pub open spec fn spec_align16(n: usize) -> int {
    if n % 16 == 0 {
        n as int
    } else {
        n + 16 - n % 16
    }
}

/// The rounded size is the least multiple of 16 that is not below the size.
pub proof fn lemma_align16(n: usize)
    ensures
        spec_align16(n) % 16 == 0,
        n <= spec_align16(n) < n + 16,
{
}

// ---------------------------------------------------------------------------
// What each instruction becomes.

/// The state of code generation inside one function: the known function
/// signatures, the text so far, the next free stack offset, and where each
/// variable lives.
pub struct CgState {
    pub fm: Seq<(Seq<char>, FnSigV)>,
    pub data: Seq<char>,
    pub sp: usize,
    pub vars: Seq<(Seq<char>, (Type, usize))>,
}

/// The instructions that bring an operand into register `reg`.
pub open spec fn spec_operand_text(st: CgState, a: ArgV, reg: usize, imm_prefix: Seq<char>) -> Option<Seq<char>> {
    match a {
        ArgV::Sym(n) | ArgV::Temp(n) => match sget(st.vars, n) {
            Some((ty, addr)) => spec_load_text(ty, reg, addr),
            None => None,
        },
        ArgV::Imm(v) => Some(imm_prefix + spec_int_text(v as int) + "\n"@),
    }
}

/// A store writes to the destination's slot when the destination already
/// has one, and otherwise gives it the next free slot of the frame.
pub open spec fn spec_cg_store(st: CgState, ty: Type, src: ArgV, dest: Seq<char>) -> Result<CgState, CodegenError> {
    let load: Option<(Seq<char>, Type)> = match src {
        ArgV::Imm(v) => match spec_move_text(ty, 8, v) {
            Some(m) => Some((m, ty)),
            None => None,
        },
        ArgV::Sym(n) | ArgV::Temp(n) => match sget(st.vars, n) {
            Some((sty, saddr)) => match spec_load_text(sty, 8, saddr) {
                Some(l) => Some((l, sty)),
                None => None,
            },
            None => None,
        },
    };
    match load {
        None => Err(CodegenError::Abort),
        Some((l, vty)) => match sget(st.vars, dest) {
            Some((dty, daddr)) => match spec_store_text(dty, 8, daddr) {
                Some(t) => Ok(CgState { data: st.data + l + t, ..st }),
                None => Err(CodegenError::Abort),
            },
            None => match spec_store_text(vty, 8, st.sp) {
                Some(t) => if st.sp + 8 > usize::MAX {
                    Err(CodegenError::Abort)
                } else {
                    Ok(
                        CgState {
                            data: st.data + l + t,
                            vars: sput(st.vars, dest, (vty, st.sp)),
                            sp: (st.sp + 8) as usize,
                            ..st
                        },
                    )
                },
                None => Err(CodegenError::Abort),
            },
        },
    }
}

pub open spec fn spec_cg_expr(
    st: CgState,
    ty: Type,
    lhs: ArgV,
    rhs: ArgV,
    op: Op,
    dest: Seq<char>,
) -> Result<CgState, CodegenError> {
    let re: Option<(Type, usize)> = sget(st.vars, dest);
    let tst = match re {
        Some((t, _)) => t,
        None => ty,
    };
    let addr = match re {
        Some((_, a)) => a,
        None => st.sp,
    };
    match (
        spec_operand_text(st, lhs, 9, "    mov     x9, "@),
        spec_operand_text(st, rhs, 10, "    mov     x10, "@),
        spec_operation_text(op, ty, dest),
        spec_store_text(tst, 8, addr),
    ) {
        (Some(l), Some(r), Some(o), Some(t)) => {
            let data = st.data + l + r + o + t;
            match re {
                Some((_, a)) => Ok(CgState { data, vars: sput(st.vars, dest, (tst, a)), ..st }),
                None => if st.sp + 8 > usize::MAX {
                    Err(CodegenError::Abort)
                } else {
                    Ok(
                        CgState {
                            data,
                            vars: sput(st.vars, dest, (tst, st.sp)),
                            sp: (st.sp + 8) as usize,
                            ..st
                        },
                    )
                },
            }
        },
        _ => Err(CodegenError::Abort),
    }
}

/// The parameters of a definition: each becomes a variable at offset 0.
pub open spec fn spec_def_params(
    vars: Seq<(Seq<char>, (Type, usize))>,
    a: Seq<(ArgV, Type)>,
) -> Option<(Seq<(Seq<char>, (Type, usize))>, Seq<(Seq<char>, Type)>)>
    decreases a.len(),
{
    if a.len() == 0 {
        Some((vars, Seq::empty()))
    } else {
        match a[0].0 {
            ArgV::Imm(_) => None,
            ArgV::Sym(n) | ArgV::Temp(n) => match spec_def_params(
                sput(vars, n, (a[0].1, 0)),
                a.subrange(1, a.len() as int),
            ) {
                Some((v2, ps)) => Some((v2, seq![(n, a[0].1)] + ps)),
                None => None,
            },
        }
    }
}

pub open spec fn spec_cg_define(
    st: CgState,
    return_ty: Type,
    name: Seq<char>,
    args: Option<Seq<(ArgV, Type)>>,
) -> Result<CgState, CodegenError> {
    let head = if name == "main"@ {
        "_main:\n"@
    } else {
        name + ":\n"@
    };
    let st1 = CgState { data: st.data + head, ..st };
    match args {
        None => Ok(st1),
        Some(a) => match spec_def_params(st1.vars, a) {
            None => Err(CodegenError::Abort),
            Some((vars, ps)) => Ok(
                CgState {
                    vars,
                    fm: sput(
                        st1.fm,
                        name,
                        (
                            return_ty,
                            if ps.len() > 0 {
                                Some(ps)
                            } else {
                                None
                            },
                        ),
                    ),
                    ..st1
                },
            ),
        },
    }
}

/// The arguments of a call from the `i`-th on, each into register `i`.
pub open spec fn spec_call_args(st: CgState, name: Seq<char>, a: Seq<(ArgV, Type)>, i: usize) -> Result<
    CgState,
    CodegenError,
>
    decreases a.len() - i,
{
    if i >= a.len() || i == usize::MAX {
        Ok(st)
    } else {
        let ty = a[i as int].1;
        let r1: Result<CgState, CodegenError> = match a[i as int].0 {
            ArgV::Imm(v) => match (spec_move_text(ty, i, v), spec_store_text(ty, i, st.sp)) {
                (Some(m), Some(t)) => {
                    let st1 = CgState { data: st.data + m + t, ..st };
                    match sget(st.fm, name) {
                        None => Ok(st1),
                        Some(sig) => match sig.1 {
                            None => Err(CodegenError::Abort),
                            Some(ps) => if i >= ps.len() || st.sp + 8 > usize::MAX {
                                Err(CodegenError::Abort)
                            } else {
                                Ok(
                                    CgState {
                                        vars: sput(st1.vars, ps[i as int].0, (ps[i as int].1, st.sp)),
                                        sp: (st.sp + 8) as usize,
                                        ..st1
                                    },
                                )
                            },
                        },
                    }
                },
                _ => Err(CodegenError::Abort),
            },
            ArgV::Sym(n) | ArgV::Temp(n) => match sget(st.vars, n) {
                None => Err(CodegenError::Abort),
                Some((vty, addr)) => match spec_load_text(vty, i, addr) {
                    None => Err(CodegenError::Abort),
                    Some(l) => Ok(CgState { data: st.data + l, ..st }),
                },
            },
        };
        match r1 {
            Err(e) => Err(e),
            Ok(st1) => spec_call_args(st1, name, a, (i + 1) as usize),
        }
    }
}

pub open spec fn spec_cg_call(st: CgState, name: Seq<char>, args: Option<Seq<(ArgV, Type)>>) -> Result<
    CgState,
    CodegenError,
> {
    let r1 = match args {
        None => Ok(st),
        Some(a) => spec_call_args(st, name, a, 0),
    };
    match r1 {
        Err(e) => Err(e),
        Ok(st1) => Ok(CgState { data: st1.data + "    bl      "@ + name + "\n"@, ..st1 }),
    }
}

pub open spec fn spec_cg_br(st: CgState, label: Seq<char>, flag: Option<Seq<char>>) -> Result<CgState, CodegenError> {
    match flag {
        Some(f) => match sget(st.vars, f) {
            None => Err(CodegenError::Abort),
            Some((ty, addr)) => match spec_load_text(ty, 8, addr) {
                None => Err(CodegenError::Abort),
                Some(l) => Ok(CgState { data: st.data + l + "    cbnz    w8, "@ + label + "\n"@, ..st }),
            },
        },
        None => Ok(CgState { data: st.data + "    b       "@ + label + "\n"@, ..st }),
    }
}

pub open spec fn spec_cg_node(st: CgState, n: KNodeV) -> Result<CgState, CodegenError> {
    match n {
        KNodeV::Alloca { .. } => Ok(st),
        KNodeV::Store { ty, src, dest } => spec_cg_store(st, ty, src, dest),
        KNodeV::Expr { ty, lhs, rhs, op, dest } => spec_cg_expr(st, ty, lhs, rhs, op, dest),
        KNodeV::Define { return_ty, name, args } => spec_cg_define(st, return_ty, name, args),
        KNodeV::Call { name, args, .. } => spec_cg_call(st, name, args),
        KNodeV::Br { label, flag } => spec_cg_br(st, label, flag),
        KNodeV::Label { name } => Ok(CgState { data: st.data + name + ":\n"@, ..st }),
    }
}

pub open spec fn spec_cg_nodes(st: CgState, ns: Seq<KNodeV>) -> Result<CgState, CodegenError>
    decreases ns.len(),
{
    if ns.len() == 0 {
        Ok(st)
    } else {
        match spec_cg_node(st, ns[0]) {
            Err(e) => Err(e),
            Ok(st1) => spec_cg_nodes(st1, ns.subrange(1, ns.len() as int)),
        }
    }
}

/// Each function in turn, from an empty text, stack and set of variables;
/// the signatures carry over. Gives the signatures and the texts, in order.
pub open spec fn spec_cg_scopes(fm: Seq<(Seq<char>, FnSigV)>, scopes: Seq<ProgScopeV>) -> Result<
    (Seq<(Seq<char>, FnSigV)>, Seq<char>),
    CodegenError,
>
    decreases scopes.len(),
{
    if scopes.len() == 0 {
        Ok((fm, Seq::empty()))
    } else {
        match spec_cg_nodes(CgState { fm, data: Seq::empty(), sp: 0, vars: Seq::empty() }, scopes[0].nodes) {
            Err(e) => Err(e),
            Ok(st) => match spec_cg_scopes(st.fm, scopes.subrange(1, scopes.len() as int)) {
                Err(e) => Err(e),
                Ok((fm2, rest)) => Ok((fm2, st.data + rest)),
            },
        }
    }
}

pub open spec fn spec_header() -> Seq<char> {
    ".global "@ + "_main"@ + "\n.align "@ + spec_decimal(4) + "\n"@
}

/// The whole assembly text: the header, what was there before, the functions,
/// then the stack adjustments by the aligned global stack size.
pub open spec fn spec_generate(
    text: Seq<char>,
    sp: usize,
    fm: Seq<(Seq<char>, FnSigV)>,
    scopes: Seq<ProgScopeV>,
) -> Result<Seq<char>, CodegenError> {
    match spec_cg_scopes(fm, scopes) {
        Err(e) => Err(e),
        Ok((_, datas)) => if spec_align16(sp) > usize::MAX {
            Err(CodegenError::Abort)
        } else {
            let a = spec_align16(sp) as nat;
            Ok(
                spec_header() + text + datas + "    add     sp, sp, "@ + spec_decimal(a) + "\n"@
                    + "    sub     sp, sp, "@ + spec_decimal(a) + "\n"@,
            )
        },
    }
}

// ---------------------------------------------------------------------------
// The generator.

struct AsmMetadata {
    entry: String,
    align: usize,
}

/// The text of one function while it is generated.
struct AsmScope {
    id: String,
    data: String,
    stackptr: usize,
    vars: Vec<(String, (Type, usize))>,
}

pub open spec fn cgs(fm: Seq<(Seq<char>, FnSigV)>, data: Seq<char>, sp: usize, vars: Seq<(Seq<char>, (Type, usize))>) -> CgState {
    CgState { fm, data, sp, vars }
}

/// Turns the instruction lists of the functions into AArch64 assembly text.
pub struct CodeGenerator {
    scopes: Vec<ProgScope>,
    pub asm_out: String,
    stackptr: usize,
    vars: Vec<(String, (Type, usize))>,
    fns_map: Vec<(String, FnSig)>,
}

/// Appends `m`, the register number, `, [sp, `, the offset and `]`.
fn push_mem(data: &mut String, m: &str, reg: usize, addr: usize)
    ensures
        final(data)@ == old(data)@ + spec_mem_text(m@, reg, addr),
{
    data.append(m);
    push_decimal(data, reg as u128);
    data.append(", [sp, ");
    push_decimal(data, addr as u128);
    data.append("]\n");
    proof {
        assert(final(data)@ =~= old(data)@ + spec_mem_text(m@, reg, addr));
    }
}

fn load_mnemonic(ty: &Type) -> (r: Option<&'static str>)
    ensures
        match r {
            Some(m) => spec_load_mnemonic(*ty) == Some(m@),
            None => spec_load_mnemonic(*ty) is None,
        },
{
    match ty {
        Type::I8 => Some("    ldrsb   x"),
        Type::I16 => Some("    ldrsh   x"),
        Type::I32 => Some("    ldrsw   x"),
        Type::U8 | Type::Char | Type::Bool => Some("    ldrb    w"),
        Type::U16 => Some("    ldrh    w"),
        Type::U32 => Some("    ldr     w"),
        Type::I64 | Type::U64 | Type::Usize => Some("    ldr     x"),
        _ => None,
    }
}

fn store_mnemonic(ty: &Type) -> (r: Option<&'static str>)
    ensures
        match r {
            Some(m) => spec_store_mnemonic(*ty) == Some(m@),
            None => spec_store_mnemonic(*ty) is None,
        },
{
    match ty {
        Type::I8 | Type::U8 | Type::Char | Type::Bool => Some("    strb    w"),
        Type::I16 | Type::U16 => Some("    strh    w"),
        Type::I32 | Type::U32 => Some("    str     w"),
        Type::I64 | Type::U64 | Type::Usize => Some("    str     x"),
        _ => None,
    }
}

fn op_text(op: &Op, ty: &Type) -> (r: Option<&'static str>)
    ensures
        match r {
            Some(t) => spec_op_text(*op, *ty) == Some(t@),
            None => spec_op_text(*op, *ty) is None,
        },
{
    match op {
        Op::Add => Some("    add     x8, x9, x10\n"),
        Op::Sub => Some("    sub     x8, x9, x10\n"),
        Op::Mul => Some("    mul     x8, x9, x10\n"),
        Op::Lsl => Some("    lsl     x8, x9, x10\n"),
        Op::Lsr => Some("    lsr     x8, x9, x10\n"),
        Op::Asr => Some("    asr     x8, x9, x10\n"),
        Op::BwAnd => Some("    and     x8, x9, x10\n"),
        Op::BwOr => Some("    orr     x8, x9, x10\n"),
        Op::BwXor => Some("    eor     x8, x9, x10\n"),
        Op::BwNot => Some("    mvn     x8, x9\n"),
        Op::Div => if ty.is_signed() {
            Some("    sdiv    x8, x9, x10\n")
        } else {
            Some("    udiv    x8, x9, x10\n")
        },
        Op::Mod => if ty.is_signed() {
            Some("    sdiv    x8, x9, x10\n    mul     x10, x8, x10\n    sub     x8, x9, x10\n")
        } else {
            Some("    udiv    x8, x9, x10\n    mul     x10, x8, x10\n    sub     x8, x9, x10\n")
        },
        Op::LgAnd => Some(
            "    cmp     x9, 0\n    cset    x9, ne\n    cmp     x10, 0\n    cset    x10, ne\n    and     x8, x9, x10\n    cmp     x8, 0\n    cset    x8, ne\n",
        ),
        Op::LgOr => Some(
            "    cmp     x9, 0\n    cset    x9, ne\n    cmp     x10, 0\n    cset    x10, ne\n    orr     x8, x9, x10\n    cmp     x8, 0\n    cset    x8, ne\n",
        ),
        Op::Lt => Some("    cmp     x9, x10\n    cset    x8, lt\n"),
        Op::Gt => Some("    cmp     x9, x10\n    cset    x8, gt\n"),
        Op::Lte => Some("    cmp     x9, x10\n    cset    x8, le\n"),
        Op::Gte => Some("    cmp     x9, x10\n    cset    x8, ge\n"),
        Op::Eq => Some("    cmp     x9, x10\n    cset    x8, eq\n"),
        Op::Neq => Some("    cmp     x9, x10\n    cset    x8, ne\n"),
        _ => None,
    }
}

/// Appends `movk` of a piece into register `<rl><reg>` when it is not zero.
fn push_movk(data: &mut String, rl: &str, reg: usize, piece: u16, shift: &str)
    ensures
        final(data)@ == old(data)@ + spec_movk(rl@, reg, piece, shift@),
{
    if piece != 0 {
        data.append("    movk    ");
        data.append(rl);
        push_decimal(data, reg as u128);
        data.append(", 0x");
        push_hex(data, piece as u128);
        data.append(", lsl ");
        data.append(shift);
        data.append("\n");
        proof {
            assert(final(data)@ =~= old(data)@ + spec_movk(rl@, reg, piece, shift@));
        }
    } else {
        proof {
            assert(final(data)@ =~= old(data)@ + spec_movk(rl@, reg, piece, shift@));
        }
    }
}

fn sig_find(v: &Vec<(String, FnSig)>, k: &String) -> (r: Option<usize>)
    ensures
        match r {
            Some(i) => i < v@.len() && sfind(fns_view(v@), k@, 0) == Some(i as int),
            None => sfind(fns_view(v@), k@, 0) is None,
        },
{
    let ghost vs = fns_view(v@);
    let mut i: usize = 0;
    while i < v.len()
        invariant
            i <= v@.len(),
            vs == fns_view(v@),
            vs.len() == v@.len(),
            forall|j: int| 0 <= j < i ==> vs[j].0 != k@,
        decreases v@.len() - i,
    {
        assert(vs[i as int] == (v@[i as int].0@, sig_view(v@[i as int].1)));
        if v[i].0 == *k {
            proof {
                lemma_sfind_skip(vs, k@, i as int);
            }
            return Some(i);
        }
        i = i + 1;
    }
    proof {
        lemma_sfind_skip(vs, k@, i as int);
    }
    None
}

fn sig_put(v: &mut Vec<(String, FnSig)>, k: String, sig: FnSig)
    ensures
        fns_view(final(v)@) == sput(fns_view(old(v)@), k@, sig_view(sig)),
{
    let ghost vs = fns_view(v@);
    let ghost kv = k@;
    let ghost sv = sig_view(sig);
    match sig_find(v, &k) {
        Some(i) => {
            v.set(i, (k, sig));
            proof {
                assert(fns_view(v@) =~= vs.update(i as int, (kv, sv)));
            }
        },
        None => {
            v.push((k, sig));
            proof {
                assert(fns_view(v@) =~= vs.push((kv, sv)));
            }
        },
    }
}

fn is_main(name: &String) -> (r: bool)
    ensures
        r == (name@ == "main"@),
{
    proof {
        reveal_strlit("main");
    }
    let s = name.as_str();
    let n = s.unicode_len();
    if n == 4 && s.get_char(0) == 'm' && s.get_char(1) == 'a' && s.get_char(2) == 'i' && s.get_char(3) == 'n' {
        assert(name@ =~= "main"@);
        true
    } else {
        false
    }
}

pub open spec fn params_result(
    r: Option<(Seq<(Seq<char>, (Type, usize))>, Seq<(Seq<char>, Type)>)>,
    done: Seq<(Seq<char>, Type)>,
) -> Option<(Seq<(Seq<char>, (Type, usize))>, Seq<(Seq<char>, Type)>)> {
    match r {
        Some((v, ps)) => Some((v, done + ps)),
        None => None,
    }
}


impl CodeGenerator {
    pub closed spec fn text(&self) -> Seq<char> {
        self.asm_out@
    }

    pub closed spec fn ir(&self) -> Seq<ProgScopeV> {
        scopes_view(self.scopes@)
    }

    pub closed spec fn global_sp(&self) -> usize {
        self.stackptr
    }

    pub closed spec fn sigs(&self) -> Seq<(Seq<char>, FnSigV)> {
        fns_view(self.fns_map@)
    }

    pub fn new(scopes: Vec<ProgScope>) -> (r: CodeGenerator)
        ensures
            r.ir() == scopes_view(scopes@),
            r.text() == Seq::<char>::empty(),
            r.global_sp() == 0,
            r.sigs() == Seq::<(Seq<char>, FnSigV)>::empty(),
    {
        let r = CodeGenerator {
            scopes,
            asm_out: String::new(),
            fns_map: Vec::new(),
            stackptr: 0,
            vars: Vec::new(),
        };
        proof {
            assert(r.text() =~= Seq::<char>::empty());
            assert(r.sigs() =~= Seq::<(Seq<char>, FnSigV)>::empty());
        }
        r
    }

    fn emit_typed_load(&mut self, ty: &Type, reg_idx: usize, addr: usize, scp: &mut AsmScope) -> (r: Result<(), CodegenError>)
        ensures
            *final(self) == *old(self),
            final(self).sigs() == old(self).sigs(),
            final(scp).stackptr == old(scp).stackptr,
            final(scp).vars@ == old(scp).vars@,
            match spec_load_text(*ty, reg_idx, addr) {
                Some(t) => r is Ok && final(scp).data@ == old(scp).data@ + t,
                None => r == Err::<(), CodegenError>(CodegenError::Abort),
            },
    {
        match load_mnemonic(ty) {
            Some(m) => {
                push_mem(&mut scp.data, m, reg_idx, addr);
                Ok(())
            },
            None => Err(CodegenError::Abort),
        }
    }

    fn emit_typed_store(&mut self, ty: &Type, reg_idx: usize, reassign_addr: Option<usize>, scp: &mut AsmScope) -> (r: Result<(), CodegenError>)
        ensures
            *final(self) == *old(self),
            final(self).sigs() == old(self).sigs(),
            final(scp).stackptr == old(scp).stackptr,
            final(scp).vars@ == old(scp).vars@,
            match spec_store_text(
                *ty,
                reg_idx,
                match reassign_addr {
                    Some(a) => a,
                    None => old(scp).stackptr,
                },
            ) {
                Some(t) => r is Ok && final(scp).data@ == old(scp).data@ + t,
                None => r == Err::<(), CodegenError>(CodegenError::Abort),
            },
    {
        let addr = match reassign_addr {
            Some(a) => a,
            None => scp.stackptr,
        };
        match store_mnemonic(ty) {
            Some(m) => {
                push_mem(&mut scp.data, m, reg_idx, addr);
                Ok(())
            },
            None => Err(CodegenError::Abort),
        }
    }

    fn emit_operation(&mut self, op: &Op, ty: &Type, dest: &String, scp: &mut AsmScope) -> (r: Result<(), CodegenError>)
        ensures
            *final(self) == *old(self),
            final(self).sigs() == old(self).sigs(),
            final(scp).stackptr == old(scp).stackptr,
            final(scp).vars@ == old(scp).vars@,
            match spec_operation_text(*op, *ty, dest@) {
                Some(t) => r is Ok && final(scp).data@ == old(scp).data@ + t,
                None => r == Err::<(), CodegenError>(CodegenError::Abort),
            },
    {
        if *op == Op::Pwr {
            let ghost d0 = scp.data@;
            let d = dest.as_str();
            scp.data.append("    cbnz    x10, BASE_CASE_");
            scp.data.append(d);
            scp.data.append("\n    mov     x8, 1\n    b       PWR_LOOP_END_");
            scp.data.append(d);
            scp.data.append("\nBASE_CASE_");
            scp.data.append(d);
            scp.data.append(":\n    mov     x8, x9\n    cmp     x10, 1\n    bne     PWR_LOOP_START_");
            scp.data.append(d);
            scp.data.append("\n    b       PWR_LOOP_END_");
            scp.data.append(d);
            scp.data.append("\nPWR_LOOP_START_");
            scp.data.append(d);
            scp.data.append(":\n    sub     x10, x10, 1\n    cbz    x10, PWR_LOOP_END_");
            scp.data.append(d);
            scp.data.append("\n    mul     x8, x8, x9\n    b       PWR_LOOP_START_");
            scp.data.append(d);
            scp.data.append("\nPWR_LOOP_END_");
            scp.data.append(d);
            scp.data.append(":\n");
            proof {
                assert(scp.data@ =~= d0 + spec_pwr_text(dest@));
            }
            return Ok(());
        }
        match op_text(op, ty) {
            Some(t) => {
                scp.data.append(t);
                Ok(())
            },
            None => Err(CodegenError::Abort),
        }
    }

    fn emit_typed_move(&mut self, ty: &Type, reg_idx: usize, val: i128, scp: &mut AsmScope) -> (r: Result<(), CodegenError>)
        ensures
            *final(self) == *old(self),
            final(self).sigs() == old(self).sigs(),
            final(scp).stackptr == old(scp).stackptr,
            final(scp).vars@ == old(scp).vars@,
            match spec_move_text(*ty, reg_idx, val) {
                Some(t) => r is Ok && final(scp).data@ == old(scp).data@ + t,
                None => r == Err::<(), CodegenError>(CodegenError::Abort),
            },
    {
        let low = (val & 0xFFFF) as u16;
        let low_med = (val >> 16u32) as u16;
        let high_med = (val >> 32u32) as u16;
        let high = (val >> 48u32) as u16;
        let wide = match ty {
            Type::I8 | Type::Bool | Type::Char | Type::I16 | Type::U8 | Type::U16 | Type::I32 | Type::U32 => false,
            Type::I64 | Type::U64 | Type::Usize => true,
            _ => {
                return Err(CodegenError::Abort);
            },
        };
        let rl: &str = if wide {
            "x"
        } else {
            "w"
        };
        let ghost d0 = scp.data@;
        scp.data.append("    mov     ");
        scp.data.append(rl);
        push_decimal(&mut scp.data, reg_idx as u128);
        scp.data.append(", 0x");
        push_hex(&mut scp.data, low as u128);
        scp.data.append("\n");
        let ghost first = spec_mov_low(rl@, reg_idx, val);
        proof {
            assert(scp.data@ =~= d0 + first);
        }
        push_movk(&mut scp.data, rl, reg_idx, low_med, "16");
        if wide {
            push_movk(&mut scp.data, rl, reg_idx, high_med, "32");
            push_movk(&mut scp.data, rl, reg_idx, high, "48");
            proof {
                assert(scp.data@ =~= d0 + (first + spec_movk(rl@, reg_idx, chunk1(val), "16"@) + spec_movk(
                    rl@,
                    reg_idx,
                    chunk2(val),
                    "32"@,
                ) + spec_movk(rl@, reg_idx, chunk3(val), "48"@)));
            }
        } else {
            proof {
                assert(scp.data@ =~= d0 + (first + spec_movk(rl@, reg_idx, chunk1(val), "16"@)));
            }
        }
        Ok(())
    }

    fn emit_epilogue(&mut self, amt: usize)
        ensures
            final(self).text() == old(self).text() + "    add     sp, sp, "@ + spec_decimal(amt as nat) + "\n"@,
            final(self).ir() == old(self).ir(),
            final(self).sigs() == old(self).sigs(),
            final(self).global_sp() == old(self).global_sp(),
    {
        self.asm_out.append("    add     sp, sp, ");
        push_decimal(&mut self.asm_out, amt as u128);
        self.asm_out.append("\n");
    }

    fn emit_prologue(&mut self, amt: usize)
        ensures
            final(self).text() == old(self).text() + "    sub     sp, sp, "@ + spec_decimal(amt as nat) + "\n"@,
            final(self).ir() == old(self).ir(),
            final(self).sigs() == old(self).sigs(),
            final(self).global_sp() == old(self).global_sp(),
    {
        self.asm_out.append("    sub     sp, sp, ");
        push_decimal(&mut self.asm_out, amt as u128);
        self.asm_out.append("\n");
    }

    fn emit_metadata(&mut self, md: AsmMetadata)
        ensures
            final(self).text() == ".global "@ + md.entry@ + "\n.align "@ + spec_decimal(md.align as nat) + "\n"@
                + old(self).text(),
            final(self).ir() == old(self).ir(),
            final(self).sigs() == old(self).sigs(),
            final(self).global_sp() == old(self).global_sp(),
    {
        let mut head = String::new();
        head.append(".global ");
        head.append(md.entry.as_str());
        head.append("\n.align ");
        push_decimal(&mut head, md.align as u128);
        head.append("\n");
        head.append(self.asm_out.as_str());
        self.asm_out = head;
    }
    spec fn cstate(&self, scp: AsmScope) -> CgState {
        cgs(self.sigs(), scp.data@, scp.stackptr, vars_view(scp.vars@))
    }

    fn visit_store(&mut self, store: &Store, scp: &mut AsmScope) -> (r: Result<(), CodegenError>)
        ensures
            final(self).ir() == old(self).ir(),
            final(self).text() == old(self).text(),
            final(self).global_sp() == old(self).global_sp(),
            match spec_cg_store(old(self).cstate(*old(scp)), store.ty, store.src@, store.dest@) {
                Ok(st) => r is Ok && final(self).cstate(*final(scp)) == st,
                Err(e) => r == Err::<(), CodegenError>(e),
            },
    {
        let ghost st0 = self.cstate(*scp);
        let vty: Type = match &store.src {
            ArgType::Imm(val) => {
                if let Err(e) = self.emit_typed_move(&store.ty, 8, *val, scp) {
                    return Err(e);
                }
                store.ty
            },
            ArgType::Sym(name) | ArgType::Temp(name) => {
                let (src_ty, src_addr) = match var_get(&scp.vars, name) {
                    Some(p) => p,
                    None => {
                        return Err(CodegenError::Abort);
                    },
                };
                if let Err(e) = self.emit_typed_load(&src_ty, 8, src_addr, scp) {
                    return Err(e);
                }
                src_ty
            },
        };
        match var_get(&scp.vars, &store.dest) {
            Some((dst_ty, dst_addr)) => {
                self.emit_typed_store(&dst_ty, 8, Some(dst_addr), scp)
            },
            None => {
                if let Err(e) = self.emit_typed_store(&vty, 8, None, scp) {
                    return Err(e);
                }
                if scp.stackptr > usize::MAX - 8 {
                    return Err(CodegenError::Abort);
                }
                let sp = scp.stackptr;
                var_put(&mut scp.vars, store.dest.clone(), (vty, sp));
                scp.stackptr = scp.stackptr + 8;
                Ok(())
            },
        }
    }

    /// Loads an operand into register `reg` (9 or 10).
    fn load_operand(&mut self, a: &ArgType, reg: usize, imm_prefix: &str, scp: &mut AsmScope) -> (r: Result<(), CodegenError>)
        ensures
            *final(self) == *old(self),
            final(self).sigs() == old(self).sigs(),
            final(self).ir() == old(self).ir(),
            final(self).text() == old(self).text(),
            final(self).global_sp() == old(self).global_sp(),
            final(scp).stackptr == old(scp).stackptr,
            final(scp).vars@ == old(scp).vars@,
            match spec_operand_text(old(self).cstate(*old(scp)), a@, reg, imm_prefix@) {
                Some(t) => r is Ok && final(scp).data@ == old(scp).data@ + t,
                None => r == Err::<(), CodegenError>(CodegenError::Abort),
            },
    {
        match a {
            ArgType::Sym(name) | ArgType::Temp(name) => {
                let (ty, addr) = match var_get(&scp.vars, name) {
                    Some(p) => p,
                    None => {
                        return Err(CodegenError::Abort);
                    },
                };
                self.emit_typed_load(&ty, reg, addr, scp)
            },
            ArgType::Imm(val) => {
                let ghost d0 = scp.data@;
                scp.data.append(imm_prefix);
                push_int(&mut scp.data, *val);
                scp.data.append("\n");
                proof {
                    assert(scp.data@ =~= d0 + (imm_prefix@ + spec_int_text(*val as int) + "\n"@));
                }
                Ok(())
            },
        }
    }

    fn visit_expr(&mut self, expr: &Expr, scp: &mut AsmScope) -> (r: Result<(), CodegenError>)
        ensures
            final(self).ir() == old(self).ir(),
            final(self).text() == old(self).text(),
            final(self).global_sp() == old(self).global_sp(),
            match spec_cg_expr(old(self).cstate(*old(scp)), expr.ty, expr.lhs@, expr.rhs@, expr.op, expr.dest@) {
                Ok(st) => r is Ok && final(self).cstate(*final(scp)) == st,
                Err(e) => r == Err::<(), CodegenError>(e),
            },
    {
        let ghost st0 = self.cstate(*scp);
        let ghost d0 = scp.data@;
        if let Err(e) = self.load_operand(&expr.lhs, 9, "    mov     x9, ", scp) {
            return Err(e);
        }
        let ghost d1 = scp.data@;
        if let Err(e) = self.load_operand(&expr.rhs, 10, "    mov     x10, ", scp) {
            return Err(e);
        }
        let ghost d2 = scp.data@;
        let mut reassign_addr: Option<usize> = None;
        let mut ty_to_store = expr.ty;
        match var_get(&scp.vars, &expr.dest) {
            Some((ty, sym_addr)) => {
                reassign_addr = Some(sym_addr);
                ty_to_store = ty;
            },
            None => {},
        }
        if let Err(e) = self.emit_operation(&expr.op, &expr.ty, &expr.dest, scp) {
            return Err(e);
        }
        let ghost d3 = scp.data@;
        if let Err(e) = self.emit_typed_store(&ty_to_store, 8, reassign_addr, scp) {
            return Err(e);
        }
        let addr = match reassign_addr {
            Some(readdr) => readdr,
            None => {
                if scp.stackptr > usize::MAX - 8 {
                    return Err(CodegenError::Abort);
                }
                let ret = scp.stackptr;
                scp.stackptr = scp.stackptr + 8;
                ret
            },
        };
        proof {
            assert(scp.data@ =~= d0 + d1.subrange(d0.len() as int, d1.len() as int) + d2.subrange(
                d1.len() as int,
                d2.len() as int,
            ) + d3.subrange(d2.len() as int, d3.len() as int) + scp.data@.subrange(
                d3.len() as int,
                scp.data@.len() as int,
            ));
        }
        var_put(&mut scp.vars, expr.dest.clone(), (ty_to_store, addr));
        Ok(())
    }
    fn visit_define(&mut self, define: &Define, scp: &mut AsmScope) -> (r: Result<(), CodegenError>)
        ensures
            final(self).ir() == old(self).ir(),
            final(self).text() == old(self).text(),
            final(self).global_sp() == old(self).global_sp(),
            match spec_cg_define(
                old(self).cstate(*old(scp)),
                define.return_ty,
                define.name@,
                crate::irgenerator::opt_args_view(define.args),
            ) {
                Ok(st) => r is Ok && final(self).cstate(*final(scp)) == st,
                Err(e) => r == Err::<(), CodegenError>(e),
            },
    {
        if is_main(&define.name) {
            scp.data.append("_main:\n");
        } else {
            scp.data.append(define.name.as_str());
            scp.data.append(":\n");
            proof {
                assert(scp.data@ =~= old(scp).data@ + (define.name@ + ":\n"@));
            }
        }
        let ghost data1 = scp.data@;
        match &define.args {
            None => Ok(()),
            Some(args) => {
                let ghost av = crate::irgenerator::args_view(args@);
                let ghost n = args@.len();
                let ghost goal = spec_def_params(vars_view(scp.vars@), av);
                let mut args_vec: Vec<(String, Type)> = Vec::new();
                let mut i: usize = 0;
                proof {
                    assert(av.subrange(0, n as int) =~= av);
                    match goal {
                        Some((v, ps)) => {
                            assert(Seq::<(Seq<char>, Type)>::empty() + ps =~= ps);
                        },
                        None => {},
                    }
                }
                while i < args.len()
                    invariant
                        i <= n,
                        n == args@.len(),
                        av == crate::irgenerator::args_view(args@),
                        av.len() == n,
                        goal == spec_def_params(vars_view(old(scp).vars@), av),
                        crate::irgenerator::opt_args_view(define.args) == Some(av),
                        scp.data@ == data1,
                        self.sigs() == old(self).sigs(),
                        self.ir() == old(self).ir(),
                        self.text() == old(self).text(),
                        self.global_sp() == old(self).global_sp(),
                        scp.stackptr == old(scp).stackptr,
                        params_result(
                            spec_def_params(vars_view(scp.vars@), av.subrange(i as int, n as int)),
                            params_view(args_vec@),
                        ) == params_result(goal, Seq::empty()),
                    decreases n - i,
                {
                    let ghost rest = av.subrange(i as int, n as int);
                    let ghost pv = params_view(args_vec@);
                    proof {
                        assert(rest[0] == av[i as int]);
                        assert(av[i as int] == (args@[i as int].0@, args@[i as int].1));
                        assert(rest.subrange(1, rest.len() as int) =~= av.subrange(i + 1, n as int));
                    }
                    let ty = args[i].1;
                    match &args[i].0 {
                        ArgType::Imm(_) => {
                            return Err(CodegenError::Abort);
                        },
                        ArgType::Temp(name) | ArgType::Sym(name) => {
                            var_put(&mut scp.vars, name.clone(), (ty, 0));
                            args_vec.push((name.clone(), ty));
                            proof {
                                assert(params_view(args_vec@) =~= pv + seq![(name@, ty)]);
                                match spec_def_params(vars_view(scp.vars@), rest.subrange(1, rest.len() as int)) {
                                    Some((v2, ps)) => {
                                        assert(pv + seq![(name@, ty)] + ps =~= pv + (seq![(name@, ty)] + ps));
                                    },
                                    None => {},
                                }
                            }
                        },
                    }
                    i = i + 1;
                }
                proof {
                    assert(av.subrange(n as int, n as int) =~= Seq::<(ArgV, Type)>::empty());
                    assert(params_view(args_vec@) + Seq::<(Seq<char>, Type)>::empty() =~= params_view(args_vec@));
                }
                let ghost pv = params_view(args_vec@);
                let has = args_vec.len() > 0;
                let sig: FnSig = (define.return_ty, if has { Some(args_vec) } else { None });
                proof {
                    assert(sig_view(sig).1 == (if pv.len() > 0 { Some(pv) } else { None::<Seq<(Seq<char>, Type)>> }));
                }
                sig_put(&mut self.fns_map, define.name.clone(), sig);
                Ok(())
            },
        }
    }

    fn visit_call(&mut self, call: &Call, scp: &mut AsmScope) -> (r: Result<(), CodegenError>)
        ensures
            final(self).ir() == old(self).ir(),
            final(self).text() == old(self).text(),
            final(self).global_sp() == old(self).global_sp(),
            final(self).sigs() == old(self).sigs(),
            match spec_cg_call(old(self).cstate(*old(scp)), call.name@, crate::irgenerator::opt_args_view(call.args)) {
                Ok(st) => r is Ok && final(self).cstate(*final(scp)) == st,
                Err(e) => r == Err::<(), CodegenError>(e),
            },
    {
        match &call.args {
            None => {},
            Some(args) => {
                let ghost av = crate::irgenerator::args_view(args@);
                let ghost goal = spec_call_args(self.cstate(*scp), call.name@, av, 0);
                let mut argc: usize = 0;
                while argc < args.len()
                    invariant
                        argc <= args@.len(),
                        av == crate::irgenerator::args_view(args@),
                        av.len() == args@.len(),
                        *self == *old(self),
                        crate::irgenerator::opt_args_view(call.args) == Some(av),
                        goal == spec_call_args(old(self).cstate(*old(scp)), call.name@, av, 0),
                        spec_call_args(self.cstate(*scp), call.name@, av, argc) == goal,
                    decreases args@.len() - argc,
                {
                    let ghost st0 = self.cstate(*scp);
                    proof {
                        assert(av[argc as int] == (args@[argc as int].0@, args@[argc as int].1));
                    }
                    let ty = args[argc].1;
                    match &args[argc].0 {
                        ArgType::Imm(val) => {
                            if let Err(e) = self.emit_typed_move(&ty, argc, *val, scp) {
                                proof {
                                    assert(av[argc as int].0 == ArgV::Imm(*val));
                                    assert(spec_move_text(ty, argc, *val) is None);
                                    assert(spec_call_args(st0, call.name@, av, argc) is Err);
                                }
                                return Err(e);
                            }
                            if let Err(e) = self.emit_typed_store(&ty, argc, None, scp) {
                                return Err(e);
                            }
                            match sig_find(&self.fns_map, &call.name) {
                                None => {},
                                Some(k) => {
                                    match &self.fns_map[k].1.1 {
                                        None => {
                                            return Err(CodegenError::Abort);
                                        },
                                        Some(ps) => {
                                            if argc >= ps.len() || scp.stackptr > usize::MAX - 8 {
                                                return Err(CodegenError::Abort);
                                            }
                                            proof {
                                                assert(params_view(ps@)[argc as int] == (ps@[argc as int].0@, ps@[argc as int].1));
                                            }
                                            let argname = ps[argc].0.clone();
                                            let arg_ty = ps[argc].1;
                                            let sp = scp.stackptr;
                                            var_put(&mut scp.vars, argname, (arg_ty, sp));
                                            scp.stackptr = scp.stackptr + 8;
                                        },
                                    }
                                },
                            }
                        },
                        ArgType::Temp(name) | ArgType::Sym(name) => {
                            let (var_ty, addr) = match var_get(&scp.vars, name) {
                                Some(p) => p,
                                None => {
                                    return Err(CodegenError::Abort);
                                },
                            };
                            if let Err(e) = self.emit_typed_load(&var_ty, argc, addr, scp) {
                                return Err(e);
                            }
                        },
                    }
                    argc = argc + 1;
                }
            },
        }
        let ghost d1 = scp.data@;
        scp.data.append("    bl      ");
        scp.data.append(call.name.as_str());
        scp.data.append("\n");
        proof {
            assert(scp.data@ =~= d1 + "    bl      "@ + call.name@ + "\n"@);
        }
        Ok(())
    }

    fn visit_br(&mut self, br: &Br, scp: &mut AsmScope) -> (r: Result<(), CodegenError>)
        ensures
            *final(self) == *old(self),
            match spec_cg_br(
                old(self).cstate(*old(scp)),
                br.label@,
                crate::irgenerator::opt_str_view(br.flag),
            ) {
                Ok(st) => r is Ok && final(self).cstate(*final(scp)) == st,
                Err(e) => r == Err::<(), CodegenError>(e),
            },
    {
        match &br.flag {
            Some(flag) => {
                let (ty, addr) = match var_get(&scp.vars, flag) {
                    Some(p) => p,
                    None => {
                        return Err(CodegenError::Abort);
                    },
                };
                if let Err(e) = self.emit_typed_load(&ty, 8, addr, scp) {
                    return Err(e);
                }
                scp.data.append("    cbnz    w8, ");
                scp.data.append(br.label.as_str());
                scp.data.append("\n");
            },
            None => {
                scp.data.append("    b       ");
                scp.data.append(br.label.as_str());
                scp.data.append("\n");
            },
        }
        Ok(())
    }
    fn gen_node(&mut self, node: &KlirNode, scp: &mut AsmScope) -> (r: Result<(), CodegenError>)
        ensures
            final(self).ir() == old(self).ir(),
            final(self).text() == old(self).text(),
            final(self).global_sp() == old(self).global_sp(),
            match spec_cg_node(old(self).cstate(*old(scp)), node@) {
                Ok(st) => r is Ok && final(self).cstate(*final(scp)) == st,
                Err(e) => r == Err::<(), CodegenError>(e),
            },
    {
        match node {
            KlirNode::Alloca(_alloca) => Ok(()),
            KlirNode::Store(store) => self.visit_store(store, scp),
            KlirNode::Expr(expr) => self.visit_expr(expr, scp),
            KlirNode::Define(define) => self.visit_define(define, scp),
            KlirNode::Call(call) => self.visit_call(call, scp),
            KlirNode::Br(br) => self.visit_br(br, scp),
            KlirNode::Label(label) => {
                scp.data.append(label.name.as_str());
                scp.data.append(":\n");
                Ok(())
            },
        }
    }

    /// The text of one function.
    fn gen_scope(&mut self, scope: &ProgScope) -> (r: Result<String, CodegenError>)
        ensures
            final(self).ir() == old(self).ir(),
            final(self).text() == old(self).text(),
            final(self).global_sp() == old(self).global_sp(),
            match spec_cg_nodes(cgs(old(self).sigs(), Seq::empty(), 0, Seq::empty()), scope@.nodes) {
                Ok(st) => r matches Ok(d) && d@ == st.data && final(self).sigs() == st.fm,
                Err(e) => r == Err::<String, CodegenError>(e),
            },
    {
        let mut asm_scp = AsmScope { id: scope.id.clone(), data: String::new(), stackptr: 0, vars: Vec::new() };
        proof {
            assert(vars_view(asm_scp.vars@) =~= Seq::<(Seq<char>, (Type, usize))>::empty());
        }
        let ghost ns = scope@.nodes;
        let ghost goal = spec_cg_nodes(cgs(old(self).sigs(), Seq::empty(), 0, Seq::empty()), ns);
        let n = scope.ir.nodes.len();
        let mut j: usize = 0;
        proof {
            assert(ns.subrange(0, n as int) =~= ns);
        }
        while j < n
            invariant
                j <= n,
                n == scope.ir.nodes@.len(),
                ns == scope@.nodes,
                ns.len() == n,
                self.ir() == old(self).ir(),
                self.text() == old(self).text(),
                self.global_sp() == old(self).global_sp(),
                goal == spec_cg_nodes(cgs(old(self).sigs(), Seq::empty(), 0, Seq::empty()), ns),
                spec_cg_nodes(self.cstate(asm_scp), ns.subrange(j as int, n as int)) == goal,
            decreases n - j,
        {
            let ghost rest = ns.subrange(j as int, n as int);
            proof {
                assert(rest[0] == scope.ir.nodes@[j as int]@);
                assert(rest.subrange(1, rest.len() as int) =~= ns.subrange(j + 1, n as int));
            }
            match self.gen_node(&scope.ir.nodes[j], &mut asm_scp) {
                Ok(()) => {},
                Err(e) => {
                    return Err(e);
                },
            }
            j = j + 1;
        }
        proof {
            assert(ns.subrange(n as int, n as int) =~= Seq::<KNodeV>::empty());
        }
        Ok(asm_scp.data)
    }

    /// The assembly text.
    pub fn into_text(self) -> (r: String)
        ensures
            r@ == self.text(),
    {
        self.asm_out
    }

    /// Generates the assembly text of every function, then the stack
    /// adjustments and the entry header.
    pub fn generate(&mut self) -> (r: Result<(), CodegenError>)
        ensures
            match spec_generate(old(self).text(), old(self).global_sp(), old(self).sigs(), old(self).ir()) {
                Ok(t) => r is Ok && final(self).text() == t,
                Err(e) => r == Err::<(), CodegenError>(e),
            },
            r is Ok ==> final(self).ir() == Seq::<ProgScopeV>::empty(),
            r is Ok ==> final(self).sigs() == spec_cg_scopes(old(self).sigs(), old(self).ir())->Ok_0.0,
    {
        let mut ir_scopes: Vec<ProgScope> = Vec::new();
        std::mem::swap(&mut ir_scopes, &mut self.scopes);
        let ghost sv = scopes_view(ir_scopes@);
        let ghost text0 = self.text();
        let ghost goal = spec_cg_scopes(self.sigs(), sv);
        let n = ir_scopes.len();
        let mut all = String::new();
        let mut k: usize = 0;
        proof {
            assert(sv.subrange(0, n as int) =~= sv);
            assert(self.ir() =~= Seq::<ProgScopeV>::empty());
            match goal {
                Ok((fm, d)) => {
                    assert(Seq::<char>::empty() + d =~= d);
                },
                Err(_) => {},
            }
        }
        while k < n
            invariant
                k <= n,
                n == ir_scopes@.len(),
                sv == scopes_view(ir_scopes@),
                sv == old(self).ir(),
                self.ir() == Seq::<ProgScopeV>::empty(),
                sv.len() == n,
                self.text() == text0,
                self.global_sp() == old(self).global_sp(),
                goal == spec_cg_scopes(old(self).sigs(), sv),
                (match spec_cg_scopes(self.sigs(), sv.subrange(k as int, n as int)) {
                    Ok((fm, d)) => Ok::<(Seq<(Seq<char>, FnSigV)>, Seq<char>), CodegenError>((fm, all@ + d)),
                    Err(e) => Err(e),
                }) == (match goal {
                    Ok((fm, d)) => Ok::<(Seq<(Seq<char>, FnSigV)>, Seq<char>), CodegenError>((fm, Seq::<char>::empty() + d)),
                    Err(e) => Err(e),
                }),
            decreases n - k,
        {
            let ghost rest = sv.subrange(k as int, n as int);
            proof {
                assert(rest[0] == ir_scopes@[k as int]@);
                assert(rest.subrange(1, rest.len() as int) =~= sv.subrange(k + 1, n as int));
            }
            let ghost a0 = all@;
            match self.gen_scope(&ir_scopes[k]) {
                Ok(d) => {
                    all.append(d.as_str());
                    proof {
                        match spec_cg_scopes(self.sigs(), sv.subrange(k + 1, n as int)) {
                            Ok((fm2, d2)) => {
                                assert(a0 + (d@ + d2) =~= all@ + d2);
                            },
                            Err(_) => {},
                        }
                    }
                },
                Err(e) => {
                    return Err(e);
                },
            }
            k = k + 1;
        }
        proof {
            assert(sv.subrange(n as int, n as int) =~= Seq::<ProgScopeV>::empty());
            match goal {
                Ok((fm, d)) => {
                    assert(Seq::<char>::empty() + d =~= d);
                    assert(all@ + Seq::<char>::empty() =~= all@);
                },
                Err(_) => {},
            }
        }
        self.finish(all.as_str())
    }
    /// Appends the function texts, then the stack adjustments by the aligned
    /// global stack size, and puts the entry header in front.
    fn finish(&mut self, body: &str) -> (r: Result<(), CodegenError>)
        ensures
            final(self).ir() == old(self).ir(),
            final(self).sigs() == old(self).sigs(),
            spec_align16(old(self).global_sp()) > usize::MAX ==> r == Err::<(), CodegenError>(
                CodegenError::Abort,
            ),
            spec_align16(old(self).global_sp()) <= usize::MAX ==> r is Ok && final(self).text() == spec_header()
                + old(self).text() + body@ + "    add     sp, sp, "@ + spec_decimal(
                spec_align16(old(self).global_sp()) as nat,
            ) + "\n"@ + "    sub     sp, sp, "@ + spec_decimal(spec_align16(old(self).global_sp()) as nat)
                + "\n"@,
    {
        let ghost text0 = self.text();
        let sp = self.stackptr;
        let aligned: usize = if sp % 16 == 0 {
            sp
        } else {
            if sp > usize::MAX - (16 - sp % 16) {
                return Err(CodegenError::Abort);
            }
            sp + (16 - sp % 16)
        };
        self.asm_out.append(body);
        self.emit_epilogue(aligned);
        self.emit_prologue(aligned);
        let md = AsmMetadata { entry: "_main".to_owned(), align: 4 };
        self.emit_metadata(md);
        proof {
            assert(self.text() =~= spec_header() + text0 + body@ + "    add     sp, sp, "@ + spec_decimal(aligned as nat) + "\n"@
                + "    sub     sp, sp, "@ + spec_decimal(aligned as nat) + "\n"@);
        }
        Ok(())
    }
}

} // verus!