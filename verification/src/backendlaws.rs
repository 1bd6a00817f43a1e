use vstd::prelude::*;

use crate::ast::Type;
use crate::backend::{
    sfind, sget, sput, spec_cg_expr, spec_cg_store, spec_load_mnemonic, spec_move_text, spec_store_mnemonic,
    CgState,
};
use crate::irgenerator::ArgV;
use crate::lexer::Op;

verus! {

/// The frame's slots: every variable's slot of eight bytes lies below the
/// next free offset, and no two variables share a slot.
pub open spec fn slots_apart(st: CgState) -> bool {
    slots_apart_in(st.vars, st.sp)
}

pub open spec fn slots_apart_in(vars: Seq<(Seq<char>, (Type, usize))>, sp: usize) -> bool {
    &&& forall|i: int| 0 <= i < vars.len() ==> #[trigger] vars[i].1.1 + 8 <= sp
    &&& forall|i: int, j: int| 0 <= i < j < vars.len() ==> #[trigger] vars[i].1.1 != #[trigger] vars[j].1.1
}

proof fn lemma_sfind_found<V>(s: Seq<(Seq<char>, V)>, k: Seq<char>, i: int)
    requires
        sfind(s, k, i) is Some,
    ensures
        i <= sfind(s, k, i)->Some_0 < s.len(),
        s[sfind(s, k, i)->Some_0].0 == k,
    decreases s.len() - i,
{
    if 0 <= i < s.len() && s[i].0 != k {
        lemma_sfind_found(s, k, i + 1);
    }
}

/// Putting a key that is absent adds a slot at the next free offset; putting
/// one that is present keeps its slot. Either way the slots stay apart.
proof fn lemma_put_apart(st: CgState, dest: Seq<char>, t: Type, a: usize, sp2: usize)
    requires
        slots_apart(st),
        sget(st.vars, dest) is None ==> a == st.sp && sp2 == st.sp + 8,
        sget(st.vars, dest) matches Some((_, b)) ==> a == b && sp2 == st.sp,
    ensures
        slots_apart_in(sput(st.vars, dest, (t, a)), sp2),
{
    let v2 = sput(st.vars, dest, (t, a));
    match sfind(st.vars, dest, 0) {
        Some(i) => {
            lemma_sfind_found(st.vars, dest, 0);
            assert(v2 == st.vars.update(i, (dest, (t, a))));
            assert forall|p: int, q: int| 0 <= p < q < v2.len() implies #[trigger] v2[p].1.1
                != #[trigger] v2[q].1.1 by {
                assert(st.vars[p].1.1 != st.vars[q].1.1);
            }
            assert forall|p: int| 0 <= p < v2.len() implies #[trigger] v2[p].1.1 + 8 <= sp2 by {
                assert(st.vars[p].1.1 + 8 <= st.sp);
            }
        },
        None => {
            assert(v2 == st.vars.push((dest, (t, a))));
            assert forall|p: int, q: int| 0 <= p < q < v2.len() implies #[trigger] v2[p].1.1
                != #[trigger] v2[q].1.1 by {
                assert(st.vars[p].1.1 + 8 <= st.sp);
                if q < st.vars.len() {
                    assert(st.vars[p].1.1 != st.vars[q].1.1);
                }
            }
            assert forall|p: int| 0 <= p < v2.len() implies #[trigger] v2[p].1.1 + 8 <= sp2 by {
                if p < st.vars.len() {
                    assert(st.vars[p].1.1 + 8 <= st.sp);
                }
            }
        },
    }
}

/// A store never makes two variables share a stack slot: a destination
/// that is new gets the next free slot, one that exists keeps its own.
pub proof fn lemma_store_keeps_slots_apart(st: CgState, ty: Type, src: ArgV, dest: Seq<char>)
    requires
        slots_apart(st),
        spec_cg_store(st, ty, src, dest) is Ok,
    ensures
        slots_apart(spec_cg_store(st, ty, src, dest)->Ok_0),
{
    let vty = match src {
        ArgV::Imm(_) => ty,
        ArgV::Sym(n) | ArgV::Temp(n) => sget(st.vars, n)->Some_0.0,
    };
    if sget(st.vars, dest) is None {
        lemma_put_apart(st, dest, vty, st.sp, (st.sp + 8) as usize);
    }
}

/// An operation never makes two variables share a stack slot: its
/// destination, if new, gets the next free slot, else it keeps its own.
pub proof fn lemma_expr_keeps_slots_apart(
    st: CgState,
    ty: Type,
    lhs: ArgV,
    rhs: ArgV,
    op: Op,
    dest: Seq<char>,
)
    requires
        slots_apart(st),
        spec_cg_expr(st, ty, lhs, rhs, op, dest) is Ok,
    ensures
        slots_apart(spec_cg_expr(st, ty, lhs, rhs, op, dest)->Ok_0),
{
    let r = spec_cg_expr(st, ty, lhs, rhs, op, dest)->Ok_0;
    match sget(st.vars, dest) {
        Some((t, a)) => {
            lemma_put_apart(st, dest, t, a, st.sp);
            assert(r.vars == sput(st.vars, dest, (t, a)) && r.sp == st.sp);
        },
        None => {
            lemma_put_apart(st, dest, ty, st.sp, (st.sp + 8) as usize);
            assert(r.vars == sput(st.vars, dest, (ty, st.sp)) && r.sp == st.sp + 8);
        },
    }
}

/// `usize` is `u64` on the target: its values load, store and are moved
/// into registers exactly as those of `u64`, through 64-bit registers.
pub proof fn lemma_usize_is_u64(reg: usize, val: i128)
    ensures
        spec_load_mnemonic(Type::Usize) == spec_load_mnemonic(Type::U64),
        spec_store_mnemonic(Type::Usize) == spec_store_mnemonic(Type::U64),
        spec_move_text(Type::Usize, reg, val) == spec_move_text(Type::U64, reg, val),
        spec_load_mnemonic(Type::Usize) == Some("    ldr     x"@),
        spec_store_mnemonic(Type::Usize) == Some("    str     x"@),
{
}

} // verus!
