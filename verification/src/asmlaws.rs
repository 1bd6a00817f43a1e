use vstd::prelude::*;

use crate::ast::Type;
use crate::backend::{chunk0, chunk1, chunk2, chunk3, spec_op_text};
use crate::lexer::Op;
use crate::text::spec_decimal;

verus! {

// ---------------------------------------------------------------------------
// A model of the AArch64 instructions that operations are lowered to: their
// text, and what they do to the 64-bit registers and the condition flags.

/// The second operand of a comparison: a register, or an immediate.
pub enum Operand {
    Reg(u8),
    Imm(u64),
}

/// A condition of `cset`, read after `cmp` as a signed comparison.
pub enum Cond {
    Eq,
    Ne,
    Lt,
    Gt,
    Le,
    Ge,
}

/// A load or a store between a register and a stack slot `[sp, offset]`.
pub enum MemOp {
    Strb,
    Strh,
    StrW,
    StrX,
    Ldrsb,
    Ldrsh,
    Ldrsw,
    Ldrb,
    Ldrh,
    LdrW,
    LdrX,
}

/// A three-register arithmetic or logical instruction.
pub enum Alu {
    Add,
    Sub,
    Mul,
    Sdiv,
    Udiv,
    And,
    Orr,
    Eor,
    Lsl,
    Lsr,
    Asr,
}

pub enum Inst {
    /// `<op> xd, xn, xm`
    Alu { op: Alu, d: u8, n: u8, m: u8 },
    /// `mvn xd, xn`
    Mvn { d: u8, n: u8 },
    /// `cmp xn, <operand>`
    Cmp { n: u8, o: Operand },
    /// `cset xd, <cond>`
    Cset { d: u8, c: Cond },
    /// `<op> xr, [sp, addr]` (or `wr`)
    Mem { k: MemOp, r: u8, addr: usize },
    /// `mov wr, 0x<imm>` (or `xr`): the register gets the 16-bit immediate.
    Mov { w: bool, r: u8, imm: u16 },
    /// `movk wr, 0x<imm>, lsl <shift>` (or `xr`): the 16 bits at `shift`
    /// become the immediate, the others stay.
    Movk { w: bool, r: u8, imm: u16, shift: u8 },
}

/// The registers `x0` to `x30` and the two values that the last `cmp`
/// compared.
pub struct Machine {
    pub x: Seq<i64>,
    pub flags: (i64, i64),
    /// What the last store to each stack offset wrote: its width in bytes
    /// and the register value it wrote the low bytes of.
    pub mem: Map<int, (nat, i64)>,
}

// The text of instructions.

/// The name of the 32-bit (`w`) or 64-bit (`x`) view of a register.
pub open spec fn wx(w: bool) -> Seq<char> {
    if w {
        "w"@
    } else {
        "x"@
    }
}

pub open spec fn reg_text(r: u8) -> Seq<char> {
    "x"@ + spec_decimal(r as nat)
}

pub open spec fn alu_name(op: Alu) -> Seq<char> {
    match op {
        Alu::Add => "add     "@,
        Alu::Sub => "sub     "@,
        Alu::Mul => "mul     "@,
        Alu::Sdiv => "sdiv    "@,
        Alu::Udiv => "udiv    "@,
        Alu::And => "and     "@,
        Alu::Orr => "orr     "@,
        Alu::Eor => "eor     "@,
        Alu::Lsl => "lsl     "@,
        Alu::Lsr => "lsr     "@,
        Alu::Asr => "asr     "@,
    }
}

/// The mnemonic, padded, and the register prefix that it writes or reads.
pub open spec fn mem_name(k: MemOp) -> Seq<char> {
    match k {
        MemOp::Strb => "strb    w"@,
        MemOp::Strh => "strh    w"@,
        MemOp::StrW => "str     w"@,
        MemOp::StrX => "str     x"@,
        MemOp::Ldrsb => "ldrsb   x"@,
        MemOp::Ldrsh => "ldrsh   x"@,
        MemOp::Ldrsw => "ldrsw   x"@,
        MemOp::Ldrb => "ldrb    w"@,
        MemOp::Ldrh => "ldrh    w"@,
        MemOp::LdrW => "ldr     w"@,
        MemOp::LdrX => "ldr     x"@,
    }
}

/// How many bytes a load or store moves.
pub open spec fn mem_width(k: MemOp) -> nat {
    match k {
        MemOp::Strb | MemOp::Ldrsb | MemOp::Ldrb => 1,
        MemOp::Strh | MemOp::Ldrsh | MemOp::Ldrh => 2,
        MemOp::StrW | MemOp::Ldrsw | MemOp::LdrW => 4,
        _ => 8,
    }
}

pub open spec fn is_store(k: MemOp) -> bool {
    k == MemOp::Strb || k == MemOp::Strh || k == MemOp::StrW || k == MemOp::StrX
}

/// The register value a load gives from the bytes `v` wrote: sign-extended
/// by `ldrs*`, zero-extended by the others.
pub open spec fn extend(k: MemOp, v: i64) -> i64 {
    match k {
        MemOp::Ldrsb => (v as i8) as i64,
        MemOp::Ldrsh => (v as i16) as i64,
        MemOp::Ldrsw => (v as i32) as i64,
        MemOp::Ldrb => (v as u8) as i64,
        MemOp::Ldrh => (v as u16) as i64,
        MemOp::LdrW => (v as u32) as i64,
        _ => v,
    }
}

pub open spec fn cond_name(c: Cond) -> Seq<char> {
    match c {
        Cond::Eq => "eq"@,
        Cond::Ne => "ne"@,
        Cond::Lt => "lt"@,
        Cond::Gt => "gt"@,
        Cond::Le => "le"@,
        Cond::Ge => "ge"@,
    }
}

pub open spec fn operand_text(o: Operand) -> Seq<char> {
    match o {
        Operand::Reg(r) => reg_text(r),
        Operand::Imm(v) => spec_decimal(v as nat),
    }
}

/// The line of an instruction, as the code generator writes it.
pub open spec fn inst_text(i: Inst) -> Seq<char> {
    "    "@ + match i {
        Inst::Alu { op, d, n, m } => alu_name(op) + reg_text(d) + ", "@ + reg_text(n) + ", "@ + reg_text(m),
        Inst::Mvn { d, n } => "mvn     "@ + reg_text(d) + ", "@ + reg_text(n),
        Inst::Cmp { n, o } => "cmp     "@ + reg_text(n) + ", "@ + operand_text(o),
        Inst::Cset { d, c } => "cset    "@ + reg_text(d) + ", "@ + cond_name(c),
        Inst::Mem { k, r, addr } => mem_name(k) + spec_decimal(r as nat) + ", [sp, "@ + spec_decimal(addr as nat) + "]"@,
        Inst::Mov { w, r, imm } => "mov     "@ + wx(w) + spec_decimal(r as nat) + ", 0x"@ + crate::text::spec_hex(imm as nat),
        Inst::Movk { w, r, imm, shift } => "movk    "@ + wx(w) + spec_decimal(r as nat) + ", 0x"@ + crate::text::spec_hex(
            imm as nat,
        ) + ", lsl "@ + spec_decimal(shift as nat),
    } + "\n"@
}

pub open spec fn prog_text(p: Seq<Inst>) -> Seq<char>
    decreases p.len(),
{
    if p.len() == 0 {
        Seq::empty()
    } else {
        inst_text(p[0]) + prog_text(p.subrange(1, p.len() as int))
    }
}

// What instructions do.

/// Truncated division, as `sdiv` computes it (zero for a zero divisor).
pub open spec fn sdiv(a: i64, b: i64) -> i64 {
    if b == 0 {
        0
    } else {
        let q = if a >= 0 { a as int } else { -a } / if b >= 0 { b as int } else { -b };
        (if (a >= 0) == (b >= 0) { q } else { -q }) as i64
    }
}

pub open spec fn udiv(a: i64, b: i64) -> i64 {
    if b == 0 {
        0
    } else {
        ((a as u64) / (b as u64)) as i64
    }
}

pub open spec fn alu(op: Alu, a: i64, b: i64) -> i64 {
    match op {
        Alu::Add => (a + b) as i64,
        Alu::Sub => (a - b) as i64,
        Alu::Mul => (a * b) as i64,
        Alu::Sdiv => sdiv(a, b),
        Alu::Udiv => udiv(a, b),
        Alu::And => a & b,
        Alu::Orr => a | b,
        Alu::Eor => a ^ b,
        Alu::Lsl => (a << ((b as u64) % 64)) as i64,
        Alu::Lsr => ((a as u64) >> ((b as u64) % 64)) as i64,
        Alu::Asr => a >> ((b as u64) % 64),
    }
}

pub open spec fn cond_holds(c: Cond, a: i64, b: i64) -> bool {
    match c {
        Cond::Eq => a == b,
        Cond::Ne => a != b,
        Cond::Lt => a < b,
        Cond::Gt => a > b,
        Cond::Le => a <= b,
        Cond::Ge => a >= b,
    }
}

pub open spec fn operand_value(m: Machine, o: Operand) -> i64 {
    match o {
        Operand::Reg(r) => m.x[r as int],
        Operand::Imm(v) => v as i64,
    }
}

pub open spec fn step(m: Machine, i: Inst) -> Machine {
    match i {
        Inst::Alu { op, d, n, m: k } => Machine { x: m.x.update(d as int, alu(op, m.x[n as int], m.x[k as int])), ..m },
        Inst::Mvn { d, n } => Machine { x: m.x.update(d as int, !m.x[n as int]), ..m },
        Inst::Cmp { n, o } => Machine { flags: (m.x[n as int], operand_value(m, o)), ..m },
        Inst::Cset { d, c } => Machine {
            x: m.x.update(d as int, if cond_holds(c, m.flags.0, m.flags.1) { 1 } else { 0 }),
            ..m
        },
        Inst::Mem { k, r, addr } => if is_store(k) {
            Machine { mem: m.mem.insert(addr as int, (mem_width(k), m.x[r as int])), ..m }
        } else {
            let v = if m.mem.dom().contains(addr as int) && m.mem[addr as int].0 == mem_width(k) {
                extend(k, m.mem[addr as int].1)
            } else {
                0
            };
            Machine { x: m.x.update(r as int, v), ..m }
        },
        Inst::Mov { w, r, imm } => Machine { x: m.x.update(r as int, imm as i64), ..m },
        Inst::Movk { w, r, imm, shift } => {
            let u = ((m.x[r as int] as u64) & !(0xFFFFu64 << shift)) | ((imm as u64) << shift);
            Machine { x: m.x.update(r as int, (if w { u & 0xFFFF_FFFFu64 } else { u }) as i64), ..m }
        },
    }
}

pub open spec fn run(p: Seq<Inst>, m: Machine) -> Machine
    decreases p.len(),
{
    if p.len() == 0 {
        m
    } else {
        run(p.subrange(1, p.len() as int), step(m, p[0]))
    }
}

/// A machine whose first argument register `x9` holds `a` and second `x10`
/// holds `b`.
pub open spec fn holds_operands(m: Machine, a: i64, b: i64) -> bool {
    m.x.len() == 31 && m.x[9] == a && m.x[10] == b
}

// ---------------------------------------------------------------------------
// What the code of each operation computes into `x8`.

/// The value of a comparison in the language: 1 when it holds, else 0.
pub open spec fn comparison_value(op: Op, a: i64, b: i64) -> i64 {
    let holds = match op {
        Op::Lt => a < b,
        Op::Gt => a > b,
        Op::Lte => a <= b,
        Op::Gte => a >= b,
        Op::Eq => a == b,
        _ => a != b,
    };
    if holds {
        1
    } else {
        0
    }
}

pub open spec fn is_comparison(op: Op) -> bool {
    op == Op::Lt || op == Op::Gt || op == Op::Lte || op == Op::Gte || op == Op::Eq || op == Op::Neq
}

proof fn lemma_reg_texts()
    ensures
        reg_text(8) == "x8"@,
        reg_text(9) == "x9"@,
        reg_text(10) == "x10"@,
        spec_decimal(0) == "0"@,
{
    reveal_strlit("x8");
    reveal_strlit("x9");
    reveal_strlit("x10");
    reveal_strlit("x");
    reveal_strlit("0");
    assert(spec_decimal(1) == seq!['1']);
    assert(spec_decimal(10) =~= seq!['1', '0']);
    assert(reg_text(10) =~= "x10"@);
    assert(reg_text(9) =~= "x9"@);
    assert(reg_text(8) =~= "x8"@);
}

proof fn lemma_cons(i: Inst, rest: Seq<Inst>, m: Machine)
    ensures
        prog_text(seq![i] + rest) == inst_text(i) + prog_text(rest),
        run(seq![i] + rest, m) == run(rest, step(m, i)),
{
    let p = seq![i] + rest;
    assert(p[0] == i);
    assert(p.subrange(1, p.len() as int) =~= rest);
}

proof fn lemma_nil(m: Machine)
    ensures
        prog_text(Seq::empty()) == Seq::<char>::empty(),
        run(Seq::empty(), m) == m,
{
}

/// `cmp x9, x10` then `cset x8, <c>`.
proof fn lemma_compare_prog(c: Cond, m: Machine)
    ensures
        prog_text(seq![Inst::Cmp { n: 9, o: Operand::Reg(10) }] + (seq![Inst::Cset { d: 8, c }] + Seq::empty()))
            == "    cmp     x9, x10\n    cset    x8, "@ + cond_name(c) + "\n"@,
        run(seq![Inst::Cmp { n: 9, o: Operand::Reg(10) }] + (seq![Inst::Cset { d: 8, c }] + Seq::empty()), m)
            == step(step(m, Inst::Cmp { n: 9, o: Operand::Reg(10) }), Inst::Cset { d: 8, c }),
{
    let i = Inst::Cmp { n: 9, o: Operand::Reg(10) };
    let j = Inst::Cset { d: 8, c };
    lemma_reg_texts();
    lemma_nil(step(step(m, i), j));
    lemma_cons(j, Seq::empty(), step(m, i));
    lemma_cons(i, seq![j] + Seq::empty(), m);
    reveal_strlit("    ");
    reveal_strlit("\n");
    reveal_strlit("cmp     ");
    reveal_strlit("cset    ");
    reveal_strlit(", ");
    reveal_strlit("    cmp     x9, x10\n    cset    x8, ");
    reveal_strlit("    cmp     x9, x10\n");
    reveal_strlit("    cset    x8, ");
    reveal_strlit("x9");
    reveal_strlit("x10");
    reveal_strlit("x8");
    assert(inst_text(i) =~= "    cmp     x9, x10\n"@);
    assert(inst_text(j) =~= "    cset    x8, "@ + cond_name(c) + "\n"@);
    assert("    cmp     x9, x10\n"@ + "    cset    x8, "@ =~= "    cmp     x9, x10\n    cset    x8, "@);
    assert(inst_text(i) + (inst_text(j) + Seq::<char>::empty()) =~= "    cmp     x9, x10\n    cset    x8, "@
        + cond_name(c) + "\n"@);
}

/// A comparison is lowered to code that leaves 1 in `x8` exactly when it
/// holds of the two operands, as signed 64-bit values, and 0 otherwise.
pub proof fn lemma_comparison_code(op: Op, ty: Type, a: i64, b: i64, m: Machine)
    requires
        is_comparison(op),
        holds_operands(m, a, b),
    ensures
        exists|p: Seq<Inst>|
            #![trigger prog_text(p)]
            spec_op_text(op, ty) == Some(prog_text(p)) && run(p, m).x[8] == comparison_value(op, a, b),
{
    let c = match op {
        Op::Lt => Cond::Lt,
        Op::Gt => Cond::Gt,
        Op::Lte => Cond::Le,
        Op::Gte => Cond::Ge,
        Op::Eq => Cond::Eq,
        _ => Cond::Ne,
    };
    let p = seq![Inst::Cmp { n: 9, o: Operand::Reg(10) }] + (seq![Inst::Cset { d: 8, c }] + Seq::empty());
    lemma_compare_prog(c, m);
    reveal_strlit("lt");
    reveal_strlit("gt");
    reveal_strlit("le");
    reveal_strlit("ge");
    reveal_strlit("eq");
    reveal_strlit("ne");
    reveal_strlit("\n");
    reveal_strlit("    cmp     x9, x10\n    cset    x8, ");
    reveal_strlit("    cmp     x9, x10\n    cset    x8, lt\n");
    reveal_strlit("    cmp     x9, x10\n    cset    x8, gt\n");
    reveal_strlit("    cmp     x9, x10\n    cset    x8, le\n");
    reveal_strlit("    cmp     x9, x10\n    cset    x8, ge\n");
    reveal_strlit("    cmp     x9, x10\n    cset    x8, eq\n");
    reveal_strlit("    cmp     x9, x10\n    cset    x8, ne\n");
    assert(spec_op_text(op, ty)->Some_0 =~= "    cmp     x9, x10\n    cset    x8, "@ + cond_name(c) + "\n"@);
    assert(run(p, m).x[8] == comparison_value(op, a, b));
}

/// The value of a logical operation in the language: 1 or 0, on operands
/// that are true when they are not zero.
pub open spec fn logic_value(op: Op, a: i64, b: i64) -> i64 {
    let holds = if op == Op::LgAnd {
        a != 0 && b != 0
    } else {
        a != 0 || b != 0
    };
    if holds {
        1
    } else {
        0
    }
}

proof fn lemma_bits01(u: i64, v: i64)
    requires
        u == 0 || u == 1,
        v == 0 || v == 1,
    ensures
        (u | v) != 0 <==> (u != 0 || v != 0),
        (u & v) != 0 <==> (u != 0 && v != 0),
{
    assert((u | v) != 0 <==> (u != 0 || v != 0)) by (bit_vector)
        requires
            u == 0 || u == 1,
            v == 0 || v == 1,
    ;
    assert((u & v) != 0 <==> (u != 0 && v != 0)) by (bit_vector)
        requires
            u == 0 || u == 1,
            v == 0 || v == 1,
    ;
}

/// `&&` and `||` are lowered to code that leaves 1 in `x8` exactly when
/// both operands (for `&&`) or either operand (for `||`) are not zero, and
/// 0 otherwise.
#[verifier::rlimit(40)]
pub proof fn lemma_logic_code(op: Op, ty: Type, a: i64, b: i64, m: Machine)
    requires
        op == Op::LgAnd || op == Op::LgOr,
        holds_operands(m, a, b),
    ensures
        exists|p: Seq<Inst>|
            #![trigger prog_text(p)]
            spec_op_text(op, ty) == Some(prog_text(p)) && run(p, m).x[8] == logic_value(op, a, b),
{
    let k = if op == Op::LgAnd {
        Alu::And
    } else {
        Alu::Orr
    };
    let i1 = Inst::Cmp { n: 9, o: Operand::Imm(0) };
    let i2 = Inst::Cset { d: 9, c: Cond::Ne };
    let i3 = Inst::Cmp { n: 10, o: Operand::Imm(0) };
    let i4 = Inst::Cset { d: 10, c: Cond::Ne };
    let i5 = Inst::Alu { op: k, d: 8, n: 9, m: 10 };
    let i6 = Inst::Cmp { n: 8, o: Operand::Imm(0) };
    let i7 = Inst::Cset { d: 8, c: Cond::Ne };
    let r7 = seq![i7] + Seq::<Inst>::empty();
    let r6 = seq![i6] + r7;
    let r5 = seq![i5] + r6;
    let r4 = seq![i4] + r5;
    let r3 = seq![i3] + r4;
    let r2 = seq![i2] + r3;
    let p = seq![i1] + r2;
    let m1 = step(m, i1);
    let m2 = step(m1, i2);
    let m3 = step(m2, i3);
    let m4 = step(m3, i4);
    let m5 = step(m4, i5);
    let m6 = step(m5, i6);
    let m7 = step(m6, i7);
    lemma_nil(m7);
    lemma_cons(i7, Seq::empty(), m6);
    lemma_cons(i6, r7, m5);
    lemma_cons(i5, r6, m4);
    lemma_cons(i4, r5, m3);
    lemma_cons(i3, r4, m2);
    lemma_cons(i2, r3, m1);
    lemma_cons(i1, r2, m);
    assert(run(p, m) == m7);
    // what the code computes
    let u: i64 = if a != 0 { 1 } else { 0 };
    let v: i64 = if b != 0 { 1 } else { 0 };
    assert(m2.x[9] == u);
    assert(m4.x[10] == v && m4.x[9] == u);
    lemma_bits01(u, v);
    assert(m7.x[8] == logic_value(op, a, b));
    // how the code is written
    lemma_reg_texts();
    reveal_strlit("    ");
    reveal_strlit("\n");
    reveal_strlit("cmp     ");
    reveal_strlit("cset    ");
    reveal_strlit(", ");
    reveal_strlit("ne");
    reveal_strlit("x8");
    reveal_strlit("x9");
    reveal_strlit("x10");
    reveal_strlit("0");
    reveal_strlit("and     ");
    reveal_strlit("orr     ");
    reveal_strlit("    cmp     x9, 0\n");
    reveal_strlit("    cset    x9, ne\n");
    reveal_strlit("    cmp     x10, 0\n");
    reveal_strlit("    cset    x10, ne\n");
    reveal_strlit("    and     x8, x9, x10\n");
    reveal_strlit("    orr     x8, x9, x10\n");
    reveal_strlit("    cmp     x8, 0\n");
    reveal_strlit("    cset    x8, ne\n");
    assert(inst_text(i1) =~= "    cmp     x9, 0\n"@);
    assert(inst_text(i2) =~= "    cset    x9, ne\n"@);
    assert(inst_text(i3) =~= "    cmp     x10, 0\n"@);
    assert(inst_text(i4) =~= "    cset    x10, ne\n"@);
    assert(inst_text(i6) =~= "    cmp     x8, 0\n"@);
    assert(inst_text(i7) =~= "    cset    x8, ne\n"@);
    let t = inst_text(i1) + (inst_text(i2) + (inst_text(i3) + (inst_text(i4) + (inst_text(i5) + (inst_text(i6)
        + (inst_text(i7) + Seq::<char>::empty()))))));
    assert(prog_text(p) == t);
    if op == Op::LgAnd {
        assert(inst_text(i5) =~= "    and     x8, x9, x10\n"@);
        reveal_strlit(
            "    cmp     x9, 0\n    cset    x9, ne\n    cmp     x10, 0\n    cset    x10, ne\n    and     x8, x9, x10\n    cmp     x8, 0\n    cset    x8, ne\n",
        );
        assert(spec_op_text(op, ty)->Some_0 =~= t);
    } else {
        assert(inst_text(i5) =~= "    orr     x8, x9, x10\n"@);
        reveal_strlit(
            "    cmp     x9, 0\n    cset    x9, ne\n    cmp     x10, 0\n    cset    x10, ne\n    orr     x8, x9, x10\n    cmp     x8, 0\n    cset    x8, ne\n",
        );
        assert(spec_op_text(op, ty)->Some_0 =~= t);
    }
}

/// The value of an arithmetic or bitwise operation on 64-bit registers:
/// sums, differences and products wrap; shifts take the amount modulo 64;
/// division truncates toward zero, and is signed for a signed type.
pub open spec fn arith_value(op: Op, ty: Type, a: i64, b: i64) -> i64 {
    match op {
        Op::Add => (a + b) as i64,
        Op::Sub => (a - b) as i64,
        Op::Mul => (a * b) as i64,
        Op::BwAnd => a & b,
        Op::BwOr => a | b,
        Op::BwXor => a ^ b,
        Op::BwNot => !a,
        Op::Lsl => (a << ((b as u64) % 64)) as i64,
        Op::Lsr => ((a as u64) >> ((b as u64) % 64)) as i64,
        Op::Asr => a >> ((b as u64) % 64),
        _ => if crate::ast::spec_is_signed(ty) {
            sdiv(a, b)
        } else {
            udiv(a, b)
        },
    }
}

pub open spec fn is_arith(op: Op) -> bool {
    op == Op::Add || op == Op::Sub || op == Op::Mul || op == Op::BwAnd || op == Op::BwOr || op == Op::BwXor
        || op == Op::BwNot || op == Op::Lsl || op == Op::Lsr || op == Op::Asr || op == Op::Div
}

/// Arithmetic and bitwise operations are lowered to one instruction on `x9`
/// and `x10` whose result in `x8` is the value of the operation.
#[verifier::rlimit(40)]
pub proof fn lemma_arith_code(op: Op, ty: Type, a: i64, b: i64, m: Machine)
    requires
        is_arith(op),
        holds_operands(m, a, b),
    ensures
        exists|p: Seq<Inst>|
            #![trigger prog_text(p)]
            spec_op_text(op, ty) == Some(prog_text(p)) && run(p, m).x[8] == arith_value(op, ty, a, b),
{
    lemma_reg_texts();
    reveal_strlit("    ");
    reveal_strlit("\n");
    reveal_strlit(", ");
    reveal_strlit("x8");
    reveal_strlit("x9");
    reveal_strlit("x10");
    reveal_strlit("mvn     ");
    if op == Op::BwNot {
        let i = Inst::Mvn { d: 8, n: 9 };
        let p = seq![i] + Seq::<Inst>::empty();
        lemma_nil(step(m, i));
        lemma_cons(i, Seq::empty(), m);
        reveal_strlit("    mvn     x8, x9\n");
        assert(spec_op_text(op, ty)->Some_0 =~= inst_text(i) + Seq::<char>::empty());
        assert(spec_op_text(op, ty) == Some(prog_text(p)) && run(p, m).x[8] == arith_value(op, ty, a, b));
    } else {
        let k = match op {
            Op::Add => Alu::Add,
            Op::Sub => Alu::Sub,
            Op::Mul => Alu::Mul,
            Op::BwAnd => Alu::And,
            Op::BwOr => Alu::Orr,
            Op::BwXor => Alu::Eor,
            Op::Lsl => Alu::Lsl,
            Op::Lsr => Alu::Lsr,
            Op::Asr => Alu::Asr,
            _ => if crate::ast::spec_is_signed(ty) {
                Alu::Sdiv
            } else {
                Alu::Udiv
            },
        };
        let i = Inst::Alu { op: k, d: 8, n: 9, m: 10 };
        let p = seq![i] + Seq::<Inst>::empty();
        lemma_nil(step(m, i));
        lemma_cons(i, Seq::empty(), m);
        reveal_strlit("add     ");
        reveal_strlit("sub     ");
        reveal_strlit("mul     ");
        reveal_strlit("and     ");
        reveal_strlit("orr     ");
        reveal_strlit("eor     ");
        reveal_strlit("lsl     ");
        reveal_strlit("lsr     ");
        reveal_strlit("asr     ");
        reveal_strlit("sdiv    ");
        reveal_strlit("udiv    ");
        reveal_strlit("    add     x8, x9, x10\n");
        reveal_strlit("    sub     x8, x9, x10\n");
        reveal_strlit("    mul     x8, x9, x10\n");
        reveal_strlit("    and     x8, x9, x10\n");
        reveal_strlit("    orr     x8, x9, x10\n");
        reveal_strlit("    eor     x8, x9, x10\n");
        reveal_strlit("    lsl     x8, x9, x10\n");
        reveal_strlit("    lsr     x8, x9, x10\n");
        reveal_strlit("    asr     x8, x9, x10\n");
        reveal_strlit("    sdiv    x8, x9, x10\n");
        reveal_strlit("    udiv    x8, x9, x10\n");
        assert(spec_op_text(op, ty)->Some_0 =~= inst_text(i) + Seq::<char>::empty());
        assert(spec_op_text(op, ty) == Some(prog_text(p)) && run(p, m).x[8] == arith_value(op, ty, a, b));
    }
}

/// The remainder is lowered to code that leaves in `x8` the remainder of
/// truncated division: `a - (a / b) * b`, which has the sign of `a` and is
/// smaller than `b` in size. For an unsigned type, on operands that are not
/// negative, that is `a % b`.
#[verifier::rlimit(60)]
pub proof fn lemma_remainder_code(ty: Type, a: i64, b: i64, m: Machine)
    requires
        holds_operands(m, a, b),
        b != 0,
        !(a == i64::MIN && b == -1),
        !crate::ast::spec_is_signed(ty) ==> a >= 0 && b > 0,
    ensures
        exists|p: Seq<Inst>|
            #![trigger prog_text(p)]
            spec_op_text(Op::Mod, ty) == Some(prog_text(p)) && run(p, m).x[8] == a - sdiv(a, b) * b,
        exists|p: Seq<Inst>|
            #![trigger prog_text(p)]
            spec_op_text(Op::Mod, ty) == Some(prog_text(p)) && (!crate::ast::spec_is_signed(ty) ==> run(
                p,
                m,
            ).x[8] == a % b),
        -(if b >= 0 { b as int } else { -b }) < a - sdiv(a, b) * b < (if b >= 0 { b as int } else { -b }),
        a >= 0 ==> a - sdiv(a, b) * b >= 0,
        a <= 0 ==> a - sdiv(a, b) * b <= 0,
{
    let k = if crate::ast::spec_is_signed(ty) {
        Alu::Sdiv
    } else {
        Alu::Udiv
    };
    let i1 = Inst::Alu { op: k, d: 8, n: 9, m: 10 };
    let i2 = Inst::Alu { op: Alu::Mul, d: 10, n: 8, m: 10 };
    let i3 = Inst::Alu { op: Alu::Sub, d: 8, n: 9, m: 10 };
    let r3 = seq![i3] + Seq::<Inst>::empty();
    let r2 = seq![i2] + r3;
    let p = seq![i1] + r2;
    let m1 = step(m, i1);
    let m2 = step(m1, i2);
    let m3 = step(m2, i3);
    lemma_nil(m3);
    lemma_cons(i3, Seq::empty(), m2);
    lemma_cons(i2, r3, m1);
    lemma_cons(i1, r2, m);
    // the quotient and the remainder
    let aa: int = if a >= 0 { a as int } else { -a };
    let bb: int = if b >= 0 { b as int } else { -b };
    vstd::arithmetic::div_mod::lemma_fundamental_div_mod(aa, bb);
    let qq = aa / bb;
    let rr = aa % bb;
    assert(0 <= rr < bb);
    assert(aa == bb * qq + rr);
    assert(qq >= 0) by (nonlinear_arith)
        requires
            aa == bb * qq + rr,
            0 <= rr < bb,
            aa >= 0,
    ;
    assert(bb * qq <= aa);
    let q: int = if (a >= 0) == (b >= 0) { qq } else { -qq };
    assert(q * b == if a >= 0 { bb * qq } else { -(bb * qq) }) by (nonlinear_arith)
        requires
            q == (if (a >= 0) == (b >= 0) { qq } else { -qq }),
            bb == (if b >= 0 { b as int } else { -b }),
    ;
    assert(i64::MIN <= q <= i64::MAX) by (nonlinear_arith)
        requires
            q == (if (a >= 0) == (b >= 0) { qq } else { -qq }),
            bb * qq <= aa,
            aa == (if a >= 0 { a as int } else { -a }),
            bb == (if b >= 0 { b as int } else { -b }),
            bb >= 1,
            qq >= 0,
            !(a == i64::MIN && b == -1),
            i64::MIN <= a <= i64::MAX,
    ;
    assert(sdiv(a, b) == q);
    assert(a - q * b == if a >= 0 { rr } else { -rr });
    if crate::ast::spec_is_signed(ty) {
        assert(m1.x[8] == q);
        assert(m2.x[10] == q * b);
        assert(m3.x[8] == a - q * b);
    } else {
        assert(a as u64 == a && b as u64 == b);
        assert(udiv(a, b) == a / b);
        assert(a / b == qq);
        assert(m1.x[8] == qq);
        assert(m2.x[10] == qq * b);
        assert(m3.x[8] == a - qq * b);
        assert(a % b == rr);
    }
    assert(run(p, m).x[8] == a - sdiv(a, b) * b);
    // how the code is written
    lemma_reg_texts();
    reveal_strlit("    ");
    reveal_strlit("\n");
    reveal_strlit(", ");
    reveal_strlit("x8");
    reveal_strlit("x9");
    reveal_strlit("x10");
    reveal_strlit("mul     ");
    reveal_strlit("sub     ");
    reveal_strlit("sdiv    ");
    reveal_strlit("udiv    ");
    reveal_strlit("    mul     x10, x8, x10\n");
    reveal_strlit("    sub     x8, x9, x10\n");
    assert(inst_text(i2) =~= "    mul     x10, x8, x10\n"@);
    assert(inst_text(i3) =~= "    sub     x8, x9, x10\n"@);
    let t = inst_text(i1) + (inst_text(i2) + (inst_text(i3) + Seq::<char>::empty()));
    assert(prog_text(p) == t);
    if crate::ast::spec_is_signed(ty) {
        reveal_strlit("    sdiv    x8, x9, x10\n");
        assert(inst_text(i1) =~= "    sdiv    x8, x9, x10\n"@);
        reveal_strlit("    sdiv    x8, x9, x10\n    mul     x10, x8, x10\n    sub     x8, x9, x10\n");
    } else {
        reveal_strlit("    udiv    x8, x9, x10\n");
        assert(inst_text(i1) =~= "    udiv    x8, x9, x10\n"@);
        reveal_strlit("    udiv    x8, x9, x10\n    mul     x10, x8, x10\n    sub     x8, x9, x10\n");
    }
    assert(spec_op_text(Op::Mod, ty)->Some_0 =~= t);
    assert(spec_op_text(Op::Mod, ty) == Some(prog_text(p)));
}

/// The value that a variable of a type holds when the low bytes of a
/// register value are kept for it: signed types read them signed, unsigned
/// types unsigned, and 64-bit types keep the whole value.
pub open spec fn typed_value(ty: Type, v: i64) -> i64 {
    match ty {
        Type::I8 => (v as i8) as i64,
        Type::U8 | Type::Char | Type::Bool => (v as u8) as i64,
        Type::I16 => (v as i16) as i64,
        Type::U16 => (v as u16) as i64,
        Type::I32 => (v as i32) as i64,
        Type::U32 => (v as u32) as i64,
        _ => v,
    }
}

/// The types that have a stack slot: the integer types, `char` and `bool`.
pub open spec fn has_slot(ty: Type) -> bool {
    ty == Type::I8 || ty == Type::U8 || ty == Type::Char || ty == Type::Bool || ty == Type::I16
        || ty == Type::U16 || ty == Type::I32 || ty == Type::U32 || ty == Type::I64 || ty == Type::U64
        || ty == Type::Usize
}

/// Storing a register into a variable's slot and loading the slot back into
/// a register gives the value the variable holds for its type: for every
/// type with a slot, every register value, slot and pair of registers.
#[verifier::rlimit(60)]
pub proof fn lemma_slot_round_trip(ty: Type, r1: u8, r2: u8, addr: usize, v: i64, m: Machine)
    requires
        has_slot(ty),
        r1 < 31,
        r2 < 31,
        m.x.len() == 31,
        m.x[r1 as int] == v,
    ensures
        crate::backend::spec_store_text(ty, r1 as usize, addr) is Some,
        crate::backend::spec_load_text(ty, r2 as usize, addr) is Some,
        exists|s: Inst, l: Inst|
            #![trigger inst_text(s), inst_text(l)]
            crate::backend::spec_store_text(ty, r1 as usize, addr) == Some(inst_text(s))
                && crate::backend::spec_load_text(ty, r2 as usize, addr) == Some(inst_text(l))
                && step(step(m, s), l).x[r2 as int] == typed_value(ty, v),
{
    let sk = match ty {
        Type::I8 | Type::U8 | Type::Char | Type::Bool => MemOp::Strb,
        Type::I16 | Type::U16 => MemOp::Strh,
        Type::I32 | Type::U32 => MemOp::StrW,
        _ => MemOp::StrX,
    };
    let lk = match ty {
        Type::I8 => MemOp::Ldrsb,
        Type::I16 => MemOp::Ldrsh,
        Type::I32 => MemOp::Ldrsw,
        Type::U8 | Type::Char | Type::Bool => MemOp::Ldrb,
        Type::U16 => MemOp::Ldrh,
        Type::U32 => MemOp::LdrW,
        _ => MemOp::LdrX,
    };
    let s = Inst::Mem { k: sk, r: r1, addr };
    let l = Inst::Mem { k: lk, r: r2, addr };
    assert(step(step(m, s), l).x[r2 as int] == typed_value(ty, v));
    reveal_strlit("    ");
    reveal_strlit("\n");
    reveal_strlit(", [sp, ");
    reveal_strlit("]");
    reveal_strlit("]\n");
    reveal_strlit("strb    w");
    reveal_strlit("strh    w");
    reveal_strlit("str     w");
    reveal_strlit("str     x");
    reveal_strlit("ldrsb   x");
    reveal_strlit("ldrsh   x");
    reveal_strlit("ldrsw   x");
    reveal_strlit("ldrb    w");
    reveal_strlit("ldrh    w");
    reveal_strlit("ldr     w");
    reveal_strlit("ldr     x");
    reveal_strlit("    strb    w");
    reveal_strlit("    strh    w");
    reveal_strlit("    str     w");
    reveal_strlit("    str     x");
    reveal_strlit("    ldrsb   x");
    reveal_strlit("    ldrsh   x");
    reveal_strlit("    ldrsw   x");
    reveal_strlit("    ldrb    w");
    reveal_strlit("    ldrh    w");
    reveal_strlit("    ldr     w");
    reveal_strlit("    ldr     x");
    assert(crate::backend::spec_store_mnemonic(ty) == Some("    "@ + mem_name(sk))) by {
        assert(crate::backend::spec_store_mnemonic(ty)->Some_0 =~= "    "@ + mem_name(sk));
    }
    assert(crate::backend::spec_load_mnemonic(ty) == Some("    "@ + mem_name(lk))) by {
        assert(crate::backend::spec_load_mnemonic(ty)->Some_0 =~= "    "@ + mem_name(lk));
    }
    assert(crate::backend::spec_store_text(ty, r1 as usize, addr)->Some_0 =~= inst_text(s));
    assert(crate::backend::spec_load_text(ty, r2 as usize, addr)->Some_0 =~= inst_text(l));
}

proof fn lemma_concat(a: Seq<Inst>, b: Seq<Inst>, m: Machine)
    ensures
        prog_text(a + b) == prog_text(a) + prog_text(b),
        run(a + b, m) == run(b, run(a, m)),
    decreases a.len(),
{
    if a.len() == 0 {
        assert(a + b =~= b);
        assert(Seq::<char>::empty() + prog_text(b) =~= prog_text(b));
    } else {
        let rest = a.subrange(1, a.len() as int);
        lemma_concat(rest, b, step(m, a[0]));
        assert((a + b).subrange(1, (a + b).len() as int) =~= rest + b);
        assert((a + b)[0] == a[0]);
        assert(inst_text(a[0]) + (prog_text(rest) + prog_text(b)) =~= (inst_text(a[0]) + prog_text(rest))
            + prog_text(b));
    }
}

/// A `movk` of a piece that is not zero, or nothing for a zero piece.
pub open spec fn opt_movk(w: bool, r: u8, piece: u16, shift: u8) -> Seq<Inst> {
    if piece != 0 {
        seq![Inst::Movk { w, r, imm: piece, shift }]
    } else {
        Seq::empty()
    }
}

/// Setting the zero 16 bits at `shift` of a value to `c` is or-ing `c` in,
/// and leaving them out for a zero `c` is the same.
proof fn lemma_movk_or(x: u64, c: u16, shift: u64)
    requires
        shift == 16 || shift == 32 || shift == 48,
        x >> shift == 0,
    ensures
        (x & !(0xFFFFu64 << shift)) | ((c as u64) << shift) == x | ((c as u64) << shift),
        c == 0 ==> x | ((c as u64) << shift) == x,
{
    assert((x & !(0xFFFFu64 << shift)) | ((c as u64) << shift) == x | ((c as u64) << shift)) by (bit_vector)
        requires
            shift == 16 || shift == 32 || shift == 48,
            x >> shift == 0,
    ;
    assert(c == 0 ==> x | ((c as u64) << shift) == x) by (bit_vector);
}

proof fn lemma_opt_movk(w: bool, r: u8, c: u16, shift: u8, m: Machine, x: u64)
    requires
        r < 31,
        m.x.len() == 31,
        shift == 16 || shift == 32 || shift == 48,
        m.x[r as int] == x as i64,
        x >> (shift as u64) == 0,
        w ==> shift == 16,
    ensures
        run(opt_movk(w, r, c, shift), m).x[r as int] == (x | ((c as u64) << (shift as u64))) as i64,
        run(opt_movk(w, r, c, shift), m).x.len() == 31,
        prog_text(opt_movk(w, r, c, shift)) == (if c != 0 {
            inst_text(Inst::Movk { w, r, imm: c, shift })
        } else {
            Seq::empty()
        }),
{
    lemma_movk_or(x, c, shift as u64);
    assert((x as i64) as u64 == x) by (bit_vector);
    if c != 0 {
        let i = Inst::Movk { w, r, imm: c, shift };
        lemma_cons(i, Seq::empty(), m);
        lemma_nil(step(m, i));
        assert(opt_movk(w, r, c, shift) =~= seq![i] + Seq::empty());
        assert(inst_text(i) + Seq::<char>::empty() =~= inst_text(i));
        if w {
            let y = x | ((c as u64) << 16u64);
            assert(y & 0xFFFF_FFFFu64 == y) by (bit_vector)
                requires
                    x >> 16u64 == 0,
                    y == x | ((c as u64) << 16u64),
            ;
        }
    }
}

/// The texts of the pieces of an immediate load.
proof fn lemma_move_piece_texts(w: bool, r: u8, val: i128, c: u16, sh: u8)
    ensures
        inst_text(Inst::Mov { w, r, imm: chunk0(val) }) == crate::backend::spec_mov_low(wx(w), r as usize, val),
        crate::backend::spec_movk(wx(w), r as usize, c, spec_decimal(sh as nat)) == (if c != 0 {
            inst_text(Inst::Movk { w, r, imm: c, shift: sh })
        } else {
            Seq::empty()
        }),
{
    reveal_strlit("    ");
    reveal_strlit("\n");
    reveal_strlit("mov     ");
    reveal_strlit("    mov     ");
    reveal_strlit("movk    ");
    reveal_strlit("    movk    ");
    reveal_strlit(", 0x");
    reveal_strlit(", lsl ");
    assert(inst_text(Inst::Mov { w, r, imm: chunk0(val) }) =~= crate::backend::spec_mov_low(wx(w), r as usize, val));
    if c != 0 {
        assert(crate::backend::spec_movk(wx(w), r as usize, c, spec_decimal(sh as nat)) =~= inst_text(
            Inst::Movk { w, r, imm: c, shift: sh },
        ));
    }
}

proof fn lemma_shift_texts()
    ensures
        spec_decimal(16) == "16"@,
        spec_decimal(32) == "32"@,
        spec_decimal(48) == "48"@,
{
    reveal_strlit("16");
    reveal_strlit("32");
    reveal_strlit("48");
    assert(spec_decimal(1) == seq!['1']);
    assert(spec_decimal(3) == seq!['3']);
    assert(spec_decimal(4) == seq!['4']);
    assert(spec_decimal(16) =~= "16"@);
    assert(spec_decimal(32) =~= "32"@);
    assert(spec_decimal(48) =~= "48"@);
}

/// Loading an immediate into a register: for a 64-bit type the register
/// holds the value (modulo 2^64); for a narrower type its 32-bit view holds
/// the low 32 bits of the value, and the high half of the register is zero.
#[verifier::rlimit(80)]
pub proof fn lemma_immediate_code(ty: Type, r: u8, val: i128, m: Machine)
    requires
        has_slot(ty),
        r < 31,
        m.x.len() == 31,
    ensures
        exists|p: Seq<Inst>|
            #![trigger prog_text(p)]
            crate::backend::spec_move_text(ty, r as usize, val) == Some(prog_text(p)) && run(p, m).x[r as int] == (
            if ty == Type::I64 || ty == Type::U64 || ty == Type::Usize {
                val as i64
            } else {
                ((val as u32) as u64) as i64
            }),
{
    let wide = ty == Type::I64 || ty == Type::U64 || ty == Type::Usize;
    let w = !wide;
    let c0 = chunk0(val);
    let c1 = chunk1(val);
    let c2 = chunk2(val);
    let c3 = chunk3(val);
    lemma_shift_texts();
    lemma_move_piece_texts(w, r, val, c1, 16);
    lemma_move_piece_texts(w, r, val, c2, 32);
    lemma_move_piece_texts(w, r, val, c3, 48);
    reveal_strlit("w");
    reveal_strlit("x");
    let i0 = Inst::Mov { w, r, imm: c0 };
    let p0 = seq![i0];
    let m0 = step(m, i0);
    lemma_cons(i0, Seq::empty(), m);
    lemma_nil(m0);
    assert(p0 =~= seq![i0] + Seq::empty());
    assert(prog_text(p0) =~= inst_text(i0));
    let x0 = c0 as u64;
    assert(m0.x[r as int] == x0 as i64);
    assert(x0 >> 16u64 == 0) by (bit_vector)
        requires
            x0 == c0 as u64,
    ;
    let p1 = opt_movk(w, r, c1, 16);
    lemma_opt_movk(w, r, c1, 16, m0, x0);
    let m1 = run(p1, m0);
    let x1 = x0 | ((c1 as u64) << 16u64);
    lemma_concat(p0, p1, m);
    if w {
        let p = p0 + p1;
        assert(run(p, m).x[r as int] == x1 as i64);
        assert(x1 == (val as u32) as u64) by (bit_vector)
            requires
                x1 == (c0 as u64) | ((c1 as u64) << 16u64),
                c0 == (val & 0xFFFF) as u16,
                c1 == (val >> 16u32) as u16,
        ;
        assert(crate::backend::spec_move_text(ty, r as usize, val) == Some(prog_text(p)));
    } else {
        assert(x1 >> 32u64 == 0) by (bit_vector)
            requires
                x1 == (c0 as u64) | ((c1 as u64) << 16u64),
        ;
        let p2 = opt_movk(w, r, c2, 32);
        lemma_opt_movk(w, r, c2, 32, m1, x1);
        let m2 = run(p2, m1);
        let x2 = x1 | ((c2 as u64) << 32u64);
        assert(x2 >> 48u64 == 0) by (bit_vector)
            requires
                x1 >> 32u64 == 0,
                x2 == x1 | ((c2 as u64) << 32u64),
        ;
        let p3 = opt_movk(w, r, c3, 48);
        lemma_opt_movk(w, r, c3, 48, m2, x2);
        let x3 = x2 | ((c3 as u64) << 48u64);
        lemma_concat(p0 + p1, p2, m);
        lemma_concat(p0 + p1 + p2, p3, m);
        let p = p0 + p1 + p2 + p3;
        assert(run(p, m).x[r as int] == x3 as i64);
        crate::backend::lemma_move_pieces(val);
        assert(x3 as i64 == val as i64) by (bit_vector)
            requires
                x3 == (c0 as u64) | ((c1 as u64) << 16u64) | ((c2 as u64) << 32u64) | ((c3 as u64) << 48u64),
                (c0 as u64) | (c1 as u64) << 16u64 | (c2 as u64) << 32u64 | (c3 as u64) << 48u64 == val as u64,
        ;
        assert(crate::backend::spec_move_text(ty, r as usize, val) == Some(prog_text(p)));
    }
}

} // verus!
