use vstd::prelude::*;

use crate::asmlaws::{inst_text, step, typed_value, Inst, Machine, MemOp};
use crate::ast::Type;
use crate::backend::{sget, spec_cg_br, spec_pwr_text, CgState};

verus! {

// ---------------------------------------------------------------------------
// A model of code with labels and branches: its lines, as the code generator
// writes them, and what they do to the registers.

pub enum Line {
    /// `<label>:`
    Label(Seq<char>),
    /// `cbnz xr, <label>`
    Cbnz(u8, Seq<char>),
    /// `cbz xr, <label>`
    Cbz(u8, Seq<char>),
    /// `b <label>`
    B(Seq<char>),
    /// `bne <label>` after `cmp`
    Bne(Seq<char>),
    /// `mov xd, xn`
    MovR(u8, u8),
    /// `mov xd, <imm>`
    MovI(u8, u64),
    /// `sub xd, xn, <imm>`
    SubI(u8, u8, u64),
    /// `mul xd, xn, xm`
    Mul(u8, u8, u8),
    /// `cmp xn, <imm>`
    CmpI(u8, u64),
    /// `cbnz wr, <label>`: a branch when the low 32 bits of `xr` are not zero
    CbnzW(u8, Seq<char>),
}

pub struct Regs {
    pub x: Seq<i64>,
    pub flags: (i64, i64),
}

pub open spec fn x(r: u8) -> Seq<char> {
    "x"@ + crate::text::spec_decimal(r as nat)
}

pub open spec fn dec(v: u64) -> Seq<char> {
    crate::text::spec_decimal(v as nat)
}

pub open spec fn line_text(l: Line) -> Seq<char> {
    match l {
        Line::Label(n) => n + ":\n"@,
        Line::Cbnz(r, n) => "    cbnz    "@ + x(r) + ", "@ + n + "\n"@,
        Line::Cbz(r, n) => "    cbz    "@ + x(r) + ", "@ + n + "\n"@,
        Line::B(n) => "    b       "@ + n + "\n"@,
        Line::Bne(n) => "    bne     "@ + n + "\n"@,
        Line::MovR(d, n) => "    mov     "@ + x(d) + ", "@ + x(n) + "\n"@,
        Line::MovI(d, v) => "    mov     "@ + x(d) + ", "@ + dec(v) + "\n"@,
        Line::SubI(d, n, v) => "    sub     "@ + x(d) + ", "@ + x(n) + ", "@ + dec(v) + "\n"@,
        Line::Mul(d, n, m) => "    mul     "@ + x(d) + ", "@ + x(n) + ", "@ + x(m) + "\n"@,
        Line::CmpI(n, v) => "    cmp     "@ + x(n) + ", "@ + dec(v) + "\n"@,
        Line::CbnzW(r, n) => "    cbnz    w"@ + crate::text::spec_decimal(r as nat) + ", "@ + n + "\n"@,
    }
}

pub open spec fn lines_text(ls: Seq<Line>) -> Seq<char>
    decreases ls.len(),
{
    if ls.len() == 0 {
        Seq::empty()
    } else {
        line_text(ls[0]) + lines_text(ls.subrange(1, ls.len() as int))
    }
}

/// Where a label is defined.
pub open spec fn target(ls: Seq<Line>, n: Seq<char>) -> int {
    choose|i: int| 0 <= i < ls.len() && ls[i] == Line::Label(n)
}

/// One line at `pc`: the next line to run and the registers after it.
pub open spec fn line_step(ls: Seq<Line>, pc: int, m: Regs) -> (int, Regs) {
    match ls[pc] {
        Line::Label(_) => (pc + 1, m),
        Line::Cbnz(r, n) => (if m.x[r as int] != 0 { target(ls, n) } else { pc + 1 }, m),
        Line::Cbz(r, n) => (if m.x[r as int] == 0 { target(ls, n) } else { pc + 1 }, m),
        Line::B(n) => (target(ls, n), m),
        Line::Bne(n) => (if m.flags.0 != m.flags.1 { target(ls, n) } else { pc + 1 }, m),
        Line::MovR(d, s) => (pc + 1, Regs { x: m.x.update(d as int, m.x[s as int]), ..m }),
        Line::MovI(d, v) => (pc + 1, Regs { x: m.x.update(d as int, v as i64), ..m }),
        Line::SubI(d, s, v) => (pc + 1, Regs { x: m.x.update(d as int, (m.x[s as int] - v) as i64), ..m }),
        Line::Mul(d, s, t) => (pc + 1, Regs { x: m.x.update(d as int, (m.x[s as int] * m.x[t as int]) as i64), ..m }),
        Line::CmpI(s, v) => (pc + 1, Regs { flags: (m.x[s as int], v as i64), ..m }),
        Line::CbnzW(r, n) => (if (m.x[r as int] as u32) != 0 { target(ls, n) } else { pc + 1 }, m),
    }
}

/// Running from `pc` for at most `fuel` lines: the registers when control
/// leaves the last line, if it does within the fuel.
pub open spec fn exec(ls: Seq<Line>, pc: int, m: Regs, fuel: nat) -> Option<Regs>
    decreases fuel,
{
    if pc == ls.len() {
        Some(m)
    } else if pc < 0 || pc > ls.len() || fuel == 0 {
        None
    } else {
        let (pc2, m2) = line_step(ls, pc, m);
        exec(ls, pc2, m2, (fuel - 1) as nat)
    }
}

/// `a` to the power `n`, with each product wrapped to 64 bits.
pub open spec fn pow_wrap(a: i64, n: nat) -> i64
    decreases n,
{
    if n == 0 {
        1
    } else {
        (pow_wrap(a, (n - 1) as nat) * a) as i64
    }
}

pub open spec fn pwr_lines(d: Seq<char>) -> Seq<Line> {
    let base = "BASE_CASE_"@ + d;
    let start = "PWR_LOOP_START_"@ + d;
    let end = "PWR_LOOP_END_"@ + d;
    seq![
        Line::Cbnz(10, base),
        Line::MovI(8, 1),
        Line::B(end),
        Line::Label(base),
        Line::MovR(8, 9),
        Line::CmpI(10, 1),
        Line::Bne(start),
        Line::B(end),
        Line::Label(start),
        Line::SubI(10, 10, 1),
        Line::Cbz(10, end),
        Line::Mul(8, 8, 9),
        Line::B(start),
        Line::Label(end),
    ]
}

proof fn lemma_targets(d: Seq<char>)
    ensures
        target(pwr_lines(d), "BASE_CASE_"@ + d) == 3,
        target(pwr_lines(d), "PWR_LOOP_START_"@ + d) == 8,
        target(pwr_lines(d), "PWR_LOOP_END_"@ + d) == 13,
{
    reveal_strlit("BASE_CASE_");
    reveal_strlit("PWR_LOOP_START_");
    reveal_strlit("PWR_LOOP_END_");
    let ls = pwr_lines(d);
    let base = "BASE_CASE_"@ + d;
    let start = "PWR_LOOP_START_"@ + d;
    let end = "PWR_LOOP_END_"@ + d;
    assert(base.len() != start.len() && base.len() != end.len() && start.len() != end.len());
    assert(ls[3] == Line::Label(base));
    assert(ls[8] == Line::Label(start));
    assert(ls[13] == Line::Label(end));
    let i = target(ls, base);
    assert(ls[i] == Line::Label(base));
    let j = target(ls, start);
    assert(ls[j] == Line::Label(start));
    let k = target(ls, end);
    assert(ls[k] == Line::Label(end));
}

/// The loop: at its start, with `x10 == k >= 1` and `x8` the power `n - k + 1`
/// of `x9`, it ends with `x8` the power `n`.
proof fn lemma_pwr_loop(d: Seq<char>, a: i64, n: nat, k: nat, m: Regs)
    requires
        m.x.len() == 31,
        m.x[9] == a,
        m.x[10] == k,
        1 <= k <= n,
        n <= i64::MAX,
        m.x[8] == pow_wrap(a, (n - k + 1) as nat),
    ensures
        exec(pwr_lines(d), 8, m, 5 * k + 2) is Some,
        exec(pwr_lines(d), 8, m, 5 * k + 2)->Some_0.x[8] == pow_wrap(a, n),
    decreases k,
{
    let ls = pwr_lines(d);
    lemma_targets(d);
    let m9 = Regs { x: m.x.update(10, (k - 1) as i64), ..m };
    assert(exec(ls, 8, m, 5 * k + 2) == exec(ls, 9, m, (5 * k + 1) as nat));
    assert(exec(ls, 9, m, (5 * k + 1) as nat) == exec(ls, 10, m9, (5 * k) as nat));
    if k == 1 {
        assert(exec(ls, 10, m9, (5 * k) as nat) == exec(ls, 13, m9, (5 * k - 1) as nat));
        assert(exec(ls, 13, m9, (5 * k - 1) as nat) == exec(ls, 14, m9, (5 * k - 2) as nat));
    } else {
        let m11 = Regs { x: m9.x.update(8, (m9.x[8] * m9.x[9]) as i64), ..m9 };
        assert(exec(ls, 10, m9, (5 * k) as nat) == exec(ls, 11, m9, (5 * k - 1) as nat));
        assert(exec(ls, 11, m9, (5 * k - 1) as nat) == exec(ls, 12, m11, (5 * k - 2) as nat));
        assert(exec(ls, 12, m11, (5 * k - 2) as nat) == exec(ls, 8, m11, (5 * k - 3) as nat));
        assert(m11.x[8] == pow_wrap(a, (n - (k - 1) + 1) as nat));
        lemma_pwr_loop(d, a, n, (k - 1) as nat, m11);
        assert(5 * (k - 1) + 2 == 5 * k - 3);
    }
}

/// The power `a ** n` is lowered to code that, for every `a` in `x9` and
/// every `n >= 0` in `x10`, stops with `x8` holding `a` to the power `n`
/// (each product wrapping to 64 bits): `a ** 0` is 1.
pub proof fn lemma_power_code(d: Seq<char>, a: i64, n: i64, m: Regs)
    requires
        m.x.len() == 31,
        m.x[9] == a,
        m.x[10] == n,
        n >= 0,
    ensures
        exists|ls: Seq<Line>, fuel: nat|
            #![trigger lines_text(ls), exec(ls, 0, m, fuel)]
            lines_text(ls) == spec_pwr_text(d) && exec(ls, 0, m, fuel) is Some && exec(ls, 0, m, fuel)->Some_0.x[8] == pow_wrap(a, n as nat),
{
    let ls = pwr_lines(d);
    lemma_targets(d);
    lemma_pwr_text(d);
    if n == 0 {
        let m1 = Regs { x: m.x.update(8, 1), ..m };
        assert(exec(ls, 0, m, 4) == exec(ls, 1, m, 3));
        assert(exec(ls, 1, m, 3) == exec(ls, 2, m1, 2));
        assert(exec(ls, 2, m1, 2) == exec(ls, 13, m1, 1));
        assert(exec(ls, 13, m1, 1) == exec(ls, 14, m1, 0));
        assert(lines_text(ls) == spec_pwr_text(d) && exec(ls, 0, m, 4) is Some && exec(ls, 0, m, 4)->Some_0.x[8] == pow_wrap(a, n as nat));
    } else {
        let m4 = Regs { x: m.x.update(8, a), ..m };
        let m5 = Regs { flags: (n, 1), ..m4 };
        let f = (5 * n + 2 + 6) as nat;
        assert(exec(ls, 0, m, f) == exec(ls, 3, m, (f - 1) as nat));
        assert(exec(ls, 3, m, (f - 1) as nat) == exec(ls, 4, m, (f - 2) as nat));
        assert(exec(ls, 4, m, (f - 2) as nat) == exec(ls, 5, m4, (f - 3) as nat));
        assert(exec(ls, 5, m4, (f - 3) as nat) == exec(ls, 6, m5, (f - 4) as nat));
        assert(pow_wrap(a, 1) == a) by {
            assert(pow_wrap(a, 0) == 1);
            assert((1 * a) as i64 == a);
        }
        if n == 1 {
            assert(exec(ls, 6, m5, (f - 4) as nat) == exec(ls, 7, m5, (f - 5) as nat));
            assert(exec(ls, 7, m5, (f - 5) as nat) == exec(ls, 13, m5, (f - 6) as nat));
            assert(exec(ls, 13, m5, (f - 6) as nat) == exec(ls, 14, m5, (f - 7) as nat));
        } else {
            assert(exec(ls, 6, m5, (f - 4) as nat) == exec(ls, 8, m5, (f - 5) as nat));
            assert(f - 5 == 5 * n + 2 + 1);
            lemma_pwr_loop(d, a, n as nat, n as nat, m5);
            lemma_exec_more_fuel(ls, 8, m5, (5 * n + 2) as nat, (f - 5) as nat);
        }
        assert(lines_text(ls) == spec_pwr_text(d) && exec(ls, 0, m, f) is Some && exec(ls, 0, m, f)->Some_0.x[8] == pow_wrap(a, n as nat));
    }
}

/// More fuel does not change a run that ends.
proof fn lemma_exec_more_fuel(ls: Seq<Line>, pc: int, m: Regs, f: nat, g: nat)
    requires
        exec(ls, pc, m, f) is Some,
        f <= g,
    ensures
        exec(ls, pc, m, g) == exec(ls, pc, m, f),
    decreases f,
{
    if pc != ls.len() && f > 0 {
        let (pc2, m2) = line_step(ls, pc, m);
        lemma_exec_more_fuel(ls, pc2, m2, (f - 1) as nat, (g - 1) as nat);
    }
}

proof fn lemma_lines_cons(l: Line, rest: Seq<Line>)
    ensures
        lines_text(seq![l] + rest) == line_text(l) + lines_text(rest),
{
    let s = seq![l] + rest;
    assert(s[0] == l);
    assert(s.subrange(1, s.len() as int) =~= rest);
}

/// The power loop's text, grouped from the right.
pub open spec fn pwr_text_r(d: Seq<char>) -> Seq<char> {
    ("    cbnz    x10, BASE_CASE_"@ + (d + ("\n    mov     x8, 1\n    b       PWR_LOOP_END_"@ + (d + ("\nBASE_CASE_"@ + (d + (":\n    mov     x8, x9\n    cmp     x10, 1\n    bne     PWR_LOOP_START_"@ + (d + ("\n    b       PWR_LOOP_END_"@ + (d + ("\nPWR_LOOP_START_"@ + (d + (":\n    sub     x10, x10, 1\n    cbz    x10, PWR_LOOP_END_"@ + (d + ("\n    mul     x8, x8, x9\n    b       PWR_LOOP_START_"@ + (d + ("\nPWR_LOOP_END_"@ + (d + ":\n"@))))))))))))))))))
}

proof fn lemma_pwr_line_texts(d: Seq<char>)
    ensures
        line_text(Line::Cbnz(10, "BASE_CASE_"@ + d)) == ("    cbnz    x10, BASE_CASE_"@ + (d + "\n"@)),
        line_text(Line::MovI(8, 1)) == "    mov     x8, 1\n"@,
        line_text(Line::B("PWR_LOOP_END_"@ + d)) == ("    b       PWR_LOOP_END_"@ + (d + "\n"@)),
        line_text(Line::Label("BASE_CASE_"@ + d)) == ("BASE_CASE_"@ + (d + ":\n"@)),
        line_text(Line::MovR(8, 9)) == "    mov     x8, x9\n"@,
        line_text(Line::CmpI(10, 1)) == "    cmp     x10, 1\n"@,
        line_text(Line::Bne("PWR_LOOP_START_"@ + d)) == ("    bne     PWR_LOOP_START_"@ + (d + "\n"@)),
        line_text(Line::Label("PWR_LOOP_START_"@ + d)) == ("PWR_LOOP_START_"@ + (d + ":\n"@)),
        line_text(Line::SubI(10, 10, 1)) == "    sub     x10, x10, 1\n"@,
        line_text(Line::Cbz(10, "PWR_LOOP_END_"@ + d)) == ("    cbz    x10, PWR_LOOP_END_"@ + (d + "\n"@)),
        line_text(Line::Mul(8, 8, 9)) == "    mul     x8, x8, x9\n"@,
        line_text(Line::B("PWR_LOOP_START_"@ + d)) == ("    b       PWR_LOOP_START_"@ + (d + "\n"@)),
        line_text(Line::Label("PWR_LOOP_END_"@ + d)) == ("PWR_LOOP_END_"@ + (d + ":\n"@)),
{
    assert(crate::text::spec_decimal(1) == seq!['1']);
    assert(crate::text::spec_decimal(8) == seq!['8']);
    assert(crate::text::spec_decimal(9) == seq!['9']);
    assert(crate::text::spec_decimal(10) =~= seq!['1', '0']);
    reveal_strlit("\n");
    reveal_strlit("    b       ");
    reveal_strlit("    b       PWR_LOOP_END_");
    reveal_strlit("    b       PWR_LOOP_START_");
    reveal_strlit("    bne     ");
    reveal_strlit("    bne     PWR_LOOP_START_");
    reveal_strlit("    cbnz    ");
    reveal_strlit("    cbnz    x10, BASE_CASE_");
    reveal_strlit("    cbz    ");
    reveal_strlit("    cbz    x10, PWR_LOOP_END_");
    reveal_strlit("    cmp     ");
    reveal_strlit("    cmp     x10, 1\n");
    reveal_strlit("    mov     ");
    reveal_strlit("    mov     x8, 1\n");
    reveal_strlit("    mov     x8, x9\n");
    reveal_strlit("    mul     ");
    reveal_strlit("    mul     x8, x8, x9\n");
    reveal_strlit("    sub     ");
    reveal_strlit("    sub     x10, x10, 1\n");
    reveal_strlit(", ");
    reveal_strlit("1");
    reveal_strlit(":\n");
    reveal_strlit("BASE_CASE_");
    reveal_strlit("PWR_LOOP_END_");
    reveal_strlit("PWR_LOOP_START_");
    reveal_strlit("x");
    assert(line_text(Line::Cbnz(10, "BASE_CASE_"@ + d)) =~= ("    cbnz    x10, BASE_CASE_"@ + (d + "\n"@)));
    assert(line_text(Line::MovI(8, 1)) =~= "    mov     x8, 1\n"@);
    assert(line_text(Line::B("PWR_LOOP_END_"@ + d)) =~= ("    b       PWR_LOOP_END_"@ + (d + "\n"@)));
    assert(line_text(Line::Label("BASE_CASE_"@ + d)) =~= ("BASE_CASE_"@ + (d + ":\n"@)));
    assert(line_text(Line::MovR(8, 9)) =~= "    mov     x8, x9\n"@);
    assert(line_text(Line::CmpI(10, 1)) =~= "    cmp     x10, 1\n"@);
    assert(line_text(Line::Bne("PWR_LOOP_START_"@ + d)) =~= ("    bne     PWR_LOOP_START_"@ + (d + "\n"@)));
    assert(line_text(Line::Label("PWR_LOOP_START_"@ + d)) =~= ("PWR_LOOP_START_"@ + (d + ":\n"@)));
    assert(line_text(Line::SubI(10, 10, 1)) =~= "    sub     x10, x10, 1\n"@);
    assert(line_text(Line::Cbz(10, "PWR_LOOP_END_"@ + d)) =~= ("    cbz    x10, PWR_LOOP_END_"@ + (d + "\n"@)));
    assert(line_text(Line::Mul(8, 8, 9)) =~= "    mul     x8, x8, x9\n"@);
    assert(line_text(Line::B("PWR_LOOP_START_"@ + d)) =~= ("    b       PWR_LOOP_START_"@ + (d + "\n"@)));
    assert(line_text(Line::Label("PWR_LOOP_END_"@ + d)) =~= ("PWR_LOOP_END_"@ + (d + ":\n"@)));
}

#[verifier::rlimit(60)]
proof fn lemma_pwr_lines_r(d: Seq<char>)
    ensures
        lines_text(pwr_lines(d)) == pwr_text_r(d),
{
    reveal_strlit("\n");
    reveal_strlit("\n    b       PWR_LOOP_END_");
    reveal_strlit("\n    mov     x8, 1\n    b       PWR_LOOP_END_");
    reveal_strlit("\n    mul     x8, x8, x9\n    b       PWR_LOOP_START_");
    reveal_strlit("\nBASE_CASE_");
    reveal_strlit("\nPWR_LOOP_END_");
    reveal_strlit("\nPWR_LOOP_START_");
    reveal_strlit("    b       PWR_LOOP_END_");
    reveal_strlit("    b       PWR_LOOP_START_");
    reveal_strlit("    bne     PWR_LOOP_START_");
    reveal_strlit("    cbnz    x10, BASE_CASE_");
    reveal_strlit("    cbz    x10, PWR_LOOP_END_");
    reveal_strlit("    cmp     x10, 1\n");
    reveal_strlit("    cmp     x10, 1\n    bne     PWR_LOOP_START_");
    reveal_strlit("    mov     x8, 1\n");
    reveal_strlit("    mov     x8, 1\n    b       PWR_LOOP_END_");
    reveal_strlit("    mov     x8, x9\n");
    reveal_strlit("    mov     x8, x9\n    cmp     x10, 1\n    bne     PWR_LOOP_START_");
    reveal_strlit("    mul     x8, x8, x9\n");
    reveal_strlit("    mul     x8, x8, x9\n    b       PWR_LOOP_START_");
    reveal_strlit("    sub     x10, x10, 1\n");
    reveal_strlit("    sub     x10, x10, 1\n    cbz    x10, PWR_LOOP_END_");
    reveal_strlit(":\n");
    reveal_strlit(":\n    mov     x8, x9\n    cmp     x10, 1\n    bne     PWR_LOOP_START_");
    reveal_strlit(":\n    sub     x10, x10, 1\n    cbz    x10, PWR_LOOP_END_");
    reveal_strlit("BASE_CASE_");
    reveal_strlit("PWR_LOOP_END_");
    reveal_strlit("PWR_LOOP_START_");
    let base = "BASE_CASE_"@ + d;
    let start = "PWR_LOOP_START_"@ + d;
    let end = "PWR_LOOP_END_"@ + d;
    lemma_pwr_line_texts(d);
    let l14 = Seq::<Line>::empty();
    let l13 = seq![Line::Label(end)] + l14;
    lemma_lines_cons(Line::Label(end), l14);
    let l12 = seq![Line::B(start)] + l13;
    lemma_lines_cons(Line::B(start), l13);
    let l11 = seq![Line::Mul(8, 8, 9)] + l12;
    lemma_lines_cons(Line::Mul(8, 8, 9), l12);
    let l10 = seq![Line::Cbz(10, end)] + l11;
    lemma_lines_cons(Line::Cbz(10, end), l11);
    let l9 = seq![Line::SubI(10, 10, 1)] + l10;
    lemma_lines_cons(Line::SubI(10, 10, 1), l10);
    let l8 = seq![Line::Label(start)] + l9;
    lemma_lines_cons(Line::Label(start), l9);
    let l7 = seq![Line::B(end)] + l8;
    lemma_lines_cons(Line::B(end), l8);
    let l6 = seq![Line::Bne(start)] + l7;
    lemma_lines_cons(Line::Bne(start), l7);
    let l5 = seq![Line::CmpI(10, 1)] + l6;
    lemma_lines_cons(Line::CmpI(10, 1), l6);
    let l4 = seq![Line::MovR(8, 9)] + l5;
    lemma_lines_cons(Line::MovR(8, 9), l5);
    let l3 = seq![Line::Label(base)] + l4;
    lemma_lines_cons(Line::Label(base), l4);
    let l2 = seq![Line::B(end)] + l3;
    lemma_lines_cons(Line::B(end), l3);
    let l1 = seq![Line::MovI(8, 1)] + l2;
    lemma_lines_cons(Line::MovI(8, 1), l2);
    let l0 = seq![Line::Cbnz(10, base)] + l1;
    lemma_lines_cons(Line::Cbnz(10, base), l1);
    assert(pwr_lines(d) =~= l0);
    assert(lines_text(l14) =~= Seq::<char>::empty());
    let h13 = ("PWR_LOOP_END_"@ + (d + ":\n"@));
    assert(lines_text(l13) =~= h13);
    let r12 = (d + ":\n"@);
    assert(h13 =~= "PWR_LOOP_END_"@ + r12);
    let h12 = ("    b       PWR_LOOP_START_"@ + (d + ("\nPWR_LOOP_END_"@ + r12)));
    assert(("    b       PWR_LOOP_START_"@ + (d + "\n"@)) + ("PWR_LOOP_END_"@ + r12) =~= h12);
    assert(lines_text(l12) == h12);
    let r11 = (d + ("\nPWR_LOOP_END_"@ + (d + ":\n"@)));
    assert(h12 =~= "    b       PWR_LOOP_START_"@ + r11);
    let h11 = ("    mul     x8, x8, x9\n    b       PWR_LOOP_START_"@ + r11);
    assert("    mul     x8, x8, x9\n"@ + ("    b       PWR_LOOP_START_"@ + r11) =~= h11);
    assert(lines_text(l11) == h11);
    let r10 = (d + ("\nPWR_LOOP_END_"@ + (d + ":\n"@)));
    assert(h11 =~= "    mul     x8, x8, x9\n    b       PWR_LOOP_START_"@ + r10);
    let h10 = ("    cbz    x10, PWR_LOOP_END_"@ + (d + ("\n    mul     x8, x8, x9\n    b       PWR_LOOP_START_"@ + r10)));
    assert(("    cbz    x10, PWR_LOOP_END_"@ + (d + "\n"@)) + ("    mul     x8, x8, x9\n    b       PWR_LOOP_START_"@ + r10) =~= h10);
    assert(lines_text(l10) == h10);
    let r9 = (d + ("\n    mul     x8, x8, x9\n    b       PWR_LOOP_START_"@ + (d + ("\nPWR_LOOP_END_"@ + (d + ":\n"@)))));
    assert(h10 =~= "    cbz    x10, PWR_LOOP_END_"@ + r9);
    let h9 = ("    sub     x10, x10, 1\n    cbz    x10, PWR_LOOP_END_"@ + r9);
    assert("    sub     x10, x10, 1\n"@ + ("    cbz    x10, PWR_LOOP_END_"@ + r9) =~= h9);
    assert(lines_text(l9) == h9);
    let r8 = (d + ("\n    mul     x8, x8, x9\n    b       PWR_LOOP_START_"@ + (d + ("\nPWR_LOOP_END_"@ + (d + ":\n"@)))));
    assert(h9 =~= "    sub     x10, x10, 1\n    cbz    x10, PWR_LOOP_END_"@ + r8);
    let h8 = ("PWR_LOOP_START_"@ + (d + (":\n    sub     x10, x10, 1\n    cbz    x10, PWR_LOOP_END_"@ + r8)));
    assert(("PWR_LOOP_START_"@ + (d + ":\n"@)) + ("    sub     x10, x10, 1\n    cbz    x10, PWR_LOOP_END_"@ + r8) =~= h8);
    assert(lines_text(l8) == h8);
    let r7 = (d + (":\n    sub     x10, x10, 1\n    cbz    x10, PWR_LOOP_END_"@ + (d + ("\n    mul     x8, x8, x9\n    b       PWR_LOOP_START_"@ + (d + ("\nPWR_LOOP_END_"@ + (d + ":\n"@)))))));
    assert(h8 =~= "PWR_LOOP_START_"@ + r7);
    let h7 = ("    b       PWR_LOOP_END_"@ + (d + ("\nPWR_LOOP_START_"@ + r7)));
    assert(("    b       PWR_LOOP_END_"@ + (d + "\n"@)) + ("PWR_LOOP_START_"@ + r7) =~= h7);
    assert(lines_text(l7) == h7);
    let r6 = (d + ("\nPWR_LOOP_START_"@ + (d + (":\n    sub     x10, x10, 1\n    cbz    x10, PWR_LOOP_END_"@ + (d + ("\n    mul     x8, x8, x9\n    b       PWR_LOOP_START_"@ + (d + ("\nPWR_LOOP_END_"@ + (d + ":\n"@)))))))));
    assert(h7 =~= "    b       PWR_LOOP_END_"@ + r6);
    let h6 = ("    bne     PWR_LOOP_START_"@ + (d + ("\n    b       PWR_LOOP_END_"@ + r6)));
    assert(("    bne     PWR_LOOP_START_"@ + (d + "\n"@)) + ("    b       PWR_LOOP_END_"@ + r6) =~= h6);
    assert(lines_text(l6) == h6);
    let r5 = (d + ("\n    b       PWR_LOOP_END_"@ + (d + ("\nPWR_LOOP_START_"@ + (d + (":\n    sub     x10, x10, 1\n    cbz    x10, PWR_LOOP_END_"@ + (d + ("\n    mul     x8, x8, x9\n    b       PWR_LOOP_START_"@ + (d + ("\nPWR_LOOP_END_"@ + (d + ":\n"@)))))))))));
    assert(h6 =~= "    bne     PWR_LOOP_START_"@ + r5);
    let h5 = ("    cmp     x10, 1\n    bne     PWR_LOOP_START_"@ + r5);
    assert("    cmp     x10, 1\n"@ + ("    bne     PWR_LOOP_START_"@ + r5) =~= h5);
    assert(lines_text(l5) == h5);
    let r4 = (d + ("\n    b       PWR_LOOP_END_"@ + (d + ("\nPWR_LOOP_START_"@ + (d + (":\n    sub     x10, x10, 1\n    cbz    x10, PWR_LOOP_END_"@ + (d + ("\n    mul     x8, x8, x9\n    b       PWR_LOOP_START_"@ + (d + ("\nPWR_LOOP_END_"@ + (d + ":\n"@)))))))))));
    assert(h5 =~= "    cmp     x10, 1\n    bne     PWR_LOOP_START_"@ + r4);
    let h4 = ("    mov     x8, x9\n    cmp     x10, 1\n    bne     PWR_LOOP_START_"@ + r4);
    assert("    mov     x8, x9\n"@ + ("    cmp     x10, 1\n    bne     PWR_LOOP_START_"@ + r4) =~= h4);
    assert(lines_text(l4) == h4);
    let r3 = (d + ("\n    b       PWR_LOOP_END_"@ + (d + ("\nPWR_LOOP_START_"@ + (d + (":\n    sub     x10, x10, 1\n    cbz    x10, PWR_LOOP_END_"@ + (d + ("\n    mul     x8, x8, x9\n    b       PWR_LOOP_START_"@ + (d + ("\nPWR_LOOP_END_"@ + (d + ":\n"@)))))))))));
    assert(h4 =~= "    mov     x8, x9\n    cmp     x10, 1\n    bne     PWR_LOOP_START_"@ + r3);
    let h3 = ("BASE_CASE_"@ + (d + (":\n    mov     x8, x9\n    cmp     x10, 1\n    bne     PWR_LOOP_START_"@ + r3)));
    assert(("BASE_CASE_"@ + (d + ":\n"@)) + ("    mov     x8, x9\n    cmp     x10, 1\n    bne     PWR_LOOP_START_"@ + r3) =~= h3);
    assert(lines_text(l3) == h3);
    let r2 = (d + (":\n    mov     x8, x9\n    cmp     x10, 1\n    bne     PWR_LOOP_START_"@ + (d + ("\n    b       PWR_LOOP_END_"@ + (d + ("\nPWR_LOOP_START_"@ + (d + (":\n    sub     x10, x10, 1\n    cbz    x10, PWR_LOOP_END_"@ + (d + ("\n    mul     x8, x8, x9\n    b       PWR_LOOP_START_"@ + (d + ("\nPWR_LOOP_END_"@ + (d + ":\n"@)))))))))))));
    assert(h3 =~= "BASE_CASE_"@ + r2);
    let h2 = ("    b       PWR_LOOP_END_"@ + (d + ("\nBASE_CASE_"@ + r2)));
    assert(("    b       PWR_LOOP_END_"@ + (d + "\n"@)) + ("BASE_CASE_"@ + r2) =~= h2);
    assert(lines_text(l2) == h2);
    let r1 = (d + ("\nBASE_CASE_"@ + (d + (":\n    mov     x8, x9\n    cmp     x10, 1\n    bne     PWR_LOOP_START_"@ + (d + ("\n    b       PWR_LOOP_END_"@ + (d + ("\nPWR_LOOP_START_"@ + (d + (":\n    sub     x10, x10, 1\n    cbz    x10, PWR_LOOP_END_"@ + (d + ("\n    mul     x8, x8, x9\n    b       PWR_LOOP_START_"@ + (d + ("\nPWR_LOOP_END_"@ + (d + ":\n"@)))))))))))))));
    assert(h2 =~= "    b       PWR_LOOP_END_"@ + r1);
    let h1 = ("    mov     x8, 1\n    b       PWR_LOOP_END_"@ + r1);
    assert("    mov     x8, 1\n"@ + ("    b       PWR_LOOP_END_"@ + r1) =~= h1);
    assert(lines_text(l1) == h1);
    let r0 = (d + ("\nBASE_CASE_"@ + (d + (":\n    mov     x8, x9\n    cmp     x10, 1\n    bne     PWR_LOOP_START_"@ + (d + ("\n    b       PWR_LOOP_END_"@ + (d + ("\nPWR_LOOP_START_"@ + (d + (":\n    sub     x10, x10, 1\n    cbz    x10, PWR_LOOP_END_"@ + (d + ("\n    mul     x8, x8, x9\n    b       PWR_LOOP_START_"@ + (d + ("\nPWR_LOOP_END_"@ + (d + ":\n"@)))))))))))))));
    assert(h1 =~= "    mov     x8, 1\n    b       PWR_LOOP_END_"@ + r0);
    let h0 = ("    cbnz    x10, BASE_CASE_"@ + (d + ("\n    mov     x8, 1\n    b       PWR_LOOP_END_"@ + r0)));
    assert(("    cbnz    x10, BASE_CASE_"@ + (d + "\n"@)) + ("    mov     x8, 1\n    b       PWR_LOOP_END_"@ + r0) =~= h0);
    assert(lines_text(l0) == h0);
    assert(h0 == pwr_text_r(d));
}

#[verifier::rlimit(60)]
proof fn lemma_pwr_spec_r(d: Seq<char>)
    ensures
        spec_pwr_text(d) == pwr_text_r(d),
{
    let q19 = Seq::<char>::empty();
    let q18 = ":\n"@ + q19;
    let q17 = d + q18;
    let q16 = "\nPWR_LOOP_END_"@ + q17;
    let q15 = d + q16;
    let q14 = "\n    mul     x8, x8, x9\n    b       PWR_LOOP_START_"@ + q15;
    let q13 = d + q14;
    let q12 = ":\n    sub     x10, x10, 1\n    cbz    x10, PWR_LOOP_END_"@ + q13;
    let q11 = d + q12;
    let q10 = "\nPWR_LOOP_START_"@ + q11;
    let q9 = d + q10;
    let q8 = "\n    b       PWR_LOOP_END_"@ + q9;
    let q7 = d + q8;
    let q6 = ":\n    mov     x8, x9\n    cmp     x10, 1\n    bne     PWR_LOOP_START_"@ + q7;
    let q5 = d + q6;
    let q4 = "\nBASE_CASE_"@ + q5;
    let q3 = d + q4;
    let q2 = "\n    mov     x8, 1\n    b       PWR_LOOP_END_"@ + q3;
    let q1 = d + q2;
    let q0 = "    cbnz    x10, BASE_CASE_"@ + q1;
    assert(pwr_text_r(d) =~= q0);
    let p0 = Seq::<char>::empty();
    let p1 = p0 + "    cbnz    x10, BASE_CASE_"@;
    vstd::seq_lib::lemma_concat_associative(p0, "    cbnz    x10, BASE_CASE_"@, q1);
    let p2 = p1 + d;
    vstd::seq_lib::lemma_concat_associative(p1, d, q2);
    let p3 = p2 + "\n    mov     x8, 1\n    b       PWR_LOOP_END_"@;
    vstd::seq_lib::lemma_concat_associative(p2, "\n    mov     x8, 1\n    b       PWR_LOOP_END_"@, q3);
    let p4 = p3 + d;
    vstd::seq_lib::lemma_concat_associative(p3, d, q4);
    let p5 = p4 + "\nBASE_CASE_"@;
    vstd::seq_lib::lemma_concat_associative(p4, "\nBASE_CASE_"@, q5);
    let p6 = p5 + d;
    vstd::seq_lib::lemma_concat_associative(p5, d, q6);
    let p7 = p6 + ":\n    mov     x8, x9\n    cmp     x10, 1\n    bne     PWR_LOOP_START_"@;
    vstd::seq_lib::lemma_concat_associative(p6, ":\n    mov     x8, x9\n    cmp     x10, 1\n    bne     PWR_LOOP_START_"@, q7);
    let p8 = p7 + d;
    vstd::seq_lib::lemma_concat_associative(p7, d, q8);
    let p9 = p8 + "\n    b       PWR_LOOP_END_"@;
    vstd::seq_lib::lemma_concat_associative(p8, "\n    b       PWR_LOOP_END_"@, q9);
    let p10 = p9 + d;
    vstd::seq_lib::lemma_concat_associative(p9, d, q10);
    let p11 = p10 + "\nPWR_LOOP_START_"@;
    vstd::seq_lib::lemma_concat_associative(p10, "\nPWR_LOOP_START_"@, q11);
    let p12 = p11 + d;
    vstd::seq_lib::lemma_concat_associative(p11, d, q12);
    let p13 = p12 + ":\n    sub     x10, x10, 1\n    cbz    x10, PWR_LOOP_END_"@;
    vstd::seq_lib::lemma_concat_associative(p12, ":\n    sub     x10, x10, 1\n    cbz    x10, PWR_LOOP_END_"@, q13);
    let p14 = p13 + d;
    vstd::seq_lib::lemma_concat_associative(p13, d, q14);
    let p15 = p14 + "\n    mul     x8, x8, x9\n    b       PWR_LOOP_START_"@;
    vstd::seq_lib::lemma_concat_associative(p14, "\n    mul     x8, x8, x9\n    b       PWR_LOOP_START_"@, q15);
    let p16 = p15 + d;
    vstd::seq_lib::lemma_concat_associative(p15, d, q16);
    let p17 = p16 + "\nPWR_LOOP_END_"@;
    vstd::seq_lib::lemma_concat_associative(p16, "\nPWR_LOOP_END_"@, q17);
    let p18 = p17 + d;
    vstd::seq_lib::lemma_concat_associative(p17, d, q18);
    let p19 = p18 + ":\n"@;
    vstd::seq_lib::lemma_concat_associative(p18, ":\n"@, q19);
    assert(p0 + q0 =~= q0);
    assert(p19 + q19 =~= p19);
    assert(spec_pwr_text(d) =~= p19);
}

/// The lines are written as the code generator writes the power loop.
proof fn lemma_pwr_text(d: Seq<char>)
    ensures
        lines_text(pwr_lines(d)) == spec_pwr_text(d),
{
    lemma_pwr_lines_r(d);
    lemma_pwr_spec_r(d);
}

/// Whether a branch line, run on registers `x`, goes to its label.
pub open spec fn branch_taken(c: Line, x: Seq<i64>) -> bool {
    match c {
        Line::Cbnz(r, _) => x[r as int] != 0,
        Line::Cbz(r, _) => x[r as int] == 0,
        Line::B(_) => true,
        Line::CbnzW(r, _) => (x[r as int] as u32) != 0,
        _ => false,
    }
}

/// The label a branch line goes to.
pub open spec fn branch_label(c: Line) -> Seq<char> {
    match c {
        Line::Cbnz(_, n) | Line::Cbz(_, n) | Line::B(n) | Line::Bne(n) | Line::CbnzW(_, n) => n,
        _ => Seq::empty(),
    }
}

/// Types of up to 32 bits, and the width of their slots.
pub open spec fn narrow_width(ty: Type) -> nat {
    match ty {
        Type::I8 | Type::U8 | Type::Char | Type::Bool => 1,
        Type::I16 | Type::U16 => 2,
        Type::I32 | Type::U32 => 4,
        _ => 0,
    }
}

/// A conditional branch on a variable of up to 32 bits loads the variable
/// and goes to the label exactly when its value is not zero; a branch
/// without a condition always goes to the label.
#[verifier::rlimit(60)]
pub proof fn lemma_branch_code(
    st: CgState,
    label: Seq<char>,
    f: Seq<char>,
    ty: Type,
    addr: usize,
    v: i64,
    m: Machine,
)
    requires
        sget(st.vars, f) == Some((ty, addr)),
        narrow_width(ty) > 0,
        m.x.len() == 31,
        m.mem.dom().contains(addr as int),
        m.mem[addr as int] == (narrow_width(ty), v),
    ensures
        spec_cg_br(st, label, Some(f)) is Ok,
        exists|l: Inst, c: Line|
            #![trigger inst_text(l), line_text(c)]
            spec_cg_br(st, label, Some(f))->Ok_0.data == st.data + inst_text(l) + line_text(c) && branch_label(c)
                == label && (branch_taken(c, step(m, l).x) <==> typed_value(ty, v) != 0),
        spec_cg_br(st, label, None)->Ok_0.data == st.data + line_text(Line::B(label)),
        branch_taken(Line::B(label), m.x),
{
    let lk = match ty {
        Type::I8 => MemOp::Ldrsb,
        Type::I16 => MemOp::Ldrsh,
        Type::I32 => MemOp::Ldrsw,
        Type::U8 | Type::Char | Type::Bool => MemOp::Ldrb,
        Type::U16 => MemOp::Ldrh,
        _ => MemOp::LdrW,
    };
    let l = Inst::Mem { k: lk, r: 8, addr };
    let c = Line::CbnzW(8, label);
    let y = step(m, l).x[8];
    assert(y == typed_value(ty, v));
    assert(((y as u32) != 0) <==> (y != 0)) by (bit_vector)
        requires
            -0x8000_0000 <= y < 0x1_0000_0000,
    ;
    reveal_strlit("    ");
    reveal_strlit("\n");
    reveal_strlit(", [sp, ");
    reveal_strlit("]");
    reveal_strlit("]\n");
    reveal_strlit("ldrsb   x");
    reveal_strlit("ldrsh   x");
    reveal_strlit("ldrsw   x");
    reveal_strlit("ldrb    w");
    reveal_strlit("ldrh    w");
    reveal_strlit("ldr     w");
    reveal_strlit("    ldrsb   x");
    reveal_strlit("    ldrsh   x");
    reveal_strlit("    ldrsw   x");
    reveal_strlit("    ldrb    w");
    reveal_strlit("    ldrh    w");
    reveal_strlit("    ldr     w");
    reveal_strlit("    cbnz    w8, ");
    reveal_strlit("    cbnz    w");
    reveal_strlit(", ");
    reveal_strlit("    b       ");
    assert(crate::text::spec_decimal(8) == seq!['8']);
    assert(crate::backend::spec_load_text(ty, 8, addr)->Some_0 =~= inst_text(l));
    assert(line_text(c) =~= "    cbnz    w8, "@ + label + "\n"@);
    let d = spec_cg_br(st, label, Some(f))->Ok_0.data;
    assert(d =~= st.data + inst_text(l) + line_text(c));
    assert(spec_cg_br(st, label, None)->Ok_0.data =~= st.data + line_text(Line::B(label)));
}

/// The width of a variable's slot, for the types that have one.
pub open spec fn slot_width(ty: Type) -> nat {
    match ty {
        Type::I64 | Type::U64 | Type::Usize => 8,
        _ => narrow_width(ty),
    }
}

/// A call with one variable argument, such as `exit x`, loads the variable
/// into the first argument register `x0`, holding the value of the variable
/// for its type, and then branches to the function.
#[verifier::rlimit(60)]
pub proof fn lemma_call_one_argument(
    st: CgState,
    name: Seq<char>,
    n: Seq<char>,
    aty: Type,
    vty: Type,
    addr: usize,
    v: i64,
    m: Machine,
)
    requires
        sget(st.vars, n) == Some((vty, addr)),
        crate::asmlaws::has_slot(vty),
        m.x.len() == 31,
        m.mem.dom().contains(addr as int),
        m.mem[addr as int] == (slot_width(vty), v),
    ensures
        crate::backend::spec_cg_call(st, name, Some(seq![(crate::irgenerator::ArgV::Sym(n), aty)])) is Ok,
        exists|l: Inst|
            #![trigger inst_text(l)]
            crate::backend::spec_cg_call(st, name, Some(seq![(crate::irgenerator::ArgV::Sym(n), aty)]))->Ok_0.data
                == st.data + inst_text(l) + "    bl      "@ + name + "\n"@ && step(m, l).x[0] == typed_value(
                vty,
                v,
            ),
{
    let lk = match vty {
        Type::I8 => MemOp::Ldrsb,
        Type::I16 => MemOp::Ldrsh,
        Type::I32 => MemOp::Ldrsw,
        Type::U8 | Type::Char | Type::Bool => MemOp::Ldrb,
        Type::U16 => MemOp::Ldrh,
        Type::U32 => MemOp::LdrW,
        _ => MemOp::LdrX,
    };
    let l = Inst::Mem { k: lk, r: 0, addr };
    assert(step(m, l).x[0] == typed_value(vty, v));
    reveal_strlit("    ");
    reveal_strlit("\n");
    reveal_strlit(", [sp, ");
    reveal_strlit("]");
    reveal_strlit("]\n");
    reveal_strlit("ldrsb   x");
    reveal_strlit("ldrsh   x");
    reveal_strlit("ldrsw   x");
    reveal_strlit("ldrb    w");
    reveal_strlit("ldrh    w");
    reveal_strlit("ldr     w");
    reveal_strlit("ldr     x");
    reveal_strlit("    ldrsb   x");
    reveal_strlit("    ldrsh   x");
    reveal_strlit("    ldrsw   x");
    reveal_strlit("    ldrb    w");
    reveal_strlit("    ldrh    w");
    reveal_strlit("    ldr     w");
    reveal_strlit("    ldr     x");
    assert(crate::text::spec_decimal(0) == seq!['0']);
    assert(crate::backend::spec_load_text(vty, 0, addr)->Some_0 =~= inst_text(l));
    let a = seq![(crate::irgenerator::ArgV::Sym(n), aty)];
    let st1 = CgState { data: st.data + inst_text(l), ..st };
    assert(crate::backend::spec_call_args(st, name, a, 0) == crate::backend::spec_call_args(st1, name, a, 1));
    assert(crate::backend::spec_call_args(st1, name, a, 1) == Ok::<CgState, crate::backend::CodegenError>(st1));
}

} // verus!
