//! Runs the assembly that the compiler produces on a small model of the
//! AArch64 instructions it uses, and checks the exit status of the program.

use std::collections::HashMap;

use klc::compiler::Compiler;

/// The exit status of the program, or a description of what stopped the run.
fn run_asm(text: &str, max_steps: usize) -> Result<u8, String> {
    let lines: Vec<&str> = text.lines().collect();
    let mut labels: HashMap<String, usize> = HashMap::new();
    for (i, l) in lines.iter().enumerate() {
        if !l.starts_with(' ') && !l.starts_with('.') && l.ends_with(':') {
            labels.insert(l.trim_end_matches(':').to_string(), i);
        }
    }
    let mut pc = *labels.get("_main").ok_or("no _main")?;
    let mut x = [0u64; 32];
    let sp: u64 = 1 << 20;
    let mut mem: HashMap<u64, u8> = HashMap::new();
    let mut flags: (i64, i64) = (0, 0);
    let mut steps = 0;
    let reg = |s: &str| -> Result<(usize, bool), String> {
        let wide = s.starts_with('x');
        if !wide && !s.starts_with('w') {
            return Err(format!("not a register: {s}"));
        }
        Ok((s[1..].parse::<usize>().map_err(|e| format!("{s}: {e}"))?, wide))
    };
    let num = |s: &str| -> Result<i64, String> {
        if let Some(h) = s.strip_prefix("0x") {
            i64::from_str_radix(h, 16).map_err(|e| e.to_string())
        } else {
            s.parse::<i64>().map_err(|e| format!("{s}: {e}"))
        }
    };
    loop {
        steps += 1;
        if steps > max_steps {
            return Err("too many steps".to_string());
        }
        let line = lines.get(pc).ok_or("ran off the end")?.trim();
        pc += 1;
        if line.is_empty() || line.ends_with(':') || line.starts_with('.') {
            continue;
        }
        let (op, rest) = line.split_once(char::is_whitespace).unwrap_or((line, ""));
        let rest = rest.trim();
        let (args, addr): (Vec<String>, Option<u64>) = match rest.split_once('[') {
            Some((a, m)) => {
                let off = m.trim_end_matches(']').split(',').nth(1).ok_or("address")?.trim();
                (
                    a.split(',').map(|t| t.trim().to_string()).filter(|t| !t.is_empty()).collect(),
                    Some(sp + num(off)? as u64),
                )
            }
            None => (rest.split(',').map(|t| t.trim().to_string()).collect(), None),
        };
        let val = |x: &[u64; 32], s: &str| -> Result<i64, String> {
            if s.starts_with('x') || s.starts_with('w') {
                let (r, wide) = reg(s)?;
                Ok(if wide { x[r] as i64 } else { (x[r] & 0xFFFF_FFFF) as i64 })
            } else {
                num(s)
            }
        };
        let set = |x: &mut [u64; 32], s: &str, v: i64| -> Result<(), String> {
            let (r, wide) = reg(s)?;
            x[r] = if wide { v as u64 } else { (v as u64) & 0xFFFF_FFFF };
            Ok(())
        };
        let load = |mem: &HashMap<u64, u8>, a: u64, n: u64| -> u64 {
            (0..n).fold(0u64, |acc, i| acc | (*mem.get(&(a + i)).unwrap_or(&0) as u64) << (8 * i))
        };
        match op {
            "mov" => {
                let v = val(&x, &args[1])?;
                set(&mut x, &args[0], v)?;
            }
            "movk" => {
                let (r, wide) = reg(&args[0])?;
                let piece = num(&args[1])? as u64;
                let shift: u64 = args[2].trim_start_matches("lsl").trim().parse().map_err(|_| "shift")?;
                if !wide && shift > 16 {
                    return Err(format!("movk on a w register with shift {shift}"));
                }
                let v = (x[r] & !(0xFFFFu64 << shift)) | (piece << shift);
                x[r] = if wide { v } else { v & 0xFFFF_FFFF };
            }
            "str" | "strb" | "strh" => {
                let n = match op {
                    "strb" => 1,
                    "strh" => 2,
                    _ => if reg(&args[0])?.1 { 8 } else { 4 },
                };
                let v = val(&x, &args[0])? as u64;
                let a = addr.ok_or("store address")?;
                for i in 0..n {
                    mem.insert(a + i, (v >> (8 * i)) as u8);
                }
            }
            "ldr" | "ldrb" | "ldrh" | "ldrsb" | "ldrsh" | "ldrsw" => {
                let a = addr.ok_or("load address")?;
                let v: i64 = match op {
                    "ldrb" => load(&mem, a, 1) as i64,
                    "ldrh" => load(&mem, a, 2) as i64,
                    "ldrsb" => load(&mem, a, 1) as u8 as i8 as i64,
                    "ldrsh" => load(&mem, a, 2) as u16 as i16 as i64,
                    "ldrsw" => load(&mem, a, 4) as u32 as i32 as i64,
                    _ => if reg(&args[0])?.1 { load(&mem, a, 8) as i64 } else { load(&mem, a, 4) as i64 },
                };
                set(&mut x, &args[0], v)?;
            }
            "add" | "sub" | "mul" | "sdiv" | "udiv" | "and" | "orr" | "eor" | "lsl" | "lsr" | "asr" => {
                if args[0] == "sp" {
                    continue;
                }
                let a = val(&x, &args[1])?;
                let b = val(&x, &args[2])?;
                let v = match op {
                    "add" => a.wrapping_add(b),
                    "sub" => a.wrapping_sub(b),
                    "mul" => a.wrapping_mul(b),
                    "sdiv" => if b == 0 { 0 } else { a.wrapping_div(b) },
                    "udiv" => if b == 0 { 0 } else { ((a as u64) / (b as u64)) as i64 },
                    "and" => a & b,
                    "orr" => a | b,
                    "eor" => a ^ b,
                    "lsl" => ((a as u64) << (b as u64 & 63)) as i64,
                    "lsr" => ((a as u64) >> (b as u64 & 63)) as i64,
                    _ => a >> (b as u64 & 63),
                };
                set(&mut x, &args[0], v)?;
            }
            "mvn" => {
                let a = val(&x, &args[1])?;
                set(&mut x, &args[0], !a)?;
            }
            "cmp" => {
                flags = (val(&x, &args[0])?, val(&x, &args[1])?);
            }
            "cset" => {
                let (a, b) = flags;
                let c = match args[1].as_str() {
                    "lt" => a < b,
                    "gt" => a > b,
                    "le" => a <= b,
                    "ge" => a >= b,
                    "eq" => a == b,
                    "ne" => a != b,
                    other => return Err(format!("condition {other}")),
                };
                set(&mut x, &args[0], c as i64)?;
            }
            "cbnz" | "cbz" => {
                let v = val(&x, &args[0])?;
                if (v != 0) == (op == "cbnz") {
                    pc = *labels.get(&args[1]).ok_or("label")?;
                }
            }
            "b" => pc = *labels.get(&args[0]).ok_or("label")?,
            "bne" => {
                if flags.0 != flags.1 {
                    pc = *labels.get(&args[0]).ok_or("label")?;
                }
            }
            "bl" if args[0] == "_exit" => return Ok(x[0] as u8),
            other => return Err(format!("instruction {other}")),
        }
    }
}

fn run_source(src: &str) -> Result<u8, String> {
    let text = Compiler::compile_to_asm(src, "aarch64").map_err(|_| "does not compile".to_string())?;
    run_asm(&text, 50_000_000)
}

/// The benchmark program of the README, with the number of outer iterations
/// as a parameter.
fn benchmark(iterations: u32) -> String {
    format!(
        "mut hash = 1;
mut outer = 0;

while (outer < {iterations}) {{
    mut x = outer;
    mut bits = 0;

    while (x > 0) {{
        if (x & 1) {{
            bits = bits + 1;
        }}
        x = x / 2;
    }}

    if (bits > 8) {{
        hash = (hash * 31 + outer) & 16777215;
    }} elif (bits > 4) {{
        hash = (hash ^ outer) & 16777215;
    }} else {{
        hash = (hash + bits * 7) & 16777215;
    }}

    mut collatz = outer + 1;
    mut steps = 0;
    while (collatz != 1) {{
        mut r = collatz & 1;
        if (r == 1) {{
            collatz = collatz * 3 + 1;
        }} else {{
            collatz = collatz / 2;
        }}
        steps = steps + 1;
    }}

    hash = (hash + steps) & 16777215;

    mut ga = outer + 17;
    mut gb = outer + 31;
    while (gb != 0) {{
        mut temp = gb;
        gb = ga - (ga / gb) * gb;
        ga = temp;
    }}

    hash = (hash ^ ga) & 16777215;

    mut fa = 1;
    mut fb = 1;
    mut fi = 0;
    while (fi < 20) {{
        mut temp = fa + fb;
        fa = fb;
        fb = temp;
        fi = fi + 1;
    }}

    hash = (hash + fb) & 16777215;

    mut pc = outer + 2;
    mut ip = 1;
    mut dv = 2;
    while (dv < pc / 2 + 1) {{
        if (pc - (pc / dv) * dv == 0) {{
            ip = 0;
        }}
        dv = dv + 1;
    }}

    if (ip) {{
        hash = (hash * 37 + pc) & 16777215;
    }} else {{
        hash = (hash + pc) & 16777215;
    }}

    outer = outer + 1;
}}

exit hash & 255;
"
    )
}

/// The same computation written directly.
fn benchmark_status(iterations: i64) -> u8 {
    let mut hash: i64 = 1;
    for outer in 0..iterations {
        let bits = (outer as u64).count_ones() as i64;
        hash = if bits > 8 {
            (hash * 31 + outer) & 16777215
        } else if bits > 4 {
            (hash ^ outer) & 16777215
        } else {
            (hash + bits * 7) & 16777215
        };
        let mut collatz = outer + 1;
        let mut steps = 0;
        while collatz != 1 {
            collatz = if collatz & 1 == 1 { collatz * 3 + 1 } else { collatz / 2 };
            steps += 1;
        }
        hash = (hash + steps) & 16777215;
        let (mut ga, mut gb) = (outer + 17, outer + 31);
        while gb != 0 {
            let t = gb;
            gb = ga % gb;
            ga = t;
        }
        hash = (hash ^ ga) & 16777215;
        let (mut fa, mut fb) = (1i64, 1i64);
        for _ in 0..20 {
            let t = fa + fb;
            fa = fb;
            fb = t;
        }
        hash = (hash + fb) & 16777215;
        let pc = outer + 2;
        let mut ip = true;
        let mut d = 2;
        while d * d <= pc {
            if pc % d == 0 {
                ip = false;
            }
            d += 1;
        }
        hash = if ip { (hash * 37 + pc) & 16777215 } else { (hash + pc) & 16777215 };
    }
    (hash & 255) as u8
}

#[test]
fn exit_status_of_a_constant() {
    assert_eq!(run_source("exit 42;"), Ok(42));
}

#[test]
fn arithmetic_with_grouping_and_negation() {
    assert_eq!(run_source("let a = (1 + 2) - 4; exit a + 10;"), Ok(9));
    assert_eq!(run_source("mut a = -5; a = a * -3; exit a;"), Ok(15));
    assert_eq!(run_source("exit 3 ** 4 - 70;"), Ok(11));
    assert_eq!(run_source("exit 2 ** 3 ** 2 - 500;"), Ok(12));
    assert_eq!(run_source("exit 7 ** 0 + 5 ** 1;"), Ok(6));
}

#[test]
fn declared_variables_keep_their_values() {
    assert_eq!(run_source("let a = 3; let b = 4; let c = a * 10 + b; exit c;"), Ok(34));
}

#[test]
fn wide_values_round_trip_through_the_stack() {
    assert_eq!(run_source("let a: i64 = 4294967296; let b: i64 = a / 65536; exit b / 256;"), Ok(0));
    assert_eq!(run_source("let a: i64 = 4294967296; exit (a / 65536) / 257;"), Ok(255));
}

#[test]
fn if_elif_else_picks_one_branch() {
    let src = |v: i32| {
        format!(
            "mut r = 0; let v = {v}; if (v == 1) {{ r = 10; }} elif (v == 2) {{ r = 20; }} elif (v == 3) {{ r = 30; }} else {{ r = 40; }} exit r;"
        )
    };
    assert_eq!(run_source(&src(1)), Ok(10));
    assert_eq!(run_source(&src(2)), Ok(20));
    assert_eq!(run_source(&src(3)), Ok(30));
    assert_eq!(run_source(&src(7)), Ok(40));
}

#[test]
fn while_loop_counts() {
    assert_eq!(run_source("mut i = 0; mut s = 0; while (i < 10) { s = s + i; i = i + 1; } exit s;"), Ok(45));
}

#[test]
fn readme_benchmark_on_fewer_iterations() {
    for n in [0u32, 1, 7, 40] {
        assert_eq!(run_source(&benchmark(n)), Ok(benchmark_status(n as i64)), "iterations: {n}");
    }
}

#[test]
fn readme_benchmark_compiles() {
    let text = Compiler::compile_to_asm(&benchmark(50000), "aarch64");
    assert!(text.is_ok());
    assert!(text.ok().unwrap().contains("_main:\n"));
    assert_eq!(benchmark_status(50000), 153);
}

#[test]
fn no_label_is_defined_twice() {
    let src = "mut i = 0; mut s = 0;
while (i < 6) {
    if (i == 1) { s = s + 2 ** 3; } elif (i == 2) { s = s + 3 ** 2; } elif (i == 3) { if (s > 5) { s = s + 1; } else { s = s - 1; } } else { s = s + i; }
    while (s > 100) { s = s - 100; }
    i = i + 1;
}
exit s;";
    let text = Compiler::compile_to_asm(src, "aarch64").ok().expect("compiles");
    let labels: Vec<&str> = text.lines().filter(|l| !l.starts_with(' ') && !l.starts_with('.')).collect();
    let mut unique = labels.clone();
    unique.sort();
    unique.dedup();
    assert_eq!(labels.len(), unique.len(), "{:?}", labels);
    assert_eq!(run_source(src), Ok(27));
}
