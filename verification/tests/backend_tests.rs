use klc::ast::Type;
use klc::backend::{CodeGenerator, CodegenError};
use klc::irgenerator::{ArgType, Br, Call, Define, Expr, KlirBlob, KlirNode, Label, ProgScope, Store};
use klc::lexer::Op;

const HEADER: &str = ".global _main\n.align 4\n";
const FOOTER: &str = "    add     sp, sp, 0\n    sub     sp, sp, 0\n";

fn scope(id: &str, nodes: Vec<KlirNode>) -> ProgScope {
    ProgScope { id: id.to_string(), ir: KlirBlob { nodes } }
}

fn store_imm(ty: Type, v: i128, dest: &str) -> KlirNode {
    KlirNode::Store(Store { ty, src: ArgType::Imm(v), dest: dest.to_string() })
}

fn run(scopes: Vec<ProgScope>) -> Result<String, CodegenError> {
    let mut cg = CodeGenerator::new(scopes);
    cg.generate()?;
    Ok(cg.asm_out)
}

/// The body between the header and the stack adjustments.
fn body(scopes: Vec<ProgScope>) -> String {
    let t = run(scopes).expect("generates");
    assert!(t.starts_with(HEADER));
    assert!(t.ends_with(FOOTER));
    t[HEADER.len()..t.len() - FOOTER.len()].to_string()
}

#[test]
fn empty_program_is_header_and_stack_adjustments() {
    assert_eq!(run(Vec::new()).unwrap(), format!("{}{}", HEADER, FOOTER));
}

#[test]
fn main_with_declarations_and_exit() {
    let nodes = vec![
        KlirNode::Define(Define { return_ty: Type::Void, name: "main".to_string(), args: None }),
        store_imm(Type::I32, 5, "x"),
        KlirNode::Expr(Expr {
            ty: Type::I32,
            lhs: ArgType::Sym("x".to_string()),
            rhs: ArgType::Imm(2),
            op: Op::Add,
            dest: "t0".to_string(),
        }),
        KlirNode::Store(Store { ty: Type::I32, src: ArgType::Temp("t0".to_string()), dest: "y".to_string() }),
        KlirNode::Call(Call {
            return_ty: Type::Void,
            name: "_exit".to_string(),
            args: Some(vec![(ArgType::Sym("y".to_string()), Type::I32)]),
        }),
    ];
    assert_eq!(
        body(vec![scope("main", nodes)]),
        "_main:\n    mov     w8, 0x5\n    str     w8, [sp, 0]\n    ldrsw   x9, [sp, 0]\n    mov     x10, 2\n    add     x8, x9, x10\n    str     w8, [sp, 8]\n    ldrsw   x8, [sp, 8]\n    str     w8, [sp, 16]\n    ldrsw   x0, [sp, 16]\n    bl      _exit\n"
    );
}

#[test]
fn wide_immediate_is_loaded_in_four_pieces() {
    let v: i128 = 0x1234_5678_9ABC_DEF0;
    let text = body(vec![scope("s", vec![store_imm(Type::I64, v, "a")])]);
    assert_eq!(
        text,
        "    mov     x8, 0xDEF0\n    movk    x8, 0x9ABC, lsl 16\n    movk    x8, 0x5678, lsl 32\n    movk    x8, 0x1234, lsl 48\n    str     x8, [sp, 0]\n"
    );
    // The pieces put back together give the value.
    let pieces: Vec<u64> = text
        .lines()
        .filter_map(|l| l.split("0x").nth(1))
        .map(|h| u64::from_str_radix(h.split(',').next().unwrap(), 16).unwrap())
        .collect();
    let back = pieces[0] | pieces[1] << 16 | pieces[2] << 32 | pieces[3] << 48;
    assert_eq!(back, v as u64);
}

#[test]
fn negative_immediate_pieces() {
    let text = body(vec![scope("s", vec![store_imm(Type::I32, -1, "a")])]);
    assert_eq!(
        text,
        "    mov     w8, 0xFFFF\n    movk    w8, 0xFFFF, lsl 16\n    str     w8, [sp, 0]\n"
    );
    let text = body(vec![scope("s", vec![store_imm(Type::I64, -1, "a")])]);
    assert_eq!(
        text,
        "    mov     x8, 0xFFFF\n    movk    x8, 0xFFFF, lsl 16\n    movk    x8, 0xFFFF, lsl 32\n    movk    x8, 0xFFFF, lsl 48\n    str     x8, [sp, 0]\n"
    );
}

#[test]
fn each_declared_variable_gets_its_own_slot() {
    let nodes = vec![
        store_imm(Type::I32, 1, "a"),
        store_imm(Type::I32, 2, "b"),
        store_imm(Type::I32, 3, "a"),
        KlirNode::Store(Store { ty: Type::I32, src: ArgType::Sym("b".to_string()), dest: "c".to_string() }),
        KlirNode::Store(Store { ty: Type::I32, src: ArgType::Sym("c".to_string()), dest: "a".to_string() }),
    ];
    assert_eq!(
        body(vec![scope("s", nodes)]),
        "    mov     w8, 0x1\n    str     w8, [sp, 0]\n\
         \x20   mov     w8, 0x2\n    str     w8, [sp, 8]\n\
         \x20   mov     w8, 0x3\n    str     w8, [sp, 0]\n\
         \x20   ldrsw   x8, [sp, 8]\n    str     w8, [sp, 16]\n\
         \x20   ldrsw   x8, [sp, 16]\n    str     w8, [sp, 0]\n"
    );
}

#[test]
fn usize_loads_and_stores_like_u64() {
    let nodes = vec![
        store_imm(Type::Usize, 4, "n"),
        KlirNode::Expr(Expr {
            ty: Type::Usize,
            lhs: ArgType::Sym("n".to_string()),
            rhs: ArgType::Imm(1),
            op: Op::Add,
            dest: "t0".to_string(),
        }),
    ];
    assert_eq!(
        body(vec![scope("s", nodes)]),
        "    mov     x8, 0x4\n    str     x8, [sp, 0]\n    ldr     x9, [sp, 0]\n    mov     x10, 1\n    add     x8, x9, x10\n    str     x8, [sp, 8]\n"
    );
}

#[test]
fn narrow_immediate_uses_two_pieces() {
    let text = body(vec![scope("s", vec![store_imm(Type::U16, 0x1_2345, "a")])]);
    assert_eq!(text, "    mov     w8, 0x2345\n    movk    w8, 0x1, lsl 16\n    strh    w8, [sp, 0]\n");
}

#[test]
fn unsigned_remainder() {
    let nodes = vec![KlirNode::Expr(Expr {
        ty: Type::U32,
        lhs: ArgType::Imm(7),
        rhs: ArgType::Imm(3),
        op: Op::Mod,
        dest: "t0".to_string(),
    })];
    assert_eq!(
        body(vec![scope("s", nodes)]),
        "    mov     x9, 7\n    mov     x10, 3\n    udiv    x8, x9, x10\n    mul     x10, x8, x10\n    sub     x8, x9, x10\n    str     w8, [sp, 0]\n"
    );
}

#[test]
fn expression_into_existing_variable_reuses_its_slot() {
    let e = |dest: &str| {
        KlirNode::Expr(Expr {
            ty: Type::I64,
            lhs: ArgType::Imm(1),
            rhs: ArgType::Imm(2),
            op: Op::Lt,
            dest: dest.to_string(),
        })
    };
    let text = body(vec![scope("s", vec![e("a"), e("b"), e("a")])]);
    assert_eq!(
        text,
        "    mov     x9, 1\n    mov     x10, 2\n    cmp     x9, x10\n    cset    x8, lt\n    str     x8, [sp, 0]\n\
         \x20   mov     x9, 1\n    mov     x10, 2\n    cmp     x9, x10\n    cset    x8, lt\n    str     x8, [sp, 8]\n\
         \x20   mov     x9, 1\n    mov     x10, 2\n    cmp     x9, x10\n    cset    x8, lt\n    str     x8, [sp, 0]\n"
    );
}

#[test]
fn branches_and_labels() {
    let nodes = vec![
        store_imm(Type::Bool, 1, "c"),
        KlirNode::Br(Br { label: "L".to_string(), flag: Some("c".to_string()) }),
        KlirNode::Br(Br { label: "M".to_string(), flag: None }),
        KlirNode::Label(Label { name: "L".to_string() }),
    ];
    assert_eq!(
        body(vec![scope("s", nodes)]),
        "    mov     w8, 0x1\n    strb    w8, [sp, 0]\n    ldrb    w8, [sp, 0]\n    cbnz    w8, L\n    b       M\nL:\n"
    );
}

#[test]
fn call_of_a_defined_function_binds_its_parameters() {
    let def = scope(
        "f",
        vec![KlirNode::Define(Define {
            return_ty: Type::Void,
            name: "f".to_string(),
            args: Some(vec![(ArgType::Sym("a".to_string()), Type::I32)]),
        })],
    );
    let caller = scope(
        "main",
        vec![
            KlirNode::Call(Call {
                return_ty: Type::Void,
                name: "f".to_string(),
                args: Some(vec![(ArgType::Imm(7), Type::I32)]),
            }),
            KlirNode::Expr(Expr {
                ty: Type::I32,
                lhs: ArgType::Sym("a".to_string()),
                rhs: ArgType::Imm(1),
                op: Op::Add,
                dest: "t0".to_string(),
            }),
        ],
    );
    assert_eq!(
        body(vec![def, caller]),
        "f:\n    mov     w0, 0x7\n    str     w0, [sp, 0]\n    bl      f\n    ldrsw   x9, [sp, 0]\n    mov     x10, 1\n    add     x8, x9, x10\n    str     w8, [sp, 8]\n"
    );
}

#[test]
fn unknown_variable_stops_generation() {
    let nodes = vec![KlirNode::Store(Store {
        ty: Type::I32,
        src: ArgType::Sym("nope".to_string()),
        dest: "x".to_string(),
    })];
    assert_eq!(run(vec![scope("s", nodes)]), Err(CodegenError::Abort));
}

#[test]
fn unsupported_type_stops_generation() {
    assert_eq!(run(vec![scope("s", vec![store_imm(Type::F32, 1, "x")])]), Err(CodegenError::Abort));
}

#[test]
fn unsupported_operator_stops_generation() {
    let nodes = vec![KlirNode::Expr(Expr {
        ty: Type::I32,
        lhs: ArgType::Imm(1),
        rhs: ArgType::Imm(2),
        op: Op::Asgn,
        dest: "t0".to_string(),
    })];
    assert_eq!(run(vec![scope("s", nodes)]), Err(CodegenError::Abort));
}

#[test]
fn immediate_parameter_in_definition_stops_generation() {
    let nodes = vec![KlirNode::Define(Define {
        return_ty: Type::Void,
        name: "g".to_string(),
        args: Some(vec![(ArgType::Imm(1), Type::I32)]),
    })];
    assert_eq!(run(vec![scope("g", nodes)]), Err(CodegenError::Abort));
}

#[test]
fn each_power_has_labels_of_its_own() {
    let pw = |dest: &str| {
        KlirNode::Expr(Expr {
            ty: Type::I64,
            lhs: ArgType::Imm(2),
            rhs: ArgType::Imm(3),
            op: Op::Pwr,
            dest: dest.to_string(),
        })
    };
    let text = body(vec![scope("s", vec![pw("t0"), pw("t1")])]);
    let labels: Vec<&str> = text.lines().filter(|l| !l.starts_with(' ')).collect();
    assert_eq!(
        labels,
        vec![
            "BASE_CASE_t0:",
            "PWR_LOOP_START_t0:",
            "PWR_LOOP_END_t0:",
            "BASE_CASE_t1:",
            "PWR_LOOP_START_t1:",
            "PWR_LOOP_END_t1:",
        ]
    );
    assert!(text.starts_with("    mov     x9, 2\n    mov     x10, 3\n    cbnz    x10, BASE_CASE_t0\n    mov     x8, 1\n    b       PWR_LOOP_END_t0\n"));
}
