use std::rc::Rc;

use klc::ast::{
    AtomKind, Call, Expr, Ident, IntLit, Program, Scope, StmtElif, StmtElse, StmtExit, StmtFn,
    StmtIf, StmtWhile, Type, UnionNode, VarDecl, VarType,
};
use klc::diagnostics::DiagHandler;
use klc::irgenerator::{
    Alloca, ArgType, Br, Define, IrError, IrGenerator, KlirNode, Label, ProgScope, Store, Target,
};
use klc::lexer::{Lexer, LocData, Op, Symbol, SymbolTable};

fn loc() -> LocData {
    LocData { line: 1, col: 1 }
}

/// Symbols: main = 0, x = 1, y = 2, f = 3.
fn symbols() -> SymbolTable {
    let mut lex = Lexer::new();
    lex.tokenize("main x y f;").unwrap();
    lex.take_sym()
}

fn lit(v: i128) -> Expr {
    Expr {
        atom: AtomKind::IntLit(IntLit { val: v, loc: loc() }),
        op: Op::Nop,
        lhs: None,
        rhs: None,
        ty: Some(Type::I32),
        loc: loc(),
    }
}

fn var(s: u32) -> Expr {
    Expr {
        atom: AtomKind::Ident(Ident { name: Symbol(s), loc: loc() }),
        op: Op::Nop,
        lhs: None,
        rhs: None,
        ty: Some(Type::I32),
        loc: loc(),
    }
}

fn bin(op: Op, l: Expr, r: Expr, ty: Option<Type>) -> Expr {
    Expr { atom: AtomKind::NoAtom, op, lhs: Some(Box::new(l)), rhs: Some(Box::new(r)), ty, loc: loc() }
}

fn decl(s: u32, value: Expr, is_reassign: bool) -> UnionNode {
    UnionNode::VarDecl(Rc::new(VarDecl {
        kind: VarType::Mut,
        id: Ident { name: Symbol(s), loc: loc() },
        is_reassign,
        decl_type: None,
        ty: Some(Type::I32),
        value: Box::new(value),
        loc: loc(),
    }))
}

fn exit(e: Expr) -> UnionNode {
    UnionNode::StmtExit(StmtExit { exit_code: Box::new(e), loc: loc() })
}

fn block(stmts: Vec<UnionNode>) -> Scope {
    Scope { stmts, vars: Vec::new(), fns: Vec::new() }
}

fn func(args: Option<Vec<(Symbol, Type)>>, stmts: Vec<UnionNode>) -> UnionNode {
    UnionNode::StmtFn(StmtFn { name: Symbol(0), args, return_ty: Type::Void, body: block(stmts), loc: loc() })
}

fn generate(stmts: Vec<UnionNode>) -> Result<Vec<ProgScope>, IrError> {
    let prog = Program { sym: SymbolTable::new(), stmts, fns: Vec::new() };
    let mut gen = IrGenerator::new(prog, DiagHandler::new(), symbols());
    gen.emit_klir("aarch64")?;
    assert_eq!(gen.target, Target::Aarch64);
    Ok(gen.into_scopes())
}

fn arg(a: &ArgType) -> String {
    match a {
        ArgType::Sym(s) => format!("%{}", s),
        ArgType::Temp(t) => format!("%{}", t),
        ArgType::Imm(v) => v.to_string(),
    }
}

fn show(n: &KlirNode) -> String {
    match n {
        KlirNode::Alloca(a) => format!("alloca {:?} {}", a.ty, a.dest),
        KlirNode::Store(s) => format!("store {:?} {} {}", s.ty, arg(&s.src), s.dest),
        KlirNode::Define(d) => format!(
            "define {:?} {} [{}]",
            d.return_ty,
            d.name,
            d.args
                .as_ref()
                .map(|v| v.iter().map(|(a, t)| format!("{} {:?}", arg(a), t)).collect::<Vec<_>>().join(", "))
                .unwrap_or_else(|| "none".to_string())
        ),
        KlirNode::Call(c) => format!(
            "call {:?} {} [{}]",
            c.return_ty,
            c.name,
            c.args
                .as_ref()
                .map(|v| v.iter().map(|(a, t)| format!("{} {:?}", arg(a), t)).collect::<Vec<_>>().join(", "))
                .unwrap_or_else(|| "none".to_string())
        ),
        KlirNode::Expr(e) => format!("{:?} {:?} {} {} {}", e.op, e.ty, arg(&e.lhs), arg(&e.rhs), e.dest),
        KlirNode::Br(b) => format!("br {} {:?}", b.label, b.flag),
        KlirNode::Label(l) => format!("label {}", l.name),
    }
}

fn lines(s: &ProgScope) -> Vec<String> {
    s.ir.nodes.iter().map(show).collect()
}

/// Every branch goes to a label of the same list.
fn branches_closed(s: &ProgScope) -> bool {
    let labels: Vec<&String> = s
        .ir
        .nodes
        .iter()
        .filter_map(|n| match n {
            KlirNode::Label(l) => Some(&l.name),
            _ => None,
        })
        .collect();
    s.ir.nodes.iter().all(|n| match n {
        KlirNode::Br(b) => labels.contains(&&b.label),
        _ => true,
    })
}

#[test]
fn declarations_expressions_and_exit() {
    let scopes = generate(vec![func(
        None,
        vec![decl(1, lit(5), false), decl(2, bin(Op::Add, var(1), lit(2), Some(Type::I32)), false), exit(var(2))],
    )])
    .unwrap();
    assert_eq!(scopes.len(), 1);
    assert_eq!(scopes[0].id, "main");
    assert_eq!(
        lines(&scopes[0]),
        vec![
            "define Void main [none]",
            "alloca I32 x",
            "store I32 5 x",
            "Add I32 %x 2 t0",
            "alloca I32 y",
            "store I32 %t0 y",
            "call Void _exit [%y I32]",
        ]
    );
}

#[test]
fn temporaries_are_numbered_in_order() {
    let e = bin(
        Op::Mul,
        bin(Op::Add, lit(1), lit(2), Some(Type::I32)),
        bin(Op::Sub, lit(3), lit(4), Some(Type::I32)),
        Some(Type::I32),
    );
    let scopes = generate(vec![func(None, vec![exit(e)])]).unwrap();
    assert_eq!(
        lines(&scopes[0]),
        vec![
            "define Void main [none]",
            "Add I32 1 2 t0",
            "Sub I32 3 4 t1",
            "Mul I32 %t0 %t1 t2",
            "call Void _exit [%t2 I32]",
        ]
    );
}

#[test]
fn signed_right_shift_is_arithmetic() {
    let scopes = generate(vec![func(
        None,
        vec![
            exit(bin(Op::Lsr, var(1), lit(1), Some(Type::I32))),
            exit(bin(Op::Lsr, var(1), lit(1), Some(Type::U32))),
        ],
    )])
    .unwrap();
    assert_eq!(lines(&scopes[0])[1], "Asr I32 %x 1 t0");
    assert_eq!(lines(&scopes[0])[3], "Lsr U32 %x 1 t1");
}

#[test]
fn while_loop_labels() {
    let w = UnionNode::StmtWhile(StmtWhile {
        cond: var(1),
        scope: block(vec![decl(1, bin(Op::Sub, var(1), lit(1), Some(Type::I32)), true)]),
        loc: loc(),
    });
    let scopes = generate(vec![func(None, vec![decl(1, lit(3), false), w])]).unwrap();
    assert_eq!(
        lines(&scopes[0]),
        vec![
            "define Void main [none]",
            "alloca I32 x",
            "store I32 3 x",
            "label START_WHILE_0",
            "br LOOP_WHILE_0 Some(\"x\")",
            "br END_WHILE_0 None",
            "label LOOP_WHILE_0",
            "Sub I32 %x 1 t0",
            "alloca I32 x",
            "store I32 %t0 x",
            "br START_WHILE_0 None",
            "label END_WHILE_0",
        ]
    );
    assert!(branches_closed(&scopes[0]));
}

#[test]
fn if_else_labels() {
    let i = UnionNode::StmtIf(StmtIf {
        cond: var(1),
        scope: block(vec![exit(lit(1))]),
        _elif: Vec::new(),
        _else: Some(StmtElse { scope: block(vec![exit(lit(2))]), loc: loc() }),
        loc: loc(),
    });
    let scopes = generate(vec![func(None, vec![i])]).unwrap();
    assert_eq!(
        lines(&scopes[0]),
        vec![
            "define Void main [none]",
            "br LABEL_IF_BODY_0 Some(\"x\")",
            "br LABEL_ELSE_BODY_0 None",
            "label LABEL_IF_BODY_0",
            "call Void _exit [1 I32]",
            "br LABEL_ENDIF_0 None",
            "label LABEL_ELSE_BODY_0",
            "call Void _exit [2 I32]",
            "br LABEL_ENDIF_0 None",
            "label LABEL_ENDIF_0",
        ]
    );
    assert!(branches_closed(&scopes[0]));
}

#[test]
fn elif_chain_labels() {
    let elif = || Some(StmtElif { cond: var(2), scope: block(Vec::new()), loc: loc() });
    let i = UnionNode::StmtIf(StmtIf {
        cond: var(1),
        scope: block(Vec::new()),
        _elif: vec![elif(), None, elif()],
        _else: None,
        loc: loc(),
    });
    let scopes = generate(vec![func(None, vec![i])]).unwrap();
    assert_eq!(
        lines(&scopes[0]),
        vec![
            "define Void main [none]",
            "br LABEL_IF_BODY_0 Some(\"x\")",
            "br LABEL_ELIF_INIT_0 None",
            "label LABEL_IF_BODY_0",
            "br LABEL_ENDIF_0 None",
            "label LABEL_ELIF_INIT_0",
            "br LABEL_ELIF_BODY_1 Some(\"y\")",
            "br LABEL_ELIF_NEXT_1 None",
            "label LABEL_ELIF_BODY_1",
            "br LABEL_ENDIF_0 None",
            "label LABEL_ELIF_NEXT_1",
            "br LABEL_ELIF_BODY_2 Some(\"y\")",
            "br LABEL_ENDIF_0 None",
            "label LABEL_ELIF_BODY_2",
            "br LABEL_ENDIF_0 None",
            "label LABEL_ELSE_BODY_0",
            "br LABEL_ENDIF_0 None",
            "label LABEL_ENDIF_0",
        ]
    );
    assert!(branches_closed(&scopes[0]));
    let labels: Vec<String> = lines(&scopes[0]).into_iter().filter(|l| l.starts_with("label ")).collect();
    let mut unique = labels.clone();
    unique.sort();
    unique.dedup();
    assert_eq!(labels.len(), unique.len());
}

#[test]
fn literal_condition_branches_on_its_text() {
    let i = UnionNode::StmtIf(StmtIf {
        cond: lit(-7),
        scope: block(Vec::new()),
        _elif: Vec::new(),
        _else: None,
        loc: loc(),
    });
    let scopes = generate(vec![func(None, vec![i])]).unwrap();
    assert_eq!(lines(&scopes[0])[1], "br LABEL_IF_BODY_0 Some(\"-7\")");
    assert_eq!(lines(&scopes[0])[2], "br LABEL_ENDIF_0 None");
}

#[test]
fn top_level_statements_become_main() {
    let scopes = generate(vec![decl(1, lit(5), false), exit(var(1))]).unwrap();
    assert_eq!(scopes.len(), 1);
    assert_eq!(scopes[0].id, "main");
    assert_eq!(
        lines(&scopes[0]),
        vec!["define Void main [none]", "alloca I32 x", "store I32 5 x", "call Void _exit [%x I32]"]
    );
}

#[test]
fn no_top_level_instructions_no_main() {
    assert!(generate(Vec::new()).unwrap().is_empty());
}

#[test]
fn nested_functions_come_first() {
    let inner = UnionNode::StmtFn(StmtFn {
        name: Symbol(3),
        args: Some(vec![(Symbol(1), Type::I32)]),
        return_ty: Type::U8,
        body: block(vec![exit(var(1))]),
        loc: loc(),
    });
    let scopes = generate(vec![func(None, vec![inner])]).unwrap();
    assert_eq!(scopes.len(), 2);
    assert_eq!(scopes[0].id, "f");
    assert_eq!(lines(&scopes[0]), vec!["define U8 f [%x I32]", "call Void _exit [%x I32]"]);
    assert_eq!(scopes[1].id, "main");
    assert_eq!(lines(&scopes[1]), vec!["define Void main [none]"]);
}

#[test]
fn call_arguments_are_computed_before_the_call() {
    let c = UnionNode::Call(Call {
        name: Symbol(3),
        args: Some(vec![bin(Op::Add, lit(1), lit(2), Some(Type::I32)), var(1)]),
        return_ty: None,
        loc: loc(),
    });
    let scopes = generate(vec![func(None, vec![c])]).unwrap();
    assert_eq!(
        lines(&scopes[0]),
        vec!["define Void main [none]", "Add I32 1 2 t0", "call NoType f [%t0 I32, %x I32]"]
    );
}

#[test]
fn untyped_expression_stops_generation() {
    let r = generate(vec![func(None, vec![exit(bin(Op::Add, lit(1), lit(2), None))])]);
    assert_eq!(r.err(), Some(IrError::Abort));
}

#[test]
fn target_from_architecture_name() {
    assert_eq!(Target::from("aarch64"), Target::Aarch64);
    assert_eq!(Target::from("x86_64"), Target::X86_64);
    assert_eq!(Target::from("riscv64"), Target::X86_64);
    assert_eq!(Target::from(""), Target::X86_64);
}

#[test]
fn instruction_text() {
    let x = || ArgType::Sym("x".to_string());
    assert_eq!(x().fmt(), "%x");
    assert_eq!(ArgType::Temp("t3".to_string()).fmt(), "%t3");
    assert_eq!(ArgType::Imm(-12).fmt(), "-12");
    assert_eq!(Alloca { ty: Type::I32, dest: "x".to_string() }.dump(), "    alloca i32, %x\n");
    assert_eq!(
        Store { ty: Type::U8, src: ArgType::Imm(5), dest: "x".to_string() }.dump(),
        "    store u8, 5, x\n"
    );
    assert_eq!(
        Define {
            return_ty: Type::Void,
            name: "main".to_string(),
            args: Some(vec![(x(), Type::I32), (ArgType::Sym("y".to_string()), Type::I64)]),
        }
        .dump(),
        "    define void, %main(%x i32, %y i64):\n"
    );
    assert_eq!(
        klc::irgenerator::Call {
            return_ty: Type::Void,
            name: "_exit".to_string(),
            args: Some(vec![(ArgType::Temp("t0".to_string()), Type::I32)]),
        }
        .dump(),
        "    call void, _exit(%t0 i32)\n"
    );
    assert_eq!(Label { name: "L".to_string() }.dump(), "label L:\n");
    assert_eq!(Br { label: "L".to_string(), flag: None }.dump(), "    br L, unconditional\n");
    assert_eq!(Br { label: "L".to_string(), flag: Some("t0".to_string()) }.dump(), "    br L, t0\n");
    let e = |op| klc::irgenerator::Expr { ty: Type::I32, lhs: x(), rhs: ArgType::Imm(2), op, dest: "t0".to_string() };
    assert_eq!(e(Op::Add).dump(), Some("    add i32, %x, 2, %t0\n".to_string()));
    assert_eq!(e(Op::Asr).dump(), Some("    asr i32, %x, 2, %t0\n".to_string()));
    assert_eq!(e(Op::Asgn).dump(), None);
    assert_eq!(e(Op::Lt).dump(), Some("    cmp i32, lt, %x, 2, %t0\n".to_string()));
    assert_eq!(e(Op::Neq).dump(), Some("    cmp i32, neq, %x, 2, %t0\n".to_string()));
    let c = klc::irgenerator::Expr {
        ty: Type::I32,
        lhs: ArgType::Sym("foo".to_string()),
        rhs: ArgType::Sym("bar".to_string()),
        op: Op::Lte,
        dest: "result".to_string(),
    };
    assert_eq!(c.dump(), Some("    cmp i32, lte, %foo, %bar, %result\n".to_string()));
}

#[test]
fn arguments_equal_to_the_last_get_no_separator() {
    let d = klc::irgenerator::Define {
        return_ty: Type::Void,
        name: "f".to_string(),
        args: Some(vec![(ArgType::Sym("x".to_string()), Type::I32), (ArgType::Sym("x".to_string()), Type::I32)]),
    };
    assert_eq!(d.dump(), "    define void, %f(%x i32%x i32):\n");
}

#[test]
fn instruction_list_text() {
    let scopes = generate(vec![func(None, vec![decl(1, lit(5), false), exit(var(1))])]).unwrap();
    assert_eq!(
        scopes[0].ir.dump(),
        Some(
            "    define void, %main():\n    alloca i32, %x\n    store i32, 5, x\n    call void, _exit(%x i32)\n"
                .to_string()
        )
    );
}
