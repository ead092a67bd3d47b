use apex_codegen::ast::{BinOp, ClassDecl, Constructor, Decl, Expr, Field, FunctionDecl, Literal, MatchArm, Parameter, Pattern, Program, Stmt, StringPart, Type, UnaryOp};
use apex_codegen::codegen::{Codegen, HostOs};
use apex_codegen::ir::{ArithOp, FnAttribute, GlobalInit, Op};
use apex_codegen::lowering::{FloatPredicate, IntPredicate};
use apex_codegen::layout::{LlvmType, ReturnLayout};

fn ident(n: &str) -> Expr {
    Expr::Ident(n.to_string())
}

fn int_lit(v: i64) -> Expr {
    Expr::Literal(Literal::Integer(v))
}

fn text(s: &str) -> Expr {
    Expr::Literal(Literal::String(s.to_string()))
}

fn call(name: &str, args: Vec<Expr>) -> Expr {
    Expr::Call { callee: Box::new(ident(name)), args }
}

fn method(object: Expr, name: &str, args: Vec<Expr>) -> Expr {
    Expr::Call { callee: Box::new(Expr::Field { object: Box::new(object), field: name.to_string() }), args }
}

fn binary(op: BinOp, l: Expr, r: Expr) -> Expr {
    Expr::Binary { op, left: Box::new(l), right: Box::new(r) }
}

fn param(n: &str, t: Type) -> Parameter {
    Parameter { name: n.to_string(), ty: t }
}

fn func(name: &str, params: Vec<Parameter>, ret: Type, body: Vec<Stmt>) -> FunctionDecl {
    FunctionDecl { name: name.to_string(), params, return_type: ret, body }
}

fn let_(name: &str, ty: Type, value: Expr) -> Stmt {
    Stmt::Let { name: name.to_string(), ty, value, mutable: false }
}

fn program(decls: Vec<Decl>) -> Program {
    Program { declarations: decls }
}

fn main_with(body: Vec<Stmt>) -> Program {
    program(vec![Decl::Function(func("main", vec![], Type::NoneType, body))])
}

fn compile(p: &Program) -> Codegen {
    let mut cg = Codegen::new("test", HostOs::Linux);
    cg.compile(p).expect("program compiles");
    cg
}

fn compile_err(p: &Program) -> String {
    let mut cg = Codegen::new("test", HostOs::Linux);
    match cg.compile(p) {
        Ok(()) => panic!("expected an error"),
        Err(e) => e.message,
    }
}

fn declared(cg: &Codegen) -> Vec<String> {
    cg.log
        .ops()
        .iter()
        .filter_map(|op| match op {
            Op::DeclareFunction { name, .. } => Some(name.clone()),
            _ => None,
        })
        .collect()
}

fn globals(cg: &Codegen) -> Vec<(String, String)> {
    cg.log
        .ops()
        .iter()
        .filter_map(|op| match op {
            Op::Global { name, init: GlobalInit::Text(t), .. } => Some((name.clone(), t.clone())),
            _ => None,
        })
        .collect()
}

fn blocks(cg: &Codegen) -> Vec<String> {
    cg.log
        .ops()
        .iter()
        .filter_map(|op| match op {
            Op::AppendBlock { name, .. } => Some(name.clone()),
            _ => None,
        })
        .collect()
}

fn count(cg: &Codegen, pred: fn(&Op) -> bool) -> usize {
    cg.log.ops().iter().filter(|op| pred(op)).count()
}

/// The blocks whose last instruction is not a terminator, replaying the
/// log the way the builder inserts instructions (constants insert nothing).
fn open_blocks(cg: &Codegen) -> Vec<usize> {
    let ops = cg.log.ops();
    let mut constant = vec![false; ops.len()];
    let mut last_is_terminator: Vec<Option<bool>> = vec![None; ops.len()];
    let mut current: Option<usize> = None;
    for (i, op) in ops.iter().enumerate() {
        let operands: Vec<usize> = match op {
            Op::Arith { lhs, rhs, .. } | Op::IntCompare { lhs, rhs, .. } | Op::FloatCompare { lhs, rhs, .. } => vec![*lhs, *rhs],
            Op::IntNeg { value, .. } | Op::FloatNeg { value, .. } | Op::Not { value, .. } | Op::Cast { value, .. } => vec![*value],
            Op::Select { cond, then_value, else_value, .. } => vec![*cond, *then_value, *else_value],
            Op::Gep { ptr, indices, .. } => {
                let mut v = vec![*ptr];
                v.extend(indices.iter().copied());
                v
            }
            Op::ExtractValue { aggregate, .. } => vec![*aggregate],
            Op::InsertValue { aggregate, value, .. } => vec![*aggregate, *value],
            Op::IsNull { ptr, .. } => vec![*ptr],
            _ => vec![],
        };
        match op {
            Op::ConstInt { .. } | Op::ConstFloat { .. } | Op::ConstNull | Op::Undef { .. } | Op::GlobalAddress { .. } | Op::FunctionAddress { .. } | Op::SizeOf { .. } => {
                constant[i] = true;
            }
            Op::AppendBlock { .. } => last_is_terminator[i] = Some(false),
            Op::PositionAtEnd { block } => current = Some(*block),
            Op::Branch { .. } | Op::CondBranch { .. } | Op::Return { .. } | Op::Unreachable => {
                if let Some(b) = current {
                    last_is_terminator[b] = Some(true);
                }
            }
            Op::Alloca { .. } | Op::Load { .. } | Op::Store { .. } | Op::Call { .. } | Op::IndirectCall { .. } | Op::Phi { .. } => {
                if let Some(b) = current {
                    last_is_terminator[b] = Some(false);
                }
            }
            _ => {
                if !operands.is_empty() && operands.iter().all(|o| constant[*o]) {
                    constant[i] = true;
                } else if let Some(b) = current {
                    last_is_terminator[b] = Some(false);
                }
            }
        }
    }
    last_is_terminator
        .iter()
        .enumerate()
        .filter_map(|(i, t)| if *t == Some(false) { Some(i) } else { None })
        .collect()
}

#[test]
fn empty_main_returns_zero_and_saves_arguments() {
    let cg = compile(&main_with(vec![]));
    let ops = cg.log.ops();
    match &ops[0] {
        Op::DeclareFunction { name, signature } => {
            assert_eq!(name, "main");
            assert_eq!(signature.params.len(), 2);
            assert!(signature.params[0].same_as(&LlvmType::I32));
            assert!(matches!(signature.ret, ReturnLayout::Value(LlvmType::I32)));
        }
        _ => panic!("main is declared first"),
    }
    assert!(matches!(ops[1], Op::Attribute { function: 0, attribute: FnAttribute::NoUnwind }));
    assert!(matches!(ops[2], Op::Attribute { function: 0, attribute: FnAttribute::WillReturn }));
    assert!(matches!(&ops[3], Op::AppendBlock { function: 0, name } if name == "entry"));
    let global_names: Vec<String> = ops
        .iter()
        .filter_map(|op| match op {
            Op::Global { name, init: GlobalInit::Zero(_), .. } => Some(name.clone()),
            _ => None,
        })
        .collect();
    assert_eq!(global_names, vec!["_apex_argc".to_string(), "_apex_argv".to_string()]);
    assert!(matches!(ops[ops.len() - 1], Op::Return { value: Some(_) }));
    assert!(open_blocks(&cg).is_empty());
}

#[test]
fn small_functions_are_marked_always_inline() {
    let add = func(
        "add",
        vec![param("a", Type::Integer), param("b", Type::Integer)],
        Type::Integer,
        vec![Stmt::Return(Some(binary(BinOp::Add, ident("a"), ident("b"))))],
    );
    let cg = compile(&program(vec![Decl::Function(add)]));
    assert_eq!(count(&cg, |op| matches!(op, Op::Attribute { attribute: FnAttribute::AlwaysInline, .. })), 1);
    assert_eq!(count(&cg, |op| matches!(op, Op::Alloca { .. })), 2);
    assert_eq!(count(&cg, |op| matches!(op, Op::Arith { op: ArithOp::IntAdd, .. })), 1);
    assert!(matches!(cg.log.ops()[cg.log.len() - 1], Op::Return { value: Some(_) }));
    assert!(open_blocks(&cg).is_empty());
}

#[test]
fn falling_off_a_valued_function_is_unreachable() {
    let f = func("f", vec![], Type::Integer, vec![]);
    let g = func("g", vec![], Type::NoneType, vec![]);
    let cg = compile(&program(vec![Decl::Function(f), Decl::Function(g)]));
    assert_eq!(count(&cg, |op| matches!(op, Op::Unreachable)), 1);
    assert_eq!(count(&cg, |op| matches!(op, Op::Return { value: None })), 1);
    assert!(open_blocks(&cg).is_empty());
}

#[test]
fn folded_constants_do_not_reopen_a_block() {
    let f = func("f", vec![], Type::NoneType, vec![Stmt::Return(None), Stmt::Expr(binary(BinOp::Add, int_lit(1), int_lit(2)))]);
    let cg = compile(&program(vec![Decl::Function(f)]));
    assert_eq!(count(&cg, |op| matches!(op, Op::Return { .. })), 1);
    // a non-constant instruction after the return leaves the block open, so
    // the body gets a second terminator
    let g = func("g", vec![], Type::NoneType, vec![Stmt::Return(None), let_("x", Type::Integer, int_lit(1))]);
    let cg = compile(&program(vec![Decl::Function(g)]));
    assert_eq!(count(&cg, |op| matches!(op, Op::Return { .. })), 2);
}

#[test]
fn printing_names_its_format_strings_in_order() {
    let cg = compile(&main_with(vec![
        Stmt::Expr(call("println", vec![int_lit(1)])),
        Stmt::Expr(call("print", vec![text("x")])),
    ]));
    assert_eq!(declared(&cg).iter().filter(|n| n.as_str() == "printf").count(), 1);
    let g = globals(&cg);
    assert_eq!(
        g,
        vec![
            ("fmt.0".to_string(), "%lld".to_string()),
            ("nl.1".to_string(), "\n".to_string()),
            ("str.2".to_string(), "x".to_string()),
            ("fmt.3".to_string(), "%s".to_string()),
        ]
    );
}

#[test]
fn interpolated_strings_escape_percent() {
    let s = Expr::StringInterp(vec![
        StringPart::Literal("50% of ".to_string()),
        StringPart::Expr(int_lit(7)),
    ]);
    let cg = compile(&main_with(vec![let_("s", Type::String, s)]));
    assert!(globals(&cg).contains(&("fmt.0".to_string(), "50%% of %lld".to_string())));
    let names = declared(&cg);
    assert!(names.contains(&"sprintf".to_string()));
    assert!(names.contains(&"malloc".to_string()));
}

#[test]
fn errors_come_from_the_failing_construct() {
    assert_eq!(compile_err(&main_with(vec![Stmt::Expr(ident("y"))])), "Unknown variable: y");
    assert_eq!(
        compile_err(&main_with(vec![Stmt::Expr(binary(BinOp::Add, int_lit(1), Expr::Literal(Literal::Float(1.5f64.to_bits()))))])),
        "Type mismatch in binary operation"
    );
    let two = || Expr::Literal(Literal::Float(2.0f64.to_bits()));
    assert_eq!(compile_err(&main_with(vec![Stmt::Expr(binary(BinOp::Mod, two(), two()))])), "Invalid float operation");
    assert_eq!(compile_err(&main_with(vec![Stmt::Expr(call("nope", vec![]))])), "Unknown function: nope");
    assert_eq!(compile_err(&main_with(vec![Stmt::Expr(call("to_string", vec![]))])), "Missing arguments for to_string");
    assert_eq!(
        compile_err(&main_with(vec![Stmt::Expr(Expr::Construct { ty: "Point".to_string(), args: vec![] })])),
        "Unknown type: Point"
    );
    assert_eq!(
        compile_err(&main_with(vec![Stmt::Expr(Expr::Try(Box::new(ident("argc_missing"))))])),
        "Unknown variable: argc_missing"
    );
    let try_in_int = func("t", vec![param("o", Type::Option(Box::new(Type::Integer)))], Type::Integer, vec![Stmt::Expr(Expr::Try(Box::new(ident("o"))))]);
    assert_eq!(
        compile_err(&program(vec![Decl::Function(try_in_int)])),
        "? operator can only be used in functions returning Option or Result"
    );
    assert_eq!(
        compile_err(&main_with(vec![Stmt::Assign { target: int_lit(1), value: int_lit(2) }])),
        "Invalid lvalue"
    );
    assert_eq!(compile_err(&main_with(vec![Stmt::Expr(Expr::This)])), "'this' not available");
}

#[test]
fn control_flow_blocks_in_order() {
    let body = vec![
        let_("x", Type::Integer, int_lit(0)),
        Stmt::If { condition: binary(BinOp::Lt, ident("x"), int_lit(3)), then_block: vec![Stmt::Break], else_block: None },
        Stmt::While { condition: binary(BinOp::Lt, ident("x"), int_lit(10)), body: vec![Stmt::Continue] },
        Stmt::For {
            var: "i".to_string(),
            var_type: None,
            iterable: Expr::Range { start: Some(Box::new(int_lit(0))), end: Some(Box::new(int_lit(4))), inclusive: false },
            body: vec![Stmt::Break],
        },
    ];
    let cg = compile(&main_with(body));
    assert_eq!(
        blocks(&cg),
        vec!["entry", "then", "else", "merge", "while.cond", "while.body", "while.after", "for.cond", "for.body", "for.inc", "for.after"]
    );
    assert!(open_blocks(&cg).is_empty());
}

#[test]
fn match_merges_after_all_arms() {
    let arms = vec![
        MatchArm { pattern: Pattern::Literal(Literal::Integer(1)), body: vec![Stmt::Expr(call("println", vec![int_lit(1)]))] },
        MatchArm { pattern: Pattern::Wildcard, body: vec![] },
        MatchArm { pattern: Pattern::Literal(Literal::Integer(2)), body: vec![] },
    ];
    let cg = compile(&main_with(vec![let_("x", Type::Integer, int_lit(5)), Stmt::Match { expr: ident("x"), arms }]));
    assert_eq!(blocks(&cg), vec!["entry", "match.arm", "match.next", "match.arm", "match.merge"]);
    assert!(open_blocks(&cg).is_empty());
}

#[test]
fn option_match_tests_the_tag() {
    let arms = vec![
        MatchArm { pattern: Pattern::Variant("Some".to_string(), vec!["v".to_string()]), body: vec![Stmt::Expr(call("println", vec![ident("v")]))] },
        MatchArm { pattern: Pattern::Variant("None".to_string(), vec![]), body: vec![] },
    ];
    let opt = method(ident("Option"), "some", vec![int_lit(3)]);
    let cg = compile(&main_with(vec![let_("o", Type::Option(Box::new(Type::Integer)), opt), Stmt::Match { expr: ident("o"), arms }]));
    assert_eq!(count(&cg, |op| matches!(op, Op::ExtractValue { index: 0, .. })), 2);
    assert_eq!(count(&cg, |op| matches!(op, Op::ExtractValue { index: 1, .. })), 1);
    assert_eq!(blocks(&cg), vec!["entry", "match.arm", "match.next", "match.arm", "match.next", "match.merge"]);
    assert!(open_blocks(&cg).is_empty());
}

#[test]
fn classes_get_constructors_and_methods() {
    let class = ClassDecl {
        name: "Point".to_string(),
        fields: vec![Field { name: "x".to_string(), ty: Type::Integer }],
        constructor: Some(Constructor {
            params: vec![param("x", Type::Integer)],
            body: vec![Stmt::Assign { target: Expr::Field { object: Box::new(Expr::This), field: "x".to_string() }, value: ident("x") }],
        }),
        methods: vec![func("get", vec![], Type::Integer, vec![Stmt::Return(Some(Expr::Field { object: Box::new(Expr::This), field: "x".to_string() }))])],
    };
    let main = func(
        "main",
        vec![],
        Type::NoneType,
        vec![
            let_("p", Type::Named("Point".to_string()), Expr::Construct { ty: "Point".to_string(), args: vec![int_lit(4)] }),
            Stmt::Expr(call("println", vec![method(ident("p"), "get", vec![])])),
        ],
    );
    let cg = compile(&program(vec![Decl::Class(class), Decl::Function(main)]));
    let names = declared(&cg);
    assert_eq!(&names[0..3], &["Point__new".to_string(), "Point__get".to_string(), "main".to_string()]);
    assert!(names.contains(&"malloc".to_string()));
    assert_eq!(count(&cg, |op| matches!(op, Op::SizeOf { .. })), 1);
    assert!(open_blocks(&cg).is_empty());
}

#[test]
fn modules_prefix_their_members() {
    let m = apex_codegen::ast::ModuleDecl {
        name: "geo".to_string(),
        declarations: vec![Decl::Function(func("area", vec![], Type::Integer, vec![Stmt::Return(Some(int_lit(1)))]))],
    };
    let main = func("main", vec![], Type::NoneType, vec![Stmt::Expr(call("println", vec![call("geo__area", vec![])]))]);
    let cg = compile(&program(vec![Decl::Module(m), Decl::Function(main)]));
    assert_eq!(&declared(&cg)[0..2], &["geo__area".to_string(), "main".to_string()]);
}

#[test]
fn lambdas_become_closures_and_restore_the_scope() {
    let lambda = Expr::Lambda { params: vec![param("x", Type::Integer)], body: Box::new(binary(BinOp::Add, ident("x"), ident("k"))) };
    let body = vec![
        let_("k", Type::Integer, int_lit(2)),
        let_("f", Type::Function(vec![Type::Integer], Box::new(Type::Integer)), lambda),
        let_("y", Type::Integer, call("f", vec![int_lit(3)])),
        let_("z", Type::Integer, ident("k")),
    ];
    let cg = compile(&main_with(body));
    assert!(declared(&cg).contains(&"__lambda_0".to_string()));
    assert_eq!(count(&cg, |op| matches!(op, Op::IndirectCall { .. })), 1);
    assert_eq!(count(&cg, |op| matches!(op, Op::InsertValue { .. })), 2);
    assert!(open_blocks(&cg).is_empty());
}

#[test]
fn try_returns_none_early() {
    let f = func(
        "f",
        vec![param("o", Type::Option(Box::new(Type::Integer)))],
        Type::Option(Box::new(Type::Integer)),
        vec![let_("v", Type::Integer, Expr::Try(Box::new(ident("o")))), Stmt::Return(Some(ident("o")))],
    );
    let cg = compile(&program(vec![Decl::Function(f)]));
    assert_eq!(blocks(&cg), vec!["entry", "try.success", "try.error", "try.merge"]);
    assert_eq!(count(&cg, |op| matches!(op, Op::Return { .. })), 2);
    assert!(open_blocks(&cg).is_empty());
}

#[test]
fn collections_and_their_methods() {
    let body = vec![
        let_("xs", Type::List(Box::new(Type::Integer)), Expr::Construct { ty: "List<Integer>".to_string(), args: vec![] }),
        Stmt::Expr(method(ident("xs"), "push", vec![int_lit(1)])),
        let_("n", Type::Integer, method(ident("xs"), "length", vec![])),
        let_("m", Type::MapOf(Box::new(Type::Integer), Box::new(Type::Integer)), Expr::Construct { ty: "Map".to_string(), args: vec![] }),
        Stmt::Expr(method(ident("m"), "insert", vec![int_lit(1), int_lit(2)])),
    ];
    let cg = compile(&main_with(body));
    assert_eq!(count(&cg, |op| matches!(op, Op::Call { .. })), 3);
    let bad = vec![
        let_("xs", Type::List(Box::new(Type::Integer)), Expr::Construct { ty: "List".to_string(), args: vec![] }),
        Stmt::Expr(method(ident("xs"), "shuffle", vec![])),
    ];
    assert_eq!(compile_err(&main_with(bad)), "Unknown List method: shuffle");
    let missing = vec![
        let_("xs", Type::List(Box::new(Type::Integer)), Expr::Construct { ty: "List".to_string(), args: vec![] }),
        Stmt::Expr(method(ident("xs"), "push", vec![])),
    ];
    assert_eq!(compile_err(&main_with(missing)), "Missing arguments for List.push");
}

#[test]
fn standard_library_calls() {
    let body = vec![
        let_("a", Type::Integer, method(ident("Math"), "abs", vec![int_lit(-3)])),
        let_("s", Type::String, method(ident("Str"), "concat", vec![text("a"), text("b")])),
        let_("o", Type::String, method(ident("System"), "os", vec![])),
        let_("t", Type::String, call("to_string", vec![Expr::Literal(Literal::Boolean(true))])),
        let_("n", Type::Integer, method(ident("Args"), "count", vec![])),
    ];
    let cg = compile(&main_with(body));
    let names = declared(&cg);
    for f in ["strlen", "malloc", "strcpy", "strcat"] {
        assert!(names.contains(&f.to_string()));
    }
    let g = globals(&cg);
    assert!(g.contains(&("str.os.2".to_string(), "linux".to_string())));
    assert!(g.contains(&("str.bool.true.3".to_string(), "true".to_string())));
    assert!(g.contains(&("str.bool.false.3".to_string(), "false".to_string())));
    assert!(open_blocks(&cg).is_empty());
    // without an entry point there is no argument count to read
    let f = func("f", vec![], Type::Integer, vec![Stmt::Return(Some(method(ident("Args"), "count", vec![])))]);
    assert_eq!(compile_err(&program(vec![Decl::Function(f)])), "Unknown global: _apex_argc");
}

#[test]
fn host_decides_library_names() {
    let body = vec![Stmt::Expr(method(ident("System"), "exec", vec![text("ls")]))];
    let mut win = Codegen::new("w", HostOs::Windows);
    win.compile(&main_with(body)).unwrap();
    assert!(declared(&win).contains(&"_popen".to_string()));
    let body = vec![Stmt::Expr(method(ident("Time"), "sleep", vec![int_lit(5)]))];
    let cg = compile(&main_with(body));
    assert!(declared(&cg).contains(&"usleep".to_string()));
}

#[test]
fn every_unit_is_declared_even_when_a_body_fails() {
    let broken = func("broken", vec![], Type::Integer, vec![Stmt::Expr(ident("missing"))]);
    let later = func("later", vec![param("x", Type::Integer)], Type::Integer, vec![Stmt::Return(Some(ident("x")))]);
    let p = program(vec![Decl::Function(broken), Decl::Function(later)]);
    let mut cg = Codegen::new("test", HostOs::Linux);
    match cg.compile(&p) {
        Ok(()) => panic!("expected an error"),
        Err(e) => assert_eq!(e.message, "Unknown variable: missing"),
    }
    assert_eq!(declared(&cg), vec!["broken".to_string(), "later".to_string()]);
}

#[test]
fn literals_become_constants_of_their_width() {
    let cg = compile(&main_with(vec![
        Stmt::Expr(int_lit(-3)),
        Stmt::Expr(Expr::Literal(Literal::Boolean(true))),
        Stmt::Expr(Expr::Literal(Literal::Char('A'))),
        Stmt::Expr(Expr::Literal(Literal::Float(2.5f64.to_bits()))),
    ]));
    let ops = cg.log.ops();
    assert!(ops.iter().any(|op| matches!(op, Op::ConstInt { ty: LlvmType::I64, value, signed: true } if *value == (-3i64) as u64)));
    assert!(ops.iter().any(|op| matches!(op, Op::ConstInt { ty: LlvmType::I1, value: 1, signed: false })));
    assert!(ops.iter().any(|op| matches!(op, Op::ConstInt { ty: LlvmType::I8, value: 65, signed: false })));
    assert!(ops.iter().any(|op| matches!(op, Op::ConstFloat { bits } if *bits == 2.5f64.to_bits())));
}

#[test]
fn stdlib_dispatch_knows_its_entries() {
    let mut cg = Codegen::new("test", HostOs::Linux);
    match cg.compile_stdlib_function("Math__nothing", &vec![]) {
        Ok(None) => {}
        _ => panic!("not an entry"),
    }
    assert_eq!(cg.log.ops().len(), 0);
    match cg.compile_stdlib_function("Math__sqrt", &vec![]) {
        Err(e) => assert_eq!(e.message, "Missing arguments for Math__sqrt"),
        _ => panic!("expected an error"),
    }
    match cg.compile_stdlib_function("Str__concat", &vec![]) {
        Err(e) => assert_eq!(e.message, "Missing arguments for Str__concat"),
        _ => panic!("expected an error"),
    }
}

#[test]
fn calls_through_anything_but_a_name_or_field_are_refused() {
    let mut cg = Codegen::new("test", HostOs::Linux);
    let bad = Expr::Call { callee: Box::new(int_lit(1)), args: vec![] };
    match cg.compile_call(&bad) {
        Err(e) => assert_eq!(e.message, "Invalid callee"),
        Ok(_) => panic!("expected an error"),
    }
    assert_eq!(cg.log.ops().len(), 0);
}

#[test]
fn unknown_methods_of_built_in_types_are_named() {
    let map_ty = Type::MapOf(Box::new(Type::Integer), Box::new(Type::Integer));
    let with = |name: &str, ty: Type, ctor: &str, m: &str, args: Vec<Expr>| {
        main_with(vec![
            let_(name, ty, Expr::Construct { ty: ctor.to_string(), args: vec![] }),
            Stmt::Expr(method(ident(name), m, args)),
        ])
    };
    assert_eq!(compile_err(&with("m", map_ty.duplicate(), "Map", "clear", vec![])), "Unknown Map method: clear");
    assert_eq!(compile_err(&with("m", map_ty, "Map", "set", vec![int_lit(1)])), "Missing arguments for Map.set");
    let set_ty = Type::SetOf(Box::new(Type::Integer));
    assert_eq!(compile_err(&with("s", set_ty, "Set", "union", vec![])), "Unknown Set method: union");
    let opt_ty = Type::Option(Box::new(Type::Integer));
    assert_eq!(compile_err(&with("o", opt_ty, "Option", "map", vec![])), "Unknown Option method: map");
    let res_ty = Type::Result(Box::new(Type::Integer), Box::new(Type::String));
    assert_eq!(compile_err(&with("r", res_ty, "Result", "expect", vec![])), "Unknown Result method: expect");
}

#[test]
fn lists_held_in_fields_take_list_methods() {
    let class = ClassDecl {
        name: "Bag".to_string(),
        fields: vec![Field { name: "items".to_string(), ty: Type::List(Box::new(Type::Integer)) }],
        constructor: Some(Constructor { params: vec![], body: vec![] }),
        methods: vec![],
    };
    let main = func(
        "main",
        vec![],
        Type::NoneType,
        vec![
            let_("b", Type::Named("Bag".to_string()), Expr::Construct { ty: "Bag".to_string(), args: vec![] }),
            Stmt::Expr(method(Expr::Field { object: Box::new(ident("b")), field: "items".to_string() }, "push", vec![int_lit(5)])),
        ],
    );
    let cg = compile(&program(vec![Decl::Class(class), Decl::Function(main)]));
    let geps: Vec<String> = cg
        .log
        .ops()
        .iter()
        .filter_map(|op| match op {
            Op::Gep { name, .. } => Some(name.clone()),
            _ => None,
        })
        .collect();
    let items = geps.iter().position(|n| n == "items").expect("the field is addressed");
    let len = geps.iter().position(|n| n == "len_ptr").expect("the length is addressed");
    assert!(items < len);
    assert!(open_blocks(&cg).is_empty());
}

#[test]
fn operators_pick_instructions_by_operand_kind() {
    let float = |v: f64| Expr::Literal(Literal::Float(v.to_bits()));
    let cg = compile(&main_with(vec![
        Stmt::Expr(binary(BinOp::Div, int_lit(7), int_lit(2))),
        Stmt::Expr(binary(BinOp::Lt, float(1.5), float(2.5))),
        Stmt::Expr(binary(BinOp::GtEq, int_lit(1), int_lit(2))),
        Stmt::Expr(Expr::Unary { op: UnaryOp::Neg, expr: Box::new(float(4.0)) }),
        Stmt::Expr(Expr::Unary { op: UnaryOp::Not, expr: Box::new(int_lit(0)) }),
        Stmt::Expr(binary(BinOp::Add, text("a"), text("b"))),
    ]));
    let ops = cg.log.ops();
    assert_eq!(count(&cg, |op| matches!(op, Op::Arith { op: ArithOp::IntSignedDiv, .. })), 1);
    assert_eq!(count(&cg, |op| matches!(op, Op::FloatCompare { pred: FloatPredicate::Olt, .. })), 1);
    assert_eq!(count(&cg, |op| matches!(op, Op::IntCompare { pred: IntPredicate::Sge, .. })), 1);
    assert_eq!(count(&cg, |op| matches!(op, Op::FloatNeg { .. })), 1);
    assert_eq!(count(&cg, |op| matches!(op, Op::IntNeg { .. })), 0);
    assert_eq!(count(&cg, |op| matches!(op, Op::Not { .. })), 1);
    let strcat = ops
        .iter()
        .position(|op| matches!(op, Op::DeclareFunction { name, .. } if name == "strcat"))
        .expect("concatenation declares strcat");
    assert!(ops.iter().any(|op| matches!(op, Op::Call { function, .. } if *function == strcat)));
}

#[test]
fn mixing_an_integer_and_a_float_is_refused() {
    let float = Expr::Literal(Literal::Float(1.0f64.to_bits()));
    let msg = compile_err(&main_with(vec![Stmt::Expr(binary(BinOp::Add, int_lit(1), float))]));
    assert_eq!(msg, "Type mismatch in binary operation");
    let f = |v: f64| Expr::Literal(Literal::Float(v.to_bits()));
    let msg = compile_err(&main_with(vec![Stmt::Expr(binary(BinOp::Mod, f(1.0), f(2.0)))]));
    assert_eq!(msg, "Invalid float operation");
}

/// The name of the block the builder stood in when the `n`-th call to
/// `printf` was emitted.
fn block_of_print(cg: &Codegen, n: usize) -> String {
    let ops = cg.log.ops();
    let printf = ops
        .iter()
        .position(|op| matches!(op, Op::DeclareFunction { name, .. } if name == "printf"))
        .expect("printing declares printf");
    let mut current: Option<usize> = None;
    let mut seen = 0;
    for op in ops.iter() {
        match op {
            Op::PositionAtEnd { block } => current = Some(*block),
            Op::Call { function, .. } if *function == printf => {
                if seen == n {
                    let b = current.expect("the builder stands in a block");
                    return match &ops[b] {
                        Op::AppendBlock { name, .. } => name.clone(),
                        _ => panic!("position names a block"),
                    };
                }
                seen += 1;
            }
            _ => {}
        }
    }
    panic!("not enough prints")
}

#[test]
fn code_after_control_flow_continues_in_its_exit_block() {
    let say = |v: i64| Stmt::Expr(call("print", vec![int_lit(v)]));
    let body = vec![
        let_("x", Type::Integer, int_lit(0)),
        Stmt::If { condition: binary(BinOp::Lt, ident("x"), int_lit(3)), then_block: vec![], else_block: None },
        say(1),
        Stmt::While { condition: binary(BinOp::Lt, ident("x"), int_lit(10)), body: vec![Stmt::Break] },
        say(2),
        Stmt::For {
            var: "i".to_string(),
            var_type: None,
            iterable: Expr::Range { start: Some(Box::new(int_lit(0))), end: Some(Box::new(int_lit(4))), inclusive: false },
            body: vec![],
        },
        say(3),
        Stmt::Match { expr: ident("x"), arms: vec![MatchArm { pattern: Pattern::Literal(Literal::Integer(1)), body: vec![] }] },
        say(4),
    ];
    let cg = compile(&main_with(body));
    assert_eq!(block_of_print(&cg, 0), "merge");
    assert_eq!(block_of_print(&cg, 1), "while.after");
    assert_eq!(block_of_print(&cg, 2), "for.after");
    assert_eq!(block_of_print(&cg, 3), "match.merge");
    assert!(open_blocks(&cg).is_empty());
}

#[test]
fn math_constants_are_exact_doubles() {
    let body = vec![
        let_("p", Type::Float, method(ident("Math"), "pi", vec![])),
        let_("e", Type::Float, method(ident("Math"), "e", vec![])),
    ];
    let cg = compile(&main_with(body));
    let ops = cg.log.ops();
    assert!(ops.iter().any(|op| matches!(op, Op::ConstFloat { bits } if *bits == std::f64::consts::PI.to_bits())));
    assert!(ops.iter().any(|op| matches!(op, Op::ConstFloat { bits } if *bits == std::f64::consts::E.to_bits())));
}

#[test]
fn options_and_results_are_tagged_structs() {
    let body = vec![
        let_("a", Type::Option(Box::new(Type::Float)), method(ident("Option"), "some", vec![Expr::Literal(Literal::Float(1.0f64.to_bits()))])),
        let_("b", Type::Option(Box::new(Type::Integer)), method(ident("Option"), "none", vec![])),
        let_("c", Type::Result(Box::new(Type::Boolean), Box::new(Type::String)), method(ident("Result"), "ok", vec![Expr::Literal(Literal::Boolean(true))])),
        let_("d", Type::Result(Box::new(Type::Integer), Box::new(Type::String)), method(ident("Result"), "error", vec![text("bad")])),
    ];
    let cg = compile(&main_with(body));
    let loads: Vec<String> = cg
        .log
        .ops()
        .iter()
        .filter_map(|op| match op {
            Op::Load { ty, name, .. } if name == "option" || name == "result" => Some(format!("{:?}", ty)),
            _ => None,
        })
        .collect();
    assert_eq!(loads, vec!["Struct([I8, F64])", "Struct([I8, I64])", "Struct([I8, I1, Ptr])", "Struct([I8, I64, Ptr])"]);
}

#[test]
fn option_and_result_constructors_check_their_arity() {
    let run = |ty: &str, m: &str, args: Vec<Expr>| compile_err(&main_with(vec![Stmt::Expr(method(ident(ty), m, args))]));
    assert_eq!(run("Option", "some", vec![]), "Option.some() requires exactly 1 argument");
    assert_eq!(run("Result", "ok", vec![int_lit(1), int_lit(2)]), "Result.ok() requires exactly 1 argument");
    assert_eq!(run("Result", "error", vec![]), "Result.error() requires exactly 1 argument");
}

/// The field index that the address `p` selects, when `p` is a
/// `getelementptr base, i32 0, i32 index`.
fn field_index(ops: &[Op], p: usize) -> Option<u64> {
    match &ops[p] {
        Op::Gep { indices, .. } if indices.len() == 2 => match (&ops[indices[0]], &ops[indices[1]]) {
            (Op::ConstInt { ty: LlvmType::I32, value: 0, .. }, Op::ConstInt { ty: LlvmType::I32, value, .. }) => Some(*value),
            _ => None,
        },
        _ => None,
    }
}

#[test]
fn built_in_methods_read_the_documented_fields() {
    let body = vec![
        let_("l", Type::List(Box::new(Type::Integer)), Expr::Construct { ty: "List".to_string(), args: vec![] }),
        Stmt::Expr(method(ident("l"), "length", vec![])),
        let_("o", Type::Option(Box::new(Type::Integer)), method(ident("Option"), "none", vec![])),
        Stmt::Expr(method(ident("o"), "is_none", vec![])),
        Stmt::Expr(method(ident("o"), "unwrap", vec![])),
    ];
    let cg = compile(&main_with(body));
    let ops = cg.log.ops();
    let read = |name: &str| -> Vec<u64> {
        ops.iter()
            .filter_map(|op| match op {
                Op::Load { ptr, name: n, .. } if n == name => field_index(ops, *ptr),
                _ => None,
            })
            .collect()
    };
    assert_eq!(read("len"), vec![1]);
    assert_eq!(read("is_some"), vec![0]);
    assert_eq!(read("unwrapped_value"), vec![1]);
    assert!(ops.iter().any(|op| matches!(op, Op::IntCompare { pred: IntPredicate::Eq, name, .. } if name == "is_none")));
}

#[test]
fn variables_are_read_from_their_stack_slots() {
    let cg = compile(&main_with(vec![
        let_("x", Type::Float, Expr::Literal(Literal::Float(1.5f64.to_bits()))),
        Stmt::Expr(ident("x")),
    ]));
    let ops = cg.log.ops();
    let slot = ops
        .iter()
        .position(|op| matches!(op, Op::Alloca { name, .. } if name == "x"))
        .expect("x has a stack slot");
    assert!(ops.iter().any(|op| matches!(op, Op::Load { ty: LlvmType::F64, ptr, name } if *ptr == slot && name == "x")));
    assert_eq!(compile_err(&main_with(vec![Stmt::Expr(ident("nowhere"))])), "Unknown variable: nowhere");
}

#[test]
fn square_root_calls_the_c_library() {
    let cg = compile(&main_with(vec![let_("r", Type::Float, method(ident("Math"), "sqrt", vec![int_lit(9)]))]));
    let ops = cg.log.ops();
    let sqrt = ops
        .iter()
        .position(|op| matches!(op, Op::DeclareFunction { name, .. } if name == "sqrt"))
        .expect("sqrt is declared");
    assert!(ops.iter().any(|op| matches!(op, Op::Call { function, name, .. } if *function == sqrt && name == "sqrt")));
    assert!(ops.iter().any(|op| matches!(op, Op::Cast { op: apex_codegen::ir::CastOp::SignedToFloat, .. })));
}

#[test]
fn constant_conditions_and_empty_bodies_compile() {
    let t = || Expr::Literal(Literal::Boolean(true));
    let body = vec![
        Stmt::If { condition: t(), then_block: vec![], else_block: Some(vec![]) },
        Stmt::While { condition: Expr::Literal(Literal::Boolean(false)), body: vec![] },
        Stmt::Expr(Expr::IfExpr { condition: Box::new(t()), then_branch: vec![], else_branch: None }),
        Stmt::Expr(Expr::Require { condition: Box::new(t()), message: None }),
        Stmt::Expr(Expr::Lambda { params: vec![], body: Box::new(int_lit(1)) }),
        Stmt::Match { expr: int_lit(2), arms: vec![] },
    ];
    let cg = compile(&main_with(body));
    assert_eq!(
        blocks(&cg),
        vec!["entry", "then", "else", "merge", "while.cond", "while.body", "while.after", "if.then", "if.else", "if.merge", "require.ok", "require.fail", "entry", "match.merge"]
    );
}

#[test]
fn assertions_branch_to_a_failure_path() {
    let cg = compile(&main_with(vec![
        Stmt::Expr(call("assert", vec![Expr::Literal(Literal::Boolean(true))])),
        Stmt::Expr(call("assert_eq", vec![int_lit(1), int_lit(1)])),
    ]));
    assert_eq!(blocks(&cg), vec!["entry", "assert_ok", "assert_panic", "assert_eq_ok", "assert_eq_panic"]);
    let g = globals(&cg);
    assert!(g.contains(&("assert_fail".to_string(), "Assertion failed!\n".to_string())));
    assert!(declared(&cg).contains(&"exit".to_string()));
    assert!(open_blocks(&cg).is_empty());
    let msg = compile_err(&main_with(vec![Stmt::Expr(call("exit", vec![text("x")]))]));
    assert_eq!(msg, "exit() requires Integer code");
}

#[test]
fn option_none_takes_no_arguments() {
    let msg = compile_err(&main_with(vec![Stmt::Expr(method(ident("Option"), "none", vec![int_lit(1)]))]));
    assert_eq!(msg, "Option.none() expects 0 argument(s), got 1");
}

#[test]
fn mixed_min_and_max_use_the_floating_point_library() {
    let f = |v: f64| Expr::Literal(Literal::Float(v.to_bits()));
    let cg = compile(&main_with(vec![
        let_("a", Type::Float, method(ident("Math"), "min", vec![int_lit(1), f(2.5)])),
        let_("b", Type::Integer, method(ident("Math"), "max", vec![int_lit(1), int_lit(2)])),
    ]));
    assert!(declared(&cg).contains(&"fmin".to_string()));
    assert_eq!(count(&cg, |op| matches!(op, Op::IntCompare { pred: IntPredicate::Sgt, .. })), 1);
    assert_eq!(count(&cg, |op| matches!(op, Op::Select { .. })), 1);
}

#[test]
fn the_question_mark_returns_early_and_yields_the_value() {
    let f = func(
        "first",
        vec![param("o", Type::Option(Box::new(Type::Integer)))],
        Type::Option(Box::new(Type::Integer)),
        vec![let_("x", Type::Integer, Expr::Try(Box::new(ident("o")))), Stmt::Return(Some(ident("o")))],
    );
    let cg = compile(&program(vec![Decl::Function(f)]));
    assert_eq!(blocks(&cg), vec!["entry", "try.success", "try.error", "try.merge"]);
    assert!(cg.log.ops().iter().any(|op| matches!(op, Op::ExtractValue { index: 1, name, .. } if name == "unwrapped")));
    assert!(open_blocks(&cg).is_empty());
}

#[test]
fn new_maps_start_with_capacity_eight_and_two_buffers() {
    let cg = compile(&main_with(vec![let_(
        "m",
        Type::MapOf(Box::new(Type::Integer), Box::new(Type::Integer)),
        Expr::Construct { ty: "Map".to_string(), args: vec![] },
    )]));
    let ops = cg.log.ops();
    let mallocs = ops
        .iter()
        .filter(|op| matches!(op, Op::Call { name, .. } if name == "keys" || name == "values"))
        .count();
    assert_eq!(mallocs, 2);
    assert!(ops.iter().any(|op| matches!(op, Op::ConstInt { ty: LlvmType::I64, value: 64, .. })));
}

fn float_lit(v: f64) -> Expr {
    Expr::Literal(Literal::Float(v.to_bits()))
}

fn mallocs_of(cg: &Codegen, bytes: u64) -> usize {
    let ops = cg.log.ops();
    ops.iter()
        .filter(|op| match op {
            Op::Call { args, .. } => args.len() == 1 && matches!(ops[args[0]], Op::ConstInt { ty: LlvmType::I64, value, .. } if value == bytes),
            _ => false,
        })
        .count()
}

#[test]
fn range_rejects_mixed_kinds_and_a_zero_step() {
    let msg = compile_err(&main_with(vec![Stmt::Expr(call("range", vec![float_lit(0.0), float_lit(1.0), float_lit(0.0)]))]));
    assert_eq!(msg, "range() step cannot be 0");
    let msg = compile_err(&main_with(vec![Stmt::Expr(call("range", vec![int_lit(1), float_lit(2.5)]))]));
    assert_eq!(msg, "range() arguments must be all Integer or all Float");
    let msg = compile_err(&main_with(vec![Stmt::Expr(call("range", vec![int_lit(1), int_lit(5), int_lit(0)]))]));
    assert_eq!(msg, "range() step cannot be 0");
}

#[test]
fn range_calls_and_range_expressions_build_range_objects() {
    let cg = compile(&main_with(vec![
        Stmt::Expr(call("range", vec![int_lit(0), int_lit(10)])),
        Stmt::Expr(call("range", vec![float_lit(0.0), float_lit(1.0), float_lit(0.25)])),
        Stmt::Expr(Expr::Range { start: Some(Box::new(int_lit(1))), end: Some(Box::new(int_lit(5))), inclusive: true }),
    ]));
    assert_eq!(mallocs_of(&cg, 32), 3);
    assert_eq!(count(&cg, |op| matches!(op, Op::Arith { op: ArithOp::IntAdd, name, .. } if name == "range_inclusive_end")), 1);
    assert_eq!(count(&cg, |op| matches!(op, Op::ConstFloat { bits } if *bits == 1.0f64.to_bits())), 1);
    assert_eq!(count(&cg, |op| matches!(op, Op::Store { .. })) >= 12, true);
}

#[test]
fn math_abs_stops_on_the_smallest_integer() {
    let cg = compile(&main_with(vec![let_("x", Type::Integer, method(ident("Math"), "abs", vec![int_lit(-5)]))]));
    let b = blocks(&cg);
    assert!(b.contains(&"math_abs_ok".to_string()));
    assert!(b.contains(&"math_abs_overflow".to_string()));
    assert!(globals(&cg).contains(&("math_abs_min_overflow".to_string(), "Math.abs() overflow on minimum Integer\n".to_string())));
    assert_eq!(count(&cg, |op| matches!(op, Op::ConstInt { ty: LlvmType::I64, value, signed: true } if *value == i64::MIN as u64)), 1);
    assert!(open_blocks(&cg).is_empty());
}

#[test]
fn sleep_and_argument_reads_check_their_inputs() {
    let msg = compile_err(&main_with(vec![Stmt::Expr(method(ident("Time"), "sleep", vec![int_lit(-1)]))]));
    assert_eq!(msg, "Time.sleep() milliseconds must be non-negative");
    let msg = compile_err(&main_with(vec![Stmt::Expr(method(ident("Time"), "sleep", vec![float_lit(2.5)]))]));
    assert_eq!(msg, "Time.sleep(ms) requires Integer milliseconds");
    let msg = compile_err(&main_with(vec![Stmt::Expr(method(ident("Args"), "get", vec![int_lit(-1)]))]));
    assert_eq!(msg, "Args.get() index cannot be negative");
    let cg = compile(&main_with(vec![
        Stmt::Expr(method(ident("Time"), "sleep", vec![int_lit(10)])),
        let_("a", Type::String, method(ident("Args"), "get", vec![int_lit(1)])),
    ]));
    let b = blocks(&cg);
    for name in ["time_sleep_valid", "time_sleep_invalid", "args_get_bounds_check", "args_get_negative", "args_get_ok", "args_get_oob"] {
        assert!(b.contains(&name.to_string()), "missing block {}", name);
    }
    assert!(globals(&cg).contains(&("args_get_oob_runtime_error".to_string(), "Args.get() index out of bounds\n".to_string())));
    assert!(open_blocks(&cg).is_empty());
}

fn declared_at(cg: &Codegen, f: usize) -> String {
    match &cg.log.ops()[f] {
        Op::DeclareFunction { name, .. } => name.clone(),
        _ => String::new(),
    }
}

#[test]
fn concatenation_copies_then_appends_each_operand_once() {
    let cg = compile(&main_with(vec![
        let_("s", Type::String, binary(BinOp::Add, text("ab"), text("cd"))),
        let_("t", Type::String, method(ident("Str"), "concat", vec![text("x"), text("y")])),
    ]));
    let ops = cg.log.ops();
    let copies: Vec<Vec<usize>> = ops
        .iter()
        .filter_map(|op| match op {
            Op::Call { function, args, .. } if declared_at(&cg, *function) == "strcpy" => Some(args.clone()),
            _ => None,
        })
        .collect();
    assert_eq!(copies.len(), 2);
    let strings: Vec<(String, String)> = globals(&cg);
    assert_eq!(strings.iter().filter(|(_, t)| t == "ab" || t == "cd").count(), 2);
    let source = |i: usize| match &ops[copies[i][1]] {
        Op::GlobalAddress { global } => match &ops[*global] {
            Op::Global { init: GlobalInit::Text(t), .. } => t.clone(),
            _ => String::new(),
        },
        _ => String::new(),
    };
    assert_eq!(source(0), "ab");
    assert_eq!(source(1), "x");
}

#[test]
fn suffix_tests_compare_the_tail() {
    let cg = compile(&main_with(vec![let_("b", Type::Boolean, method(ident("Str"), "endsWith", vec![text("hello"), text("lo")]))]));
    assert_eq!(count(&cg, |op| matches!(op, Op::IntCompare { pred: IntPredicate::Uge, .. })), 1);
    assert_eq!(count(&cg, |op| matches!(op, Op::Arith { op: ArithOp::IntSub, .. })), 1);
    assert_eq!(count(&cg, |op| matches!(op, Op::Arith { op: ArithOp::And, .. })), 1);
    assert!(declared(&cg).contains(&"strcmp".to_string()));
}

#[test]
fn map_set_stores_the_key_before_the_value() {
    let cg = compile(&main_with(vec![
        let_("m", Type::MapOf(Box::new(Type::Integer), Box::new(Type::Integer)), Expr::Construct { ty: "Map".to_string(), args: vec![] }),
        Stmt::Expr(method(ident("m"), "set", vec![int_lit(7), int_lit(9)])),
    ]));
    let ops = cg.log.ops();
    let stored: Vec<u64> = ops
        .iter()
        .filter_map(|op| match op {
            Op::Store { value, .. } => match &ops[*value] {
                Op::ConstInt { ty: LlvmType::I64, value, signed: true } => Some(*value),
                _ => None,
            },
            _ => None,
        })
        .collect();
    assert_eq!(stored, vec![7, 9]);
}

#[test]
fn binary_operands_and_call_arguments_keep_their_order() {
    let f = func("pair", vec![param("a", Type::Integer), param("b", Type::Integer)], Type::Integer, vec![Stmt::Return(Some(binary(BinOp::Sub, ident("a"), ident("b"))))]);
    let m = func("main", vec![], Type::NoneType, vec![
        let_("d", Type::Integer, binary(BinOp::Sub, int_lit(10), int_lit(3))),
        let_("p", Type::Integer, call("pair", vec![int_lit(4), int_lit(5)])),
    ]);
    let cg = compile(&program(vec![Decl::Function(f), Decl::Function(m)]));
    let ops = cg.log.ops();
    let value = |i: usize| match &ops[i] {
        Op::ConstInt { value, .. } => Some(*value),
        _ => None,
    };
    let subs: Vec<(Option<u64>, Option<u64>)> = ops
        .iter()
        .filter_map(|op| match op {
            Op::Arith { op: ArithOp::IntSub, lhs, rhs, .. } => Some((value(*lhs), value(*rhs))),
            _ => None,
        })
        .collect();
    assert!(subs.contains(&(Some(10), Some(3))));
    let calls: Vec<Vec<Option<u64>>> = ops
        .iter()
        .filter_map(|op| match op {
            Op::Call { function, args, .. } if declared_at(&cg, *function) == "pair" => Some(args.iter().map(|a| value(*a)).collect()),
            _ => None,
        })
        .collect();
    assert_eq!(calls.len(), 1);
    assert_eq!(calls[0][1..].to_vec(), vec![Some(4), Some(5)]);
}

#[test]
fn for_loops_walk_lists_and_strings_with_a_hidden_counter() {
    let for_ = |var: &str, iterable: Expr| Stmt::For { var: var.to_string(), var_type: None, iterable, body: vec![] };
    let cg = compile(&main_with(vec![
        let_("xs", Type::List(Box::new(Type::Integer)), Expr::Construct { ty: "List<Integer>".to_string(), args: vec![] }),
        for_("i", Expr::Range { start: Some(Box::new(int_lit(0))), end: Some(Box::new(int_lit(3))), inclusive: false }),
        for_("x", ident("xs")),
        for_("c", text("abc")),
    ]));
    assert_eq!(count(&cg, |op| matches!(op, Op::Alloca { name, .. } if name == "for.idx")), 3);
    assert_eq!(count(&cg, |op| matches!(op, Op::Gep { name, .. } if name == "for.elem")), 2);
    assert_eq!(count(&cg, |op| matches!(op, Op::Load { ty: LlvmType::I8, name, .. } if name == "c")), 1);
    assert!(declared(&cg).contains(&"strlen".to_string()));
    assert!(open_blocks(&cg).is_empty());
}

#[test]
fn the_loop_variable_goes_out_of_scope_after_the_loop() {
    let for_i = Stmt::For {
        var: "i".to_string(),
        var_type: None,
        iterable: Expr::Range { start: Some(Box::new(int_lit(0))), end: Some(Box::new(int_lit(3))), inclusive: false },
        body: vec![],
    };
    let msg = compile_err(&main_with(vec![for_i, let_("y", Type::Integer, ident("i"))]));
    assert_eq!(msg, "Unknown variable: i");
}
