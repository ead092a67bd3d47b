use apex_codegen::ast::{BinOp, Expr, Literal, MatchArm, Parameter, Pattern, Stmt, Type, UnaryOp, Field, FunctionDecl, ClassDecl, Constructor, Decl, ModuleDecl, Program, EnumDecl};
use apex_codegen::error::CodegenError;
use apex_codegen::text::{qualified_name, numbered_name, str_eq, starts_with};
use apex_codegen::tables::SymbolTable;
use apex_codegen::layout::{llvm_type, LlvmType, function_signature, method_signature, constructor_signature, closure_signature, always_inline, is_main, ReturnLayout, class_struct_layout};
use apex_codegen::lowering::{select_binary, select_unary, ValueKind, BinaryLowering, IntPredicate, FloatPredicate, UnaryLowering, value_format, push_escaped, interpolation_format, FormatPiece, plan_for, plan_fall_off, FallOffPlan, ReturnPlan, LiteralLowering};
use apex_codegen::state::CodegenState;
use apex_codegen::dispatch::{plan_ident, IdentPlan, plan_call, CallPlan, plan_construct, ConstructKind, plan_class_method, plan_lvalue, LvaluePlan, plan_method_call, MethodPlan};
use apex_codegen::matching::{plan_match, ArmTest, BindingSource, TAG_SOME, TAG_NONE, TAG_OK, TAG_ERROR};
use apex_codegen::program::{plan_program, UnitKind};
use apex_codegen::captures::identify_captures;
use apex_codegen::infer::{infer_expr_type, type_to_class_name};
use apex_codegen::stdlib::{stdlib_arity, is_builtin_module};
use apex_codegen::externs::{libc_name, libc_signature, math_signature, LibcFn};

fn ident(n: &str) -> Expr {
    Expr::Ident(n.to_string())
}

fn int_lit(v: i64) -> Expr {
    Expr::Literal(Literal::Integer(v))
}

fn param(n: &str, t: Type) -> Parameter {
    Parameter { name: n.to_string(), ty: t }
}

fn func(name: &str, params: Vec<Parameter>, ret: Type, body: Vec<Stmt>) -> FunctionDecl {
    FunctionDecl { name: name.to_string(), params, return_type: ret, body }
}

fn message(r: CodegenError) -> String {
    r.message
}

#[test]
fn error_keeps_its_message() {
    let e = CodegenError::new("Unknown variable: x".to_string());
    assert_eq!(e.message, "Unknown variable: x");
}

#[test]
fn names_are_qualified_and_numbered() {
    assert_eq!(qualified_name("Math", "abs"), "Math__abs");
    assert_eq!(qualified_name("", "f"), "__f");
    assert_eq!(numbered_name("str.", 0), "str.0");
    assert_eq!(numbered_name("fmt.", 1234), "fmt.1234");
    assert_eq!(numbered_name("__lambda_", 7), "__lambda_7");
    assert!(str_eq("main", "main"));
    assert!(!str_eq("main", "mainly"));
    assert!(starts_with("List<Integer>", "List<"));
    assert!(!starts_with("Lis", "List<"));
}

#[test]
fn symbol_table_replaces_and_finds() {
    let mut t: SymbolTable<u64> = SymbolTable::new();
    assert!(!t.contains("a"));
    t.insert("a".to_string(), 1);
    t.insert("b".to_string(), 2);
    t.insert("a".to_string(), 3);
    assert_eq!(t.len(), 2);
    assert_eq!(t.get("a"), Some(&3));
    assert_eq!(t.get("b"), Some(&2));
    assert_eq!(t.get("c"), None);
    t.clear();
    assert_eq!(t.len(), 0);
}

#[test]
fn layouts_of_types() {
    assert!(llvm_type(&Type::Integer).same_as(&LlvmType::I64));
    assert!(llvm_type(&Type::Float).same_as(&LlvmType::F64));
    assert!(llvm_type(&Type::Boolean).same_as(&LlvmType::I1));
    assert!(llvm_type(&Type::String).same_as(&LlvmType::Ptr));
    assert!(llvm_type(&Type::Char).same_as(&LlvmType::I8));
    assert!(llvm_type(&Type::NoneType).same_as(&LlvmType::I8));
    assert!(llvm_type(&Type::Named("Point".to_string())).same_as(&LlvmType::Ptr));
    assert!(llvm_type(&Type::Function(vec![Type::Integer], Box::new(Type::Integer)))
        .same_as(&LlvmType::Struct(vec![LlvmType::Ptr, LlvmType::Ptr])));
    assert!(llvm_type(&Type::Option(Box::new(Type::Float)))
        .same_as(&LlvmType::Struct(vec![LlvmType::I8, LlvmType::F64])));
    assert!(llvm_type(&Type::Result(Box::new(Type::Integer), Box::new(Type::String)))
        .same_as(&LlvmType::Struct(vec![LlvmType::I8, LlvmType::I64, LlvmType::Ptr])));
    assert!(llvm_type(&Type::List(Box::new(Type::Integer)))
        .same_as(&LlvmType::Struct(vec![LlvmType::I64, LlvmType::I64, LlvmType::Ptr])));
    assert!(llvm_type(&Type::MapOf(Box::new(Type::String), Box::new(Type::Integer)))
        .same_as(&LlvmType::Struct(vec![LlvmType::I64, LlvmType::I64, LlvmType::Ptr, LlvmType::Ptr])));
    assert!(llvm_type(&Type::SetOf(Box::new(Type::Integer)))
        .same_as(&LlvmType::Struct(vec![LlvmType::I64, LlvmType::I64, LlvmType::Ptr])));
    assert!(llvm_type(&Type::Ref(Box::new(Type::Integer))).same_as(&LlvmType::Ptr));
    assert!(llvm_type(&Type::Arc(Box::new(Type::Integer))).same_as(&LlvmType::Ptr));
    // a task is laid out as its result
    assert!(llvm_type(&Type::Task(Box::new(Type::Boolean))).same_as(&LlvmType::I1));
    assert!(!LlvmType::I64.same_as(&LlvmType::I32));
}

#[test]
fn signatures_of_functions() {
    let main = func("main", vec![], Type::NoneType, vec![]);
    let s = function_signature("main", &main);
    assert_eq!(s.params.len(), 2);
    assert!(s.params[0].same_as(&LlvmType::I32));
    assert!(s.params[1].same_as(&LlvmType::Ptr));
    assert!(matches!(s.ret, ReturnLayout::Value(LlvmType::I32)));
    let f = func("add", vec![param("a", Type::Integer), param("b", Type::Float)], Type::Integer, vec![]);
    let s = function_signature("add", &f);
    assert_eq!(s.params.len(), 3);
    assert!(s.params[0].same_as(&LlvmType::Ptr));
    assert!(s.params[1].same_as(&LlvmType::I64));
    assert!(s.params[2].same_as(&LlvmType::F64));
    assert!(matches!(s.ret, ReturnLayout::Value(LlvmType::I64)));
    let v = func("log", vec![], Type::NoneType, vec![]);
    assert!(matches!(function_signature("log", &v).ret, ReturnLayout::Void));
    let m = method_signature(&f);
    assert_eq!(m.params.len(), 4);
    assert!(m.params[1].same_as(&LlvmType::Ptr));
    let c = constructor_signature(&Constructor { params: vec![param("x", Type::Integer)], body: vec![] });
    assert_eq!(c.params.len(), 2);
    assert!(matches!(c.ret, ReturnLayout::Value(LlvmType::Ptr)));
    let k = closure_signature(&vec![Type::Boolean], &Type::NoneType);
    assert_eq!(k.params.len(), 2);
    assert!(matches!(k.ret, ReturnLayout::Value(LlvmType::I8)));
    assert!(is_main("main"));
    assert!(!is_main("Main"));
}

#[test]
fn small_functions_are_inlined() {
    let three = func("f", vec![param("a", Type::Integer), param("b", Type::Integer), param("c", Type::Integer)], Type::Integer, vec![]);
    let four = func("g", vec![param("a", Type::Integer), param("b", Type::Integer), param("c", Type::Integer), param("d", Type::Integer)], Type::Integer, vec![]);
    assert!(always_inline("f", &three));
    assert!(!always_inline("g", &four));
    assert!(!always_inline("main", &three));
    assert!(!always_inline("main_loop", &three));
}

#[test]
fn class_layout_follows_fields() {
    let fields = vec![
        Field { name: "x".to_string(), ty: Type::Integer },
        Field { name: "name".to_string(), ty: Type::String },
    ];
    let l = class_struct_layout(&fields);
    assert_eq!(l.len(), 2);
    assert!(l[0].same_as(&LlvmType::I64));
    assert!(l[1].same_as(&LlvmType::Ptr));
}

#[test]
fn binary_operators_are_selected_by_operand_kind() {
    assert_eq!(select_binary(BinOp::Add, ValueKind::Int, ValueKind::Int).unwrap(), BinaryLowering::IntAdd);
    assert_eq!(select_binary(BinOp::Div, ValueKind::Int, ValueKind::Int).unwrap(), BinaryLowering::IntSignedDiv);
    assert_eq!(select_binary(BinOp::Mod, ValueKind::Int, ValueKind::Int).unwrap(), BinaryLowering::IntSignedRem);
    assert_eq!(select_binary(BinOp::Lt, ValueKind::Int, ValueKind::Int).unwrap(), BinaryLowering::IntCompare(IntPredicate::Slt));
    assert_eq!(select_binary(BinOp::And, ValueKind::Int, ValueKind::Int).unwrap(), BinaryLowering::IntAnd);
    assert_eq!(select_binary(BinOp::GtEq, ValueKind::Float, ValueKind::Float).unwrap(), BinaryLowering::FloatCompare(FloatPredicate::Oge));
    assert_eq!(select_binary(BinOp::Mul, ValueKind::Float, ValueKind::Float).unwrap(), BinaryLowering::FloatMul);
    assert_eq!(select_binary(BinOp::Add, ValueKind::Pointer, ValueKind::Pointer).unwrap(), BinaryLowering::StringConcat);
    assert_eq!(message(select_binary(BinOp::Mod, ValueKind::Float, ValueKind::Float).unwrap_err()), "Invalid float operation");
    assert_eq!(message(select_binary(BinOp::Or, ValueKind::Float, ValueKind::Float).unwrap_err()), "Invalid float operation");
    assert_eq!(message(select_binary(BinOp::Add, ValueKind::Int, ValueKind::Float).unwrap_err()), "Type mismatch in binary operation");
    assert_eq!(message(select_binary(BinOp::Sub, ValueKind::Pointer, ValueKind::Pointer).unwrap_err()), "Type mismatch in binary operation");
}

#[test]
fn unary_operators() {
    assert_eq!(select_unary(UnaryOp::Neg, ValueKind::Int).unwrap(), UnaryLowering::IntNeg);
    assert_eq!(select_unary(UnaryOp::Neg, ValueKind::Float).unwrap(), UnaryLowering::FloatNeg);
    assert_eq!(select_unary(UnaryOp::Not, ValueKind::Int).unwrap(), UnaryLowering::Not);
    assert_eq!(message(select_unary(UnaryOp::Neg, ValueKind::Pointer).unwrap_err()), "Cannot negate non-numeric value");
}

#[test]
fn formats_escape_percent() {
    assert_eq!(value_format(ValueKind::Int), "%lld");
    assert_eq!(value_format(ValueKind::Float), "%f");
    assert_eq!(value_format(ValueKind::Pointer), "%s");
    let mut s = String::new();
    push_escaped(&mut s, "50% off");
    assert_eq!(s, "50%% off");
    let mut plain = String::new();
    push_escaped(&mut plain, "no percent");
    assert_eq!(plain, "no percent");
    let pieces = vec![
        FormatPiece::Text("x = ".to_string()),
        FormatPiece::Value(ValueKind::Int),
        FormatPiece::Text(" (100%) ".to_string()),
        FormatPiece::Value(ValueKind::Float),
        FormatPiece::Value(ValueKind::Pointer),
    ];
    assert_eq!(interpolation_format(&pieces), "x = %lld (100%%) %f%s");
}

#[test]
fn for_loops_are_planned() {
    let range = Expr::Range { start: Some(Box::new(int_lit(1))), end: Some(Box::new(int_lit(10))), inclusive: true };
    let p = plan_for(&None, &range);
    assert!(matches!(p.var_type, Type::Integer));
    assert!(matches!(p.start, Some(Expr::Literal(Literal::Integer(1)))));
    assert!(matches!(p.end, Some(Expr::Literal(Literal::Integer(10)))));
    assert_eq!(p.keep_going, IntPredicate::Sle);
    let open = Expr::Range { start: None, end: Some(Box::new(int_lit(3))), inclusive: false };
    let p = plan_for(&Some(Type::Integer), &open);
    assert!(p.start.is_none());
    assert_eq!(p.keep_going, IntPredicate::Slt);
    let n = ident("n");
    let p = plan_for(&None, &n);
    assert!(p.start.is_none());
    assert!(matches!(p.end, Some(Expr::Ident(_))));
    assert_eq!(p.keep_going, IntPredicate::Slt);
}

#[test]
fn falling_off_a_body() {
    assert_eq!(plan_fall_off("main", false, &Type::NoneType), FallOffPlan::MainZero);
    assert_eq!(plan_fall_off("main", true, &Type::NoneType), FallOffPlan::Void);
    assert_eq!(plan_fall_off("f", false, &Type::NoneType), FallOffPlan::Void);
    assert_eq!(plan_fall_off("f", false, &Type::Integer), FallOffPlan::Unreachable);
}

#[test]
fn returns_are_planned() {
    let mut st = CodegenState::new();
    st.begin_body("main");
    assert_eq!(st.plan_return(&None), ReturnPlan::MainZero);
    assert_eq!(st.plan_return(&Some(Expr::Literal(Literal::NoneValue))), ReturnPlan::MainZero);
    st.begin_body("task");
    st.set_return_type(&Type::Task(Box::new(Type::NoneType)));
    assert_eq!(st.plan_return(&Some(Expr::Literal(Literal::NoneValue))), ReturnPlan::TaskNone);
    assert_eq!(st.plan_return(&None), ReturnPlan::Void);
    st.set_return_type(&Type::Integer);
    assert_eq!(st.plan_return(&Some(Expr::Literal(Literal::NoneValue))), ReturnPlan::Void);
    assert_eq!(st.plan_return(&Some(int_lit(1))), ReturnPlan::Value);
}

#[test]
fn string_literals_get_fresh_names() {
    let mut st = CodegenState::new();
    match st.lower_literal(&Literal::String("hi".to_string())) {
        LiteralLowering::GlobalString { name, contents } => {
            assert_eq!(name, "str.0");
            assert_eq!(contents, "hi");
        }
        _ => panic!("expected a string global"),
    }
    match st.lower_literal(&Literal::String("there".to_string())) {
        LiteralLowering::GlobalString { name, .. } => assert_eq!(name, "str.1"),
        _ => panic!("expected a string global"),
    }
    assert!(matches!(st.lower_literal(&Literal::Integer(-5)), LiteralLowering::ConstInt { bits: 64, value } if value == (-5i64) as u64));
    assert!(matches!(st.lower_literal(&Literal::Boolean(true)), LiteralLowering::ConstInt { bits: 1, value: 1 }));
    assert!(matches!(st.lower_literal(&Literal::Char('A')), LiteralLowering::ConstInt { bits: 8, value: 65 }));
    assert!(matches!(st.lower_literal(&Literal::NoneValue), LiteralLowering::ConstInt { bits: 8, value: 0 }));
    let bits = 2.5f64.to_bits();
    assert!(matches!(st.lower_literal(&Literal::Float(bits)), LiteralLowering::ConstFloat { bits: b } if b == bits));
    assert_eq!(st.fresh_global_name("fmt."), "fmt.2");
}

#[test]
fn names_resolve_to_variables_then_functions() {
    let mut st = CodegenState::new();
    st.declare_function("f", &func("f", vec![], Type::Integer, vec![]));
    st.bind_variable("x".to_string(), Type::Float);
    assert!(matches!(plan_ident(&st, "x"), Ok(IdentPlan::Variable(Type::Float))));
    assert!(matches!(plan_ident(&st, "f"), Ok(IdentPlan::Function(Type::Function(_, _)))));
    match plan_ident(&st, "y") {
        Err(e) => assert_eq!(e.message, "Unknown variable: y"),
        Ok(_) => panic!("expected an error"),
    }
    st.bind_variable("f".to_string(), Type::Integer);
    assert!(matches!(plan_ident(&st, "f"), Ok(IdentPlan::Variable(Type::Integer))));
}

#[test]
fn calls_are_planned() {
    let mut st = CodegenState::new();
    st.declare_function("main", &func("main", vec![], Type::NoneType, vec![]));
    st.declare_function("add", &func("add", vec![], Type::Integer, vec![]));
    st.bind_variable("g".to_string(), Type::Function(vec![Type::Integer], Box::new(Type::Integer)));
    assert!(matches!(plan_call(&st, &ident("println"), 1), Ok(CallPlan::Print { newline: true })));
    assert!(matches!(plan_call(&st, &ident("print"), 1), Ok(CallPlan::Print { newline: false })));
    match plan_call(&st, &ident("to_string"), 1) {
        Ok(CallPlan::Stdlib { name, arity }) => {
            assert_eq!(name, "to_string");
            assert_eq!(arity, 1);
        }
        _ => panic!("expected a standard-library call"),
    }
    let math_abs = Expr::Field { object: Box::new(ident("Math")), field: "abs".to_string() };
    match plan_call(&st, &math_abs, 1) {
        Ok(CallPlan::Stdlib { name, arity }) => {
            assert_eq!(name, "Math__abs");
            assert_eq!(arity, 1);
        }
        _ => panic!("expected a standard-library call"),
    }
    assert!(matches!(plan_call(&st, &ident("g"), 1), Ok(CallPlan::Closure { .. })));
    assert!(matches!(plan_call(&st, &ident("add"), 0), Ok(CallPlan::Direct { pass_env: true, .. })));
    assert!(matches!(plan_call(&st, &ident("main"), 0), Ok(CallPlan::Direct { pass_env: false, .. })));
    assert!(matches!(plan_call(&st, &ident("puts"), 1), Ok(CallPlan::External { pass_env: true, .. })));
    let some = Expr::Field { object: Box::new(ident("Option")), field: "some".to_string() };
    assert!(matches!(plan_call(&st, &some, 1), Ok(CallPlan::OptionSome)));
    match plan_call(&st, &some, 2) {
        Err(e) => assert_eq!(e.message, "Option.some() requires exactly 1 argument"),
        Ok(_) => panic!("expected an error"),
    }
    let err = Expr::Field { object: Box::new(ident("Result")), field: "error".to_string() };
    match plan_call(&st, &err, 0) {
        Err(e) => assert_eq!(e.message, "Result.error() requires exactly 1 argument"),
        Ok(_) => panic!("expected an error"),
    }
    let method = Expr::Field { object: Box::new(ident("p")), field: "len".to_string() };
    assert!(matches!(plan_call(&st, &method, 0), Ok(CallPlan::Method { .. })));
    let unknown_module = Expr::Field { object: Box::new(ident("Math")), field: "nope".to_string() };
    assert!(matches!(plan_call(&st, &unknown_module, 0), Ok(CallPlan::Method { .. })));
    match plan_call(&st, &int_lit(1), 0) {
        Err(e) => assert_eq!(e.message, "Invalid callee"),
        Ok(_) => panic!("expected an error"),
    }
}

#[test]
fn constructions_are_planned() {
    let mut st = CodegenState::new();
    assert!(matches!(plan_construct(&st, "List"), Ok((ConstructKind::EmptyList, None))));
    assert!(matches!(plan_construct(&st, "List<Integer>"), Ok((ConstructKind::EmptyList, None))));
    assert!(matches!(plan_construct(&st, "Map<String, Integer>"), Ok((ConstructKind::EmptyMap, None))));
    assert!(matches!(plan_construct(&st, "Option"), Ok((ConstructKind::NoneOption, None))));
    assert!(matches!(plan_construct(&st, "Result<Integer, String>"), Ok((ConstructKind::DefaultResult, None))));
    assert!(matches!(plan_construct(&st, "Set"), Ok((ConstructKind::EmptySet, None))));
    assert!(matches!(plan_construct(&st, "Box<Integer>"), Ok((ConstructKind::EmptyBox, None))));
    assert!(matches!(plan_construct(&st, "Rc"), Ok((ConstructKind::EmptyRc, None))));
    assert!(matches!(plan_construct(&st, "Arc"), Ok((ConstructKind::EmptyArc, None))));
    match plan_construct(&st, "Point") {
        Err(e) => assert_eq!(e.message, "Unknown type: Point"),
        Ok(_) => panic!("expected an error"),
    }
    // "Lister" is not a list: only "List" or "List<...>" is
    match plan_construct(&st, "Lister") {
        Err(e) => assert_eq!(e.message, "Unknown type: Lister"),
        Ok(_) => panic!("expected an error"),
    }
    let class = ClassDecl {
        name: "Point".to_string(),
        fields: vec![Field { name: "x".to_string(), ty: Type::Integer }],
        constructor: Some(Constructor { params: vec![param("x", Type::Integer)], body: vec![] }),
        methods: vec![func("norm", vec![], Type::Integer, vec![])],
    };
    st.declare_class("Point", &class);
    match plan_construct(&st, "Point") {
        Ok((ConstructKind::Constructor, Some(s))) => assert_eq!(s, "Point__new"),
        _ => panic!("expected a constructor"),
    }
}

#[test]
fn class_methods_and_fields_resolve_by_type() {
    let mut st = CodegenState::new();
    let class = ClassDecl {
        name: "Point".to_string(),
        fields: vec![Field { name: "x".to_string(), ty: Type::Integer }, Field { name: "items".to_string(), ty: Type::List(Box::new(Type::Integer)) }],
        constructor: None,
        methods: vec![func("norm", vec![], Type::Integer, vec![])],
    };
    st.declare_class("Point", &class);
    st.bind_variable("p".to_string(), Type::Named("Point".to_string()));
    st.bind_variable("r".to_string(), Type::Ref(Box::new(Type::Named("Point".to_string()))));
    st.bind_variable("n".to_string(), Type::Integer);
    assert_eq!(plan_class_method(&st, &ident("p"), "norm").unwrap(), "Point__norm");
    assert_eq!(plan_class_method(&st, &ident("r"), "norm").unwrap(), "Point__norm");
    assert_eq!(plan_class_method(&st, &ident("p"), "size").unwrap_err().message, "Unknown method: Point__size");
    assert_eq!(plan_class_method(&st, &ident("n"), "norm").unwrap_err().message, "Cannot determine object type for method call");
    let items = Expr::Field { object: Box::new(ident("p")), field: "items".to_string() };
    assert!(matches!(plan_method_call(&st, &items), MethodPlan::List { .. }));
    assert!(matches!(plan_method_call(&st, &ident("p")), MethodPlan::Class));
    assert!(matches!(plan_lvalue(&st, &ident("n")), Ok(LvaluePlan::Variable)));
    assert!(matches!(plan_lvalue(&st, &items), Ok(LvaluePlan::Field { .. })));
    match plan_lvalue(&st, &ident("zz")) {
        Err(e) => assert_eq!(e.message, "Unknown variable: zz"),
        Ok(_) => panic!("expected an error"),
    }
    match plan_lvalue(&st, &int_lit(3)) {
        Err(e) => assert_eq!(e.message, "Invalid lvalue"),
        Ok(_) => panic!("expected an error"),
    }
    assert_eq!(type_to_class_name(&Type::Box(Box::new(Type::Named("Point".to_string())))).unwrap(), "Point");
    assert!(type_to_class_name(&Type::Integer).is_none());
}

#[test]
fn matches_stop_at_the_first_catch_all() {
    let arms = vec![
        MatchArm { pattern: Pattern::Literal(Literal::Integer(1)), body: vec![] },
        MatchArm { pattern: Pattern::Variant("Some".to_string(), vec!["v".to_string()]), body: vec![] },
        MatchArm { pattern: Pattern::Wildcard, body: vec![] },
        MatchArm { pattern: Pattern::Ident("late".to_string()), body: vec![] },
    ];
    let plans = plan_match(&arms);
    assert_eq!(plans.len(), 3);
    assert_eq!(plans[0].test, ArmTest::LiteralEquals);
    assert_eq!(plans[1].test, ArmTest::TagEquals { tag: TAG_SOME });
    let b = plans[1].binding.as_ref().unwrap();
    assert_eq!(b.name, "v");
    assert_eq!(b.source, BindingSource::Field(1));
    assert_eq!(plans[2].test, ArmTest::Always);
    let arms = vec![
        MatchArm { pattern: Pattern::Variant("Error".to_string(), vec!["e".to_string()]), body: vec![] },
        MatchArm { pattern: Pattern::Variant("None".to_string(), vec![]), body: vec![] },
        MatchArm { pattern: Pattern::Variant("Ok".to_string(), vec![]), body: vec![] },
    ];
    let plans = plan_match(&arms);
    assert_eq!(plans.len(), 3);
    assert_eq!(plans[0].test, ArmTest::TagEquals { tag: TAG_ERROR });
    assert!(matches!(plans[0].binding.as_ref().unwrap().ty, Type::String));
    assert_eq!(plans[1].test, ArmTest::TagEquals { tag: TAG_NONE });
    assert_eq!(plans[2].test, ArmTest::TagEquals { tag: TAG_OK });
    assert!(plans[2].binding.is_none());
    assert_ne!(TAG_SOME, TAG_NONE);
    assert_ne!(TAG_OK, TAG_ERROR);
}

#[test]
fn programs_declare_modules_with_prefixes() {
    let program = Program {
        declarations: vec![
            Decl::Function(func("main", vec![], Type::NoneType, vec![])),
            Decl::Enum(EnumDecl { name: "Color".to_string() }),
            Decl::Module(ModuleDecl {
                name: "geo".to_string(),
                declarations: vec![
                    Decl::Function(func("area", vec![], Type::Float, vec![])),
                    Decl::Class(ClassDecl { name: "Shape".to_string(), fields: vec![], constructor: None, methods: vec![] }),
                ],
            }),
        ],
    };
    let units = plan_program(&program);
    assert_eq!(units.len(), 3);
    assert_eq!(units[0].symbol, "main");
    assert_eq!(units[0].kind, UnitKind::Function);
    assert_eq!(units[1].symbol, "geo__area");
    assert_eq!(units[1].member, Some(0));
    assert_eq!(units[2].symbol, "geo__Shape");
    assert_eq!(units[2].kind, UnitKind::Class);
}

#[test]
fn lambdas_capture_free_variables_once() {
    let mut scope: SymbolTable<Type> = SymbolTable::new();
    scope.insert("a".to_string(), Type::Integer);
    scope.insert("b".to_string(), Type::Float);
    scope.insert("c".to_string(), Type::String);
    // a + x + a + b, with parameter x and an unknown name z
    let body = Expr::Binary {
        op: BinOp::Add,
        left: Box::new(Expr::Binary { op: BinOp::Add, left: Box::new(ident("a")), right: Box::new(ident("x")) }),
        right: Box::new(Expr::Binary { op: BinOp::Add, left: Box::new(ident("a")), right: Box::new(Expr::Binary { op: BinOp::Add, left: Box::new(ident("b")), right: Box::new(ident("z")) }) }),
    };
    let caps = identify_captures(&body, &vec![param("x", Type::Integer)], &scope);
    assert_eq!(caps.len(), 2);
    assert_eq!(caps[0].name, "a");
    assert!(matches!(caps[0].ty, Type::Integer));
    assert_eq!(caps[1].name, "b");
    // a parameter that shadows a variable is not captured
    let caps = identify_captures(&ident("c"), &vec![param("c", Type::String)], &scope);
    assert!(caps.is_empty());
}

#[test]
fn expression_types_are_inferred() {
    let mut vars: SymbolTable<Type> = SymbolTable::new();
    vars.insert("s".to_string(), Type::String);
    let mut fns: SymbolTable<Type> = SymbolTable::new();
    fns.insert("f".to_string(), Type::Function(vec![], Box::new(Type::Float)));
    let none: Vec<Parameter> = vec![];
    assert!(matches!(infer_expr_type(&int_lit(1), &none, &vars, &fns), Type::Integer));
    assert!(matches!(infer_expr_type(&ident("s"), &none, &vars, &fns), Type::String));
    assert!(matches!(infer_expr_type(&ident("s"), &vec![param("s", Type::Char)], &vars, &fns), Type::Char));
    assert!(matches!(infer_expr_type(&ident("unknown"), &none, &vars, &fns), Type::Integer));
    let lt = Expr::Binary { op: BinOp::Lt, left: Box::new(ident("s")), right: Box::new(int_lit(1)) };
    assert!(matches!(infer_expr_type(&lt, &none, &vars, &fns), Type::Boolean));
    let call = Expr::Call { callee: Box::new(ident("f")), args: vec![] };
    assert!(matches!(infer_expr_type(&call, &none, &vars, &fns), Type::Float));
    let pl = Expr::Call { callee: Box::new(ident("println")), args: vec![] };
    assert!(matches!(infer_expr_type(&pl, &none, &vars, &fns), Type::NoneType));
    let not = Expr::Unary { op: UnaryOp::Not, expr: Box::new(int_lit(1)) };
    assert!(matches!(infer_expr_type(&not, &none, &vars, &fns), Type::Boolean));
}

#[test]
fn standard_library_table() {
    assert_eq!(stdlib_arity("Math__abs"), Some(1));
    assert_eq!(stdlib_arity("Math__pow"), Some(2));
    assert_eq!(stdlib_arity("Math__pi"), Some(0));
    assert_eq!(stdlib_arity("File__write"), Some(2));
    assert_eq!(stdlib_arity("read_line"), Some(0));
    assert_eq!(stdlib_arity("Math__nope"), None);
    assert!(is_builtin_module("Math"));
    assert!(is_builtin_module("Args"));
    assert!(!is_builtin_module("List"));
    assert_eq!(libc_name(LibcFn::Popen, true), "_popen");
    assert_eq!(libc_name(LibcFn::Popen, false), "popen");
    assert_eq!(libc_name(LibcFn::SleepWin, false), "Sleep");
    let printf = libc_signature(LibcFn::Printf);
    assert!(printf.variadic);
    assert!(matches!(printf.ret, ReturnLayout::Value(LlvmType::I32)));
    assert!(matches!(libc_signature(LibcFn::Exit).ret, ReturnLayout::Void));
    assert_eq!(math_signature(true).params.len(), 2);
    assert_eq!(math_signature(false).params.len(), 1);
}
