//! The Apex syntax tree that the code generator reads.
//!
//! Source positions are not part of this tree: nothing in code generation
//! depends on them. A floating-point literal is held by its IEEE-754 bits.

use vstd::prelude::*;

verus! {

broadcast use vstd::std_specs::vec::group_vec_axioms;

/// An Apex type.
pub enum Type {
    Integer,
    Float,
    Boolean,
    String,
    Char,
    NoneType,
    Named(String),
    Generic(String, Vec<Type>),
    Function(Vec<Type>, Box<Type>),
    Option(Box<Type>),
    Result(Box<Type>, Box<Type>),
    List(Box<Type>),
    MapOf(Box<Type>, Box<Type>),
    SetOf(Box<Type>),
    Ref(Box<Type>),
    MutRef(Box<Type>),
    Box(Box<Type>),
    Rc(Box<Type>),
    Arc(Box<Type>),
    Task(Box<Type>),
}

/// The mathematical value of a [`Type`]: names become character sequences and
/// type lists become sequences.
pub enum TypeV {
    Integer,
    Float,
    Boolean,
    String,
    Char,
    NoneType,
    Named(Seq<char>),
    Generic(Seq<char>, Seq<TypeV>),
    Function(Seq<TypeV>, Box<TypeV>),
    Option(Box<TypeV>),
    Result(Box<TypeV>, Box<TypeV>),
    List(Box<TypeV>),
    MapOf(Box<TypeV>, Box<TypeV>),
    SetOf(Box<TypeV>),
    Ref(Box<TypeV>),
    MutRef(Box<TypeV>),
    Box(Box<TypeV>),
    Rc(Box<TypeV>),
    Arc(Box<TypeV>),
    Task(Box<TypeV>),
}

/// The value of a type.
pub open spec fn type_view(t: Type) -> TypeV
    decreases t, 1int,
{
    match t {
        Type::Integer => TypeV::Integer,
        Type::Float => TypeV::Float,
        Type::Boolean => TypeV::Boolean,
        Type::String => TypeV::String,
        Type::Char => TypeV::Char,
        Type::NoneType => TypeV::NoneType,
        Type::Named(n) => TypeV::Named(n@),
        Type::Generic(n, args) => TypeV::Generic(n@, types_view(args@)),
        Type::Function(ps, r) => TypeV::Function(types_view(ps@), Box::new(type_view(*r))),
        Type::Option(a) => TypeV::Option(Box::new(type_view(*a))),
        Type::Result(a, b) => TypeV::Result(Box::new(type_view(*a)), Box::new(type_view(*b))),
        Type::List(a) => TypeV::List(Box::new(type_view(*a))),
        Type::MapOf(a, b) => TypeV::MapOf(Box::new(type_view(*a)), Box::new(type_view(*b))),
        Type::SetOf(a) => TypeV::SetOf(Box::new(type_view(*a))),
        Type::Ref(a) => TypeV::Ref(Box::new(type_view(*a))),
        Type::MutRef(a) => TypeV::MutRef(Box::new(type_view(*a))),
        Type::Box(a) => TypeV::Box(Box::new(type_view(*a))),
        Type::Rc(a) => TypeV::Rc(Box::new(type_view(*a))),
        Type::Arc(a) => TypeV::Arc(Box::new(type_view(*a))),
        Type::Task(a) => TypeV::Task(Box::new(type_view(*a))),
    }
}

/// The values of a sequence of types, element by element.
pub open spec fn types_view(s: Seq<Type>) -> Seq<TypeV>
    decreases s, 0int,
{
    if s.len() == 0 {
        Seq::empty()
    } else {
        types_view(s.drop_last()).push(type_view(s.last()))
    }
}

impl View for Type {
    type V = TypeV;

    open spec fn view(&self) -> TypeV {
        type_view(*self)
    }
}

impl Type {
    /// A copy of this type with the same value.
    pub fn duplicate(&self) -> (r: Type)
        ensures
            r@ == self@,
        decreases self,
    {
        match self {
            Type::Integer => Type::Integer,
            Type::Float => Type::Float,
            Type::Boolean => Type::Boolean,
            Type::String => Type::String,
            Type::Char => Type::Char,
            Type::NoneType => Type::NoneType,
            Type::Named(n) => Type::Named(n.clone()),
            Type::Generic(n, args) => Type::Generic(n.clone(), duplicate_types(args)),
            Type::Function(ps, r) => Type::Function(duplicate_types(ps), Box::new(r.duplicate())),
            Type::Option(a) => Type::Option(Box::new(a.duplicate())),
            Type::Result(a, b) => Type::Result(Box::new(a.duplicate()), Box::new(b.duplicate())),
            Type::List(a) => Type::List(Box::new(a.duplicate())),
            Type::MapOf(a, b) => Type::MapOf(Box::new(a.duplicate()), Box::new(b.duplicate())),
            Type::SetOf(a) => Type::SetOf(Box::new(a.duplicate())),
            Type::Ref(a) => Type::Ref(Box::new(a.duplicate())),
            Type::MutRef(a) => Type::MutRef(Box::new(a.duplicate())),
            Type::Box(a) => Type::Box(Box::new(a.duplicate())),
            Type::Rc(a) => Type::Rc(Box::new(a.duplicate())),
            Type::Arc(a) => Type::Arc(Box::new(a.duplicate())),
            Type::Task(a) => Type::Task(Box::new(a.duplicate())),
        }
    }
}

/// A copy of a list of types with the same values.
pub fn duplicate_types(v: &Vec<Type>) -> (r: Vec<Type>)
    ensures
        types_view(r@) == types_view(v@),
    decreases v, 0int,
{
    let mut r: Vec<Type> = Vec::new();
    let mut i: usize = 0;
    while i < v.len()
        invariant
            i <= v@.len(),
            r@.len() == i,
            types_view(r@) == types_view(v@.subrange(0, i as int)),
        decreases v@.len() - i,
    {
        let t = v[i].duplicate();
        let ghost r0 = r@;
        r.push(t);
        proof {
            assert(r@.drop_last() =~= r0);
            assert(v@.subrange(0, i + 1).drop_last() =~= v@.subrange(0, i as int));
        }
        i = i + 1;
    }
    assert(v@.subrange(0, v@.len() as int) =~= v@);
    r
}

/// The types of a list of parameters.
pub open spec fn param_types(ps: Seq<Parameter>) -> Seq<TypeV> {
    ps.map_values(|p: Parameter| p.ty@)
}

/// The types of a list of parameters, as a list.
pub fn parameter_types(ps: &Vec<Parameter>) -> (r: Vec<Type>)
    ensures
        types_view(r@) == param_types(ps@),
{
    let mut r: Vec<Type> = Vec::new();
    let mut i: usize = 0;
    while i < ps.len()
        invariant
            i <= ps@.len(),
            r@.len() == i,
            types_view(r@) == param_types(ps@.subrange(0, i as int)),
        decreases ps@.len() - i,
    {
        let t = ps[i].ty.duplicate();
        let ghost r0 = r@;
        r.push(t);
        proof {
            assert(r@.drop_last() =~= r0);
            assert(param_types(ps@.subrange(0, i + 1)) =~= param_types(ps@.subrange(0, i as int)).push(ps@[i as int].ty@));
        }
        i = i + 1;
    }
    assert(ps@.subrange(0, ps@.len() as int) =~= ps@);
    r
}

/// A literal value.
pub enum Literal {
    Integer(i64),
    /// A floating-point literal, by its IEEE-754 bits.
    Float(u64),
    Boolean(bool),
    String(String),
    Char(char),
    NoneValue,
}

/// A binary operator.
#[derive(Clone, Copy, PartialEq, Eq, Structural)]
pub enum BinOp {
    Add,
    Sub,
    Mul,
    Div,
    Mod,
    Eq,
    NotEq,
    Lt,
    LtEq,
    Gt,
    GtEq,
    And,
    Or,
}

/// A unary operator.
#[derive(Clone, Copy, PartialEq, Eq, Structural)]
pub enum UnaryOp {
    Neg,
    Not,
}

/// A named, typed parameter.
pub struct Parameter {
    pub name: String,
    pub ty: Type,
}

/// A part of an interpolated string.
pub enum StringPart {
    Literal(String),
    Expr(Expr),
}

/// A pattern of a match arm.
pub enum Pattern {
    Wildcard,
    Ident(String),
    Literal(Literal),
    Variant(String, Vec<String>),
}

/// One arm of a match.
pub struct MatchArm {
    pub pattern: Pattern,
    pub body: Vec<Stmt>,
}

/// An expression.
pub enum Expr {
    Literal(Literal),
    Ident(String),
    Binary { op: BinOp, left: Box<Expr>, right: Box<Expr> },
    Unary { op: UnaryOp, expr: Box<Expr> },
    Call { callee: Box<Expr>, args: Vec<Expr> },
    Field { object: Box<Expr>, field: String },
    Index { object: Box<Expr>, index: Box<Expr> },
    Construct { ty: String, args: Vec<Expr> },
    This,
    StringInterp(Vec<StringPart>),
    Lambda { params: Vec<Parameter>, body: Box<Expr> },
    Match { expr: Box<Expr>, arms: Vec<MatchArm> },
    Try(Box<Expr>),
    Borrow(Box<Expr>),
    MutBorrow(Box<Expr>),
    Deref(Box<Expr>),
    Await(Box<Expr>),
    AsyncBlock(Vec<Stmt>),
    Require { condition: Box<Expr>, message: Option<Box<Expr>> },
    Range { start: Option<Box<Expr>>, end: Option<Box<Expr>>, inclusive: bool },
    IfExpr { condition: Box<Expr>, then_branch: Vec<Stmt>, else_branch: Option<Vec<Stmt>> },
    Block(Vec<Stmt>),
}

/// A statement.
pub enum Stmt {
    Let { name: String, ty: Type, value: Expr, mutable: bool },
    Assign { target: Expr, value: Expr },
    Expr(Expr),
    Return(Option<Expr>),
    If { condition: Expr, then_block: Vec<Stmt>, else_block: Option<Vec<Stmt>> },
    While { condition: Expr, body: Vec<Stmt> },
    For { var: String, var_type: Option<Type>, iterable: Expr, body: Vec<Stmt> },
    Break,
    Continue,
    Match { expr: Expr, arms: Vec<MatchArm> },
}

/// A field of a class.
pub struct Field {
    pub name: String,
    pub ty: Type,
}

/// The constructor of a class.
pub struct Constructor {
    pub params: Vec<Parameter>,
    pub body: Vec<Stmt>,
}

/// A function or a method.
pub struct FunctionDecl {
    pub name: String,
    pub params: Vec<Parameter>,
    pub return_type: Type,
    pub body: Vec<Stmt>,
}

/// A class.
pub struct ClassDecl {
    pub name: String,
    pub fields: Vec<Field>,
    pub constructor: Option<Constructor>,
    pub methods: Vec<FunctionDecl>,
}

/// An enum declaration; code generation emits nothing for it.
pub struct EnumDecl {
    pub name: String,
}

/// An interface declaration; code generation emits nothing for it.
pub struct InterfaceDecl {
    pub name: String,
}

/// An import; it is resolved before code generation.
pub struct ImportDecl {
    pub path: String,
}

/// A module: a named group of declarations.
pub struct ModuleDecl {
    pub name: String,
    pub declarations: Vec<Decl>,
}

/// A top-level declaration.
pub enum Decl {
    Function(FunctionDecl),
    Class(ClassDecl),
    Enum(EnumDecl),
    Interface(InterfaceDecl),
    Module(ModuleDecl),
    Import(ImportDecl),
}

/// A whole program.
pub struct Program {
    pub declarations: Vec<Decl>,
}

/// Whether `e` holds no lambda.
pub open spec fn lambda_free(e: Expr) -> bool
    decreases e, 2int,
{
    match e {
        Expr::Lambda { .. } => false,
        Expr::Binary { op: _, left, right } => lambda_free(*left) && lambda_free(*right),
        Expr::Unary { op: _, expr } => lambda_free(*expr),
        Expr::Call { callee, args } => lambda_free(*callee) && exprs_lambda_free(args@),
        Expr::Field { object, field: _ } => lambda_free(*object),
        Expr::Index { object, index } => lambda_free(*object) && lambda_free(*index),
        Expr::Construct { ty: _, args } => exprs_lambda_free(args@),
        Expr::StringInterp(parts) => parts_lambda_free(parts@),
        Expr::Match { expr, arms } => lambda_free(*expr) && arms_lambda_free(arms@),
        Expr::Try(inner) => lambda_free(*inner),
        Expr::Borrow(inner) => lambda_free(*inner),
        Expr::MutBorrow(inner) => lambda_free(*inner),
        Expr::Deref(inner) => lambda_free(*inner),
        Expr::Await(inner) => lambda_free(*inner),
        Expr::AsyncBlock(body) => stmts_lambda_free(body@),
        Expr::Require { condition, message } => lambda_free(*condition) && (match message {
            Some(m) => lambda_free(*m),
            None => true,
        }),
        Expr::Range { start, end, inclusive: _ } => (match start {
            Some(x) => lambda_free(*x),
            None => true,
        }) && (match end {
            Some(x) => lambda_free(*x),
            None => true,
        }),
        Expr::IfExpr { condition, then_branch, else_branch } => lambda_free(*condition) && stmts_lambda_free(then_branch@) && (match else_branch {
            Some(b) => stmts_lambda_free(b@),
            None => true,
        }),
        Expr::Block(body) => stmts_lambda_free(body@),
        _ => true,
    }
}

/// Whether no expression of `s` holds a lambda.
pub open spec fn exprs_lambda_free(s: Seq<Expr>) -> bool
    decreases s, 1int,
{
    if s.len() == 0 {
        true
    } else {
        exprs_lambda_free(s.drop_last()) && lambda_free(s.last())
    }
}

/// Whether no interpolated expression of `s` holds a lambda.
pub open spec fn parts_lambda_free(s: Seq<StringPart>) -> bool
    decreases s, 1int,
{
    if s.len() == 0 {
        true
    } else {
        parts_lambda_free(s.drop_last()) && match s.last() {
            StringPart::Expr(e) => lambda_free(e),
            StringPart::Literal(_) => true,
        }
    }
}

/// Whether no arm of `s` holds a lambda.
pub open spec fn arms_lambda_free(s: Seq<MatchArm>) -> bool
    decreases s, 1int,
{
    if s.len() == 0 {
        true
    } else {
        arms_lambda_free(s.drop_last()) && stmts_lambda_free(s.last().body@)
    }
}

/// Whether statement `st` holds no lambda.
pub open spec fn stmt_lambda_free(st: Stmt) -> bool
    decreases st, 2int,
{
    match st {
        Stmt::Let { name: _, ty: _, value, mutable: _ } => lambda_free(value),
        Stmt::Assign { target, value } => lambda_free(target) && lambda_free(value),
        Stmt::Expr(e) => lambda_free(e),
        Stmt::Return(Some(e)) => lambda_free(e),
        Stmt::If { condition, then_block, else_block } => lambda_free(condition) && stmts_lambda_free(then_block@) && (match else_block {
            Some(b) => stmts_lambda_free(b@),
            None => true,
        }),
        Stmt::While { condition, body } => lambda_free(condition) && stmts_lambda_free(body@),
        Stmt::For { var: _, var_type: _, iterable, body } => lambda_free(iterable) && stmts_lambda_free(body@),
        Stmt::Match { expr, arms } => lambda_free(expr) && arms_lambda_free(arms@),
        _ => true,
    }
}

/// Whether no statement of `s` holds a lambda.
pub open spec fn stmts_lambda_free(s: Seq<Stmt>) -> bool
    decreases s, 1int,
{
    if s.len() == 0 {
        true
    } else {
        stmts_lambda_free(s.drop_last()) && stmt_lambda_free(s.last())
    }
}

/// A list is free of lambdas exactly when each of its elements is.
pub proof fn lemma_exprs_lambda_free(s: Seq<Expr>)
    ensures
        exprs_lambda_free(s) <==> forall|i: int| 0 <= i < s.len() ==> lambda_free(#[trigger] s[i]),
    decreases s.len(),
{
    if s.len() > 0 {
        lemma_exprs_lambda_free(s.drop_last());
        assert forall|i: int| 0 <= i < s.len() - 1 implies s.drop_last()[i] == s[i] by {};
    }
}

/// A list of statements is free of lambdas exactly when each is.
pub proof fn lemma_stmts_lambda_free(s: Seq<Stmt>)
    ensures
        stmts_lambda_free(s) <==> forall|i: int| 0 <= i < s.len() ==> stmt_lambda_free(#[trigger] s[i]),
    decreases s.len(),
{
    if s.len() > 0 {
        lemma_stmts_lambda_free(s.drop_last());
        assert forall|i: int| 0 <= i < s.len() - 1 implies s.drop_last()[i] == s[i] by {};
    }
}

/// A list of arms is free of lambdas exactly when each arm's body is.
pub proof fn lemma_arms_lambda_free(s: Seq<MatchArm>)
    ensures
        arms_lambda_free(s) <==> forall|i: int| 0 <= i < s.len() ==> stmts_lambda_free(#[trigger] s[i].body@),
    decreases s.len(),
{
    if s.len() > 0 {
        lemma_arms_lambda_free(s.drop_last());
        assert forall|i: int| 0 <= i < s.len() - 1 implies s.drop_last()[i] == s[i] by {};
    }
}

/// The interpolated expressions of a string are free of lambdas exactly
/// when each is.
pub proof fn lemma_parts_lambda_free(s: Seq<StringPart>)
    ensures
        parts_lambda_free(s) <==> forall|i: int| 0 <= i < s.len() ==> (#[trigger] s[i] matches StringPart::Expr(e) ==> lambda_free(e)),
    decreases s.len(),
{
    if s.len() > 0 {
        lemma_parts_lambda_free(s.drop_last());
        assert forall|i: int| 0 <= i < s.len() - 1 implies s.drop_last()[i] == s[i] by {};
    }
}

/// Whether `e` is a variable, `this`, or a field of one, however deeply.
pub open spec fn access_path(e: Expr) -> bool
    decreases e,
{
    match e {
        Expr::Ident(_) => true,
        Expr::This => true,
        Expr::Field { object, field: _ } => access_path(*object),
        _ => false,
    }
}

/// Whether the constructor and the methods of `c` hold no lambda.
pub open spec fn class_lambda_free(c: ClassDecl) -> bool {
    &&& (c.constructor matches Some(k) ==> stmts_lambda_free(k.body@))
    &&& forall|i: int| 0 <= i < c.methods@.len() ==> stmts_lambda_free(#[trigger] c.methods@[i].body@)
}

/// Whether the bodies that declaration `d` emits hold no lambda.
pub open spec fn decl_lambda_free(d: Decl) -> bool {
    match d {
        Decl::Function(f) => stmts_lambda_free(f.body@),
        Decl::Class(c) => class_lambda_free(c),
        _ => true,
    }
}

} // verus!
