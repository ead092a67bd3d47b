//! Name resolution: what a name, a field access, an assignment target, a
//! call, a method call and a construction refer to.

use vstd::prelude::*;
use crate::ast::{Type, TypeV, Expr, types_view};
use crate::error::CodegenError;
use crate::state::CodegenState;
use crate::classes::{spec_field_index, lemma_field_index};
use crate::infer::{infer_object_type, spec_object_type, type_to_class_name, spec_class_name, this_name, this_string};
use crate::layout::{LlvmType, spec_layout, llvm_type, main_name, is_main};
use crate::stdlib::{stdlib_arity, spec_stdlib_arity, is_builtin_module, spec_is_builtin_module};
use crate::text::{str_eq, starts_with, qualified_name, spec_qualified};

verus! {

/// An error whose message is `prefix` followed by `name`.
pub fn error_naming(prefix: &str, name: &str) -> (e: CodegenError)
    ensures
        e.message@ == prefix@ + name@,
{
    let mut m = String::from_str(prefix);
    m.append(name);
    CodegenError::new(m)
}

/// What a name used as a value denotes.
pub enum IdentPlan {
    /// A variable of this type, to be loaded.
    Variable(Type),
    /// A declared function of this type, to be wrapped in a closure with no
    /// environment.
    Function(Type),
}

/// Resolves a name used as a value: variables first, then functions.
pub fn plan_ident(st: &CodegenState, name: &str) -> (r: Result<IdentPlan, CodegenError>)
    requires
        st.wf(),
    ensures
        st.vars().contains_key(name@) ==> (r matches Ok(IdentPlan::Variable(t)) && t@ == st.vars()[name@]),
        !st.vars().contains_key(name@) && st.fns().contains_key(name@) ==> (r matches Ok(IdentPlan::Function(t)) && t@ == st.fns()[name@]),
        !st.vars().contains_key(name@) && !st.fns().contains_key(name@) ==> (r matches Err(e) && e.message@ == "Unknown variable: "@ + name@),
{
    match st.variables().get(name) {
        Some(t) => Ok(IdentPlan::Variable(t.duplicate())),
        None => match st.functions().get(name) {
            Some(t) => Ok(IdentPlan::Function(t.duplicate())),
            None => Err(error_naming("Unknown variable: ", name)),
        },
    }
}

/// Whether `this` is available, as `Expr::This` needs it to be.
pub fn plan_this(st: &CodegenState) -> (r: Result<(), CodegenError>)
    requires
        st.wf(),
    ensures
        r is Ok <==> st.vars().contains_key(this_name()),
        r matches Err(e) ==> e.message@ == "'this' not available"@,
{
    let this = this_string();
    if st.variables().contains(this.as_str()) {
        Ok(())
    } else {
        Err(CodegenError::new(String::from_str("'this' not available")))
    }
}

/// Where a field lives: its class, its position in the instance struct and
/// its layout.
pub struct FieldAccess {
    pub class: String,
    pub index: usize,
    pub layout: LlvmType,
}

/// The class whose field or method `object.x` uses, by the object's type.
pub open spec fn spec_object_class(st: CodegenState, object: Expr) -> Option<Seq<char>> {
    match spec_object_type(object, st.vars(), st.class_map()) {
        Some(t) => spec_class_name(t),
        None => None,
    }
}

/// Resolves `object.field` once `object` has been evaluated. The message
/// when the object's class is unknown says whether the field is read or
/// addressed (`for_pointer`).
pub fn resolve_field(st: &CodegenState, object: &Expr, field: &str, for_pointer: bool) -> (r: Result<FieldAccess, CodegenError>)
    requires
        st.wf(),
    ensures
        match spec_object_class(*st, *object) {
            None => r matches Err(e) && e.message@ == (if for_pointer {
                "Cannot determine object type for field ptr"@
            } else {
                "Cannot determine object type for field access"@
            }),
            Some(c) => if !st.class_map().contains_key(c) {
                r matches Err(e) && e.message@ == "Unknown class: "@ + c
            } else {
                match spec_field_index(st.class_map()[c], field@) {
                    None => r matches Err(e) && e.message@ == "Unknown field: "@ + field@,
                    Some(i) => r matches Ok(a) && a.class@ == c && a.index == i && a.layout@ == spec_layout(st.class_map()[c][i].1),
                }
            },
        },
{
    let cls = match infer_object_type(object, st.variables(), st.classes()) {
        Some(t) => type_to_class_name(&t),
        None => None,
    };
    let cls = match cls {
        Some(c) => c,
        None => {
            let m = if for_pointer {
                "Cannot determine object type for field ptr"
            } else {
                "Cannot determine object type for field access"
            };
            return Err(CodegenError::new(String::from_str(m)));
        },
    };
    let info = match st.classes().get(cls.as_str()) {
        Some(i) => i,
        None => return Err(error_naming("Unknown class: ", cls.as_str())),
    };
    match info.field_index(field) {
        Some(i) => {
            proof {
                lemma_field_index(info@, field@);
            }
            let layout = llvm_type(&info.fields[i].ty);
            Ok(FieldAccess { class: cls, index: i, layout })
        },
        None => Err(error_naming("Unknown field: ", field)),
    }
}

/// What an assignment writes to.
pub enum LvaluePlan<'a> {
    /// The slot of a variable.
    Variable,
    /// A field of an object: evaluate `object`, then resolve the field with
    /// [`resolve_lvalue_field`].
    Field { object: &'a Expr, field: &'a str },
}

/// Decides what an assignment target is: a variable in scope or a field.
pub fn plan_lvalue<'a>(st: &CodegenState, target: &'a Expr) -> (r: Result<LvaluePlan<'a>, CodegenError>)
    requires
        st.wf(),
    ensures
        match *target {
            Expr::Ident(n) => if st.vars().contains_key(n@) {
                r matches Ok(LvaluePlan::Variable)
            } else {
                r matches Err(e) && e.message@ == "Unknown variable: "@ + n@
            },
            Expr::Field { object, field } => r matches Ok(LvaluePlan::Field { object: o, field: f }) && *o == *object && f@ == field@,
            _ => r matches Err(e) && e.message@ == "Invalid lvalue"@,
        },
{
    match target {
        Expr::Ident(n) => if st.variables().contains(n.as_str()) {
            Ok(LvaluePlan::Variable)
        } else {
            Err(error_naming("Unknown variable: ", n.as_str()))
        },
        Expr::Field { object, field } => Ok(LvaluePlan::Field { object: &**object, field: field.as_str() }),
        _ => Err(CodegenError::new(String::from_str("Invalid lvalue"))),
    }
}

/// The class of an object assigned through: only a variable or `this` of
/// class type has one.
pub open spec fn spec_lvalue_class(st: CodegenState, object: Expr) -> Option<Seq<char>> {
    let n = match object {
        Expr::Ident(n) => Some(n@),
        Expr::This => Some(this_name()),
        _ => None,
    };
    match n {
        Some(v) => if st.vars().contains_key(v) {
            match st.vars()[v] {
                TypeV::Named(c) => Some(c),
                _ => None,
            }
        } else {
            None
        },
        None => None,
    }
}

fn named_class(t: Option<&Type>) -> (r: Option<String>)
    ensures
        match t {
            Some(x) => match x@ {
                TypeV::Named(c) => r matches Some(s) && s@ == c,
                _ => r is None,
            },
            None => r is None,
        },
{
    match t {
        Some(Type::Named(c)) => Some(c.clone()),
        _ => None,
    }
}

/// Resolves the field assigned to, once `object` has been evaluated: its
/// position in the instance struct.
pub fn resolve_lvalue_field(st: &CodegenState, object: &Expr, field: &str) -> (r: Result<usize, CodegenError>)
    requires
        st.wf(),
    ensures
        match spec_lvalue_class(*st, *object) {
            None => r matches Err(e) && e.message@ == "Cannot determine object type"@,
            Some(c) => if !st.class_map().contains_key(c) {
                r matches Err(e) && e.message@ == "Unknown class: "@ + c
            } else {
                match spec_field_index(st.class_map()[c], field@) {
                    None => r matches Err(e) && e.message@ == "Unknown field: "@ + field@,
                    Some(i) => r matches Ok(k) && k == i,
                }
            },
        },
{
    let cls = match object {
        Expr::Ident(n) => named_class(st.variables().get(n.as_str())),
        Expr::This => {
            let this = this_string();
            named_class(st.variables().get(this.as_str()))
        },
        _ => None,
    };
    let cls = match cls {
        Some(c) => c,
        None => return Err(CodegenError::new(String::from_str("Cannot determine object type"))),
    };
    let info = match st.classes().get(cls.as_str()) {
        Some(i) => i,
        None => return Err(error_naming("Unknown class: ", cls.as_str())),
    };
    match info.field_index(field) {
        Some(i) => Ok(i),
        None => Err(error_naming("Unknown field: ", field)),
    }
}

/// What a call does.
pub enum CallPlan<'a> {
    /// Print the arguments, then a newline if `newline`.
    Print { newline: bool },
    /// Call the standard-library entry `name`, which reads `arity` arguments.
    Stdlib { name: String, arity: usize },
    /// `Option.some(x)`.
    OptionSome,
    /// `Option.none()`.
    OptionNone,
    /// `Result.ok(x)`.
    ResultOk,
    /// `Result.error(x)`.
    ResultError,
    /// A method call `object.method(..)`; see [`plan_method_call`].
    Method { object: &'a Expr, method: &'a str },
    /// A call through the closure held by variable `name`, whose type is a
    /// function of `params` returning `ret`.
    Closure { name: String, params: Vec<Type>, ret: Type },
    /// A direct call of the declared function `symbol`; an environment
    /// pointer is passed first unless it is the entry point.
    Direct { symbol: String, pass_env: bool },
    /// A call of a function that is not declared in the tables: the module
    /// is searched for `symbol`, and the call fails with
    /// `Unknown function: symbol` when it holds none.
    External { symbol: String, pass_env: bool },
}

/// The name of the built-in that prints without a newline.
pub open spec fn print_name() -> Seq<char> {
    "print"@
}

/// The name of the built-in that prints with a newline.
pub open spec fn println_lit() -> Seq<char> {
    "println"@
}

/// How a call of the name `name` (with this many arguments) is planned,
/// when neither printing nor the standard library handles it.
pub open spec fn spec_named_call_kind(st: CodegenState, name: Seq<char>) -> int {
    if st.vars().contains_key(name) && st.vars()[name] is Function {
        0
    } else if st.fns().contains_key(name) {
        1
    } else {
        2
    }
}

/// The plan of calling the name `name`: printing, a standard-library entry,
/// a closure held by a variable, a declared function, or a function to be
/// found in the module.
pub open spec fn spec_ident_call_ok(st: CodegenState, name: Seq<char>, r: CallPlan) -> bool {
    if name == println_lit() || name == print_name() {
        r matches CallPlan::Print { newline } && newline == (name == println_lit())
    } else if spec_stdlib_arity(name) is Some {
        r matches CallPlan::Stdlib { name: n, arity } && n@ == name && spec_stdlib_arity(name) == Some(arity as nat)
    } else if spec_named_call_kind(st, name) == 0 {
        r matches CallPlan::Closure { name: n, params, ret } && n@ == name
            && st.vars()[name] == TypeV::Function(types_view(params@), Box::new(ret@))
    } else if spec_named_call_kind(st, name) == 1 {
        r matches CallPlan::Direct { symbol, pass_env } && symbol@ == name && pass_env == (name != main_name())
    } else {
        r matches CallPlan::External { symbol, pass_env } && symbol@ == name && pass_env == (name != main_name())
    }
}

/// The plan of calling `object.field(..)` with `n` arguments.
pub open spec fn spec_field_call_ok(object: Expr, field: Seq<char>, n: nat, r: Result<CallPlan, CodegenError>) -> bool {
    let ty_name = match object {
        Expr::Ident(t) => Some(t@),
        _ => None,
    };
    let q = match ty_name {
        Some(m) => if spec_is_builtin_module(m) {
            Some(spec_qualified(m, field))
        } else {
            None
        },
        None => None,
    };
    if ty_name == Some("Option"@) && field == "some"@ {
        if n != 1 {
            r matches Err(e) && e.message@ == "Option.some() requires exactly 1 argument"@
        } else {
            r matches Ok(CallPlan::OptionSome)
        }
    } else if ty_name == Some("Option"@) && field == "none"@ {
        r matches Ok(CallPlan::OptionNone)
    } else if ty_name == Some("Result"@) && field == "ok"@ {
        if n != 1 {
            r matches Err(e) && e.message@ == "Result.ok() requires exactly 1 argument"@
        } else {
            r matches Ok(CallPlan::ResultOk)
        }
    } else if ty_name == Some("Result"@) && field == "error"@ {
        if n != 1 {
            r matches Err(e) && e.message@ == "Result.error() requires exactly 1 argument"@
        } else {
            r matches Ok(CallPlan::ResultError)
        }
    } else if q is Some && spec_stdlib_arity(q->0) is Some {
        r matches Ok(CallPlan::Stdlib { name: s, arity }) && s@ == q->0
            && spec_stdlib_arity(q->0) == Some(arity as nat)
    } else {
        r matches Ok(CallPlan::Method { object: o, method }) && *o == object && method@ == field
    }
}

fn ident_is(e: &Expr, name: &str) -> (r: bool)
    ensures
        r == (match *e {
            Expr::Ident(t) => Some(t@),
            _ => None,
        } == Some(name@)),
{
    match e {
        Expr::Ident(t) => str_eq(t.as_str(), name),
        _ => false,
    }
}

/// Decides what a call `callee(args)` with `n_args` arguments does.
pub fn plan_call<'a>(st: &CodegenState, callee: &'a Expr, n_args: usize) -> (r: Result<CallPlan<'a>, CodegenError>)
    requires
        st.wf(),
    ensures
        match *callee {
            Expr::Ident(name) => (r matches Ok(p) && spec_ident_call_ok(*st, name@, p)),
            Expr::Field { object, field } => spec_field_call_ok(*object, field@, n_args as nat, r),
            _ => r matches Err(e) && e.message@ == "Invalid callee"@,
        },
{
    match callee {
        Expr::Ident(name) => {
            let n = name.as_str();
            if str_eq(n, "println") {
                return Ok(CallPlan::Print { newline: true });
            }
            if str_eq(n, "print") {
                return Ok(CallPlan::Print { newline: false });
            }
            match stdlib_arity(n) {
                Some(a) => {
                    return Ok(CallPlan::Stdlib { name: name.clone(), arity: a });
                },
                None => {},
            }
            match st.variables().get(n) {
                Some(Type::Function(params, ret)) => {
                    return Ok(CallPlan::Closure { name: name.clone(), params: crate::ast::duplicate_types(params), ret: ret.duplicate() });
                },
                _ => {},
            }
            let pass_env = !is_main(n);
            if st.functions().contains(n) {
                Ok(CallPlan::Direct { symbol: name.clone(), pass_env })
            } else {
                Ok(CallPlan::External { symbol: name.clone(), pass_env })
            }
        },
        Expr::Field { object, field } => {
            let f = field.as_str();
            if ident_is(object, "Option") && str_eq(f, "some") {
                if n_args != 1 {
                    return Err(CodegenError::new(String::from_str("Option.some() requires exactly 1 argument")));
                }
                return Ok(CallPlan::OptionSome);
            }
            if ident_is(object, "Option") && str_eq(f, "none") {
                return Ok(CallPlan::OptionNone);
            }
            if ident_is(object, "Result") && str_eq(f, "ok") {
                if n_args != 1 {
                    return Err(CodegenError::new(String::from_str("Result.ok() requires exactly 1 argument")));
                }
                return Ok(CallPlan::ResultOk);
            }
            if ident_is(object, "Result") && str_eq(f, "error") {
                if n_args != 1 {
                    return Err(CodegenError::new(String::from_str("Result.error() requires exactly 1 argument")));
                }
                return Ok(CallPlan::ResultError);
            }
            match &**object {
                Expr::Ident(m) => {
                    if is_builtin_module(m.as_str()) {
                        let q = qualified_name(m.as_str(), f);
                        match stdlib_arity(q.as_str()) {
                            Some(a) => {
                                return Ok(CallPlan::Stdlib { name: q, arity: a });
                            },
                            None => {},
                        }
                    }
                },
                _ => {},
            }
            Ok(CallPlan::Method { object: &**object, method: f })
        },
        _ => Err(CodegenError::new(String::from_str("Invalid callee"))),
    }
}

/// Where a list method call finds its list.
pub enum ListSource<'a> {
    /// In the slot of a variable.
    Variable(String),
    /// In a field of an object, addressed through [`resolve_field`].
    Field { object: &'a Expr, field: &'a str },
    /// In the slot of `this`.
    This,
}

/// What a method call does.
pub enum MethodPlan<'a> {
    /// A built-in list method on the list found at `source`; if the list
    /// cannot be addressed the call is a class method call instead.
    List { source: ListSource<'a>, element: Type },
    /// A built-in map method on the map held by a variable.
    MapMethod { variable: String },
    /// A built-in set method on the set held by a variable.
    SetMethod { variable: String },
    /// A built-in option method on the option held by a variable.
    OptionMethod { variable: String },
    /// A built-in result method on the result held by a variable.
    ResultMethod { variable: String },
    /// A method of a class: evaluate the object, then resolve with
    /// [`plan_class_method`].
    Class,
}

/// Whether `source` addresses the list that `object` denotes.
pub open spec fn list_source_of(source: ListSource, object: Expr) -> bool {
    match object {
        Expr::Ident(n) => (source matches ListSource::Variable(v) && v@ == n@),
        Expr::Field { object: o, field: f } => (source matches ListSource::Field { object: so, field: sf } && *so == *o && sf@ == f@),
        _ => source is This,
    }
}

/// Which built-in collection, if any, handles a method call on `object`.
pub open spec fn spec_builtin_method(st: CodegenState, object: Expr) -> int {
    match spec_object_type(object, st.vars(), st.class_map()) {
        Some(TypeV::List(_)) => match object {
            Expr::Ident(_) | Expr::Field { .. } | Expr::This => 1,
            _ => 0,
        },
        Some(TypeV::MapOf(_, _)) => if object is Ident { 2 } else { 0 },
        Some(TypeV::SetOf(_)) => if object is Ident { 3 } else { 0 },
        Some(TypeV::Option(_)) => if object is Ident { 4 } else { 0 },
        Some(TypeV::Result(_, _)) => if object is Ident { 5 } else { 0 },
        _ => 0,
    }
}

/// Decides what `object.method(..)` does, by the object's type: lists,
/// maps, sets, options and results have built-in methods (a list wherever it
/// lives, the others only in a variable); anything else is a class method.
pub fn plan_method_call<'a>(st: &CodegenState, object: &'a Expr) -> (r: MethodPlan<'a>)
    requires
        st.wf(),
    ensures
        spec_builtin_method(*st, *object) == 0 <==> r is Class,
        spec_builtin_method(*st, *object) == 1 ==> (r matches MethodPlan::List { source, element } && list_source_of(source, *object)
            && spec_object_type(*object, st.vars(), st.class_map()) == Some(TypeV::List(Box::new(element@)))),
        spec_builtin_method(*st, *object) == 2 ==> (r matches MethodPlan::MapMethod { variable } && Expr::Ident(variable) == *object),
        spec_builtin_method(*st, *object) == 3 ==> (r matches MethodPlan::SetMethod { variable } && Expr::Ident(variable) == *object),
        spec_builtin_method(*st, *object) == 4 ==> (r matches MethodPlan::OptionMethod { variable } && Expr::Ident(variable) == *object),
        spec_builtin_method(*st, *object) == 5 ==> (r matches MethodPlan::ResultMethod { variable } && Expr::Ident(variable) == *object),
{
    let ty = infer_object_type(object, st.variables(), st.classes());
    match ty {
        Some(Type::List(element)) => match object {
            Expr::Ident(n) => MethodPlan::List { source: ListSource::Variable(n.clone()), element: *element },
            Expr::Field { object: o, field: f } => MethodPlan::List { source: ListSource::Field { object: &**o, field: f.as_str() }, element: *element },
            Expr::This => MethodPlan::List { source: ListSource::This, element: *element },
            _ => MethodPlan::Class,
        },
        Some(Type::MapOf(_, _)) => match object {
            Expr::Ident(n) => MethodPlan::MapMethod { variable: n.clone() },
            _ => MethodPlan::Class,
        },
        Some(Type::SetOf(_)) => match object {
            Expr::Ident(n) => MethodPlan::SetMethod { variable: n.clone() },
            _ => MethodPlan::Class,
        },
        Some(Type::Option(_)) => match object {
            Expr::Ident(n) => MethodPlan::OptionMethod { variable: n.clone() },
            _ => MethodPlan::Class,
        },
        Some(Type::Result(_, _)) => match object {
            Expr::Ident(n) => MethodPlan::ResultMethod { variable: n.clone() },
            _ => MethodPlan::Class,
        },
        _ => MethodPlan::Class,
    }
}

/// Resolves a class method call `object.method(..)` once the object has
/// been evaluated: the symbol `Class__method` of the method to call, which
/// receives an environment pointer and the object first.
pub fn plan_class_method(st: &CodegenState, object: &Expr, method: &str) -> (r: Result<String, CodegenError>)
    requires
        st.wf(),
    ensures
        match spec_object_class(*st, *object) {
            None => r matches Err(e) && e.message@ == "Cannot determine object type for method call"@,
            Some(c) => if !st.class_map().contains_key(c) {
                r matches Err(e) && e.message@ == "Unknown class: "@ + c
            } else if !st.fns().contains_key(spec_qualified(c, method@)) {
                r matches Err(e) && e.message@ == "Unknown method: "@ + spec_qualified(c, method@)
            } else {
                r matches Ok(s) && s@ == spec_qualified(c, method@)
            },
        },
{
    let cls = match infer_object_type(object, st.variables(), st.classes()) {
        Some(t) => type_to_class_name(&t),
        None => None,
    };
    let cls = match cls {
        Some(c) => c,
        None => return Err(CodegenError::new(String::from_str("Cannot determine object type for method call"))),
    };
    if !st.classes().contains(cls.as_str()) {
        return Err(error_naming("Unknown class: ", cls.as_str()));
    }
    let symbol = qualified_name(cls.as_str(), method);
    if !st.functions().contains(symbol.as_str()) {
        return Err(error_naming("Unknown method: ", symbol.as_str()));
    }
    Ok(symbol)
}

/// What `new T(..)` builds.
#[derive(PartialEq, Eq, Structural, Debug)]
pub enum ConstructKind {
    EmptyList,
    EmptyMap,
    NoneOption,
    DefaultResult,
    EmptySet,
    EmptyBox,
    EmptyRc,
    EmptyArc,
    /// An instance built by the class's constructor.
    Constructor,
}

/// Whether the type written `ty` is the built-in `base`, with or without
/// type arguments.
pub open spec fn is_builtin_named(ty: Seq<char>, base: Seq<char>) -> bool {
    ty == base || ((base + "<"@).len() <= ty.len() && ty.subrange(0, (base + "<"@).len() as int) == base + "<"@)
}

fn builtin_named(ty: &str, base: &str, base_open: &str) -> (r: bool)
    requires
        base_open@ == base@ + "<"@,
    ensures
        r == is_builtin_named(ty@, base@),
{
    str_eq(ty, base) || starts_with(ty, base_open)
}

/// What `new ty(..)` builds: the built-in containers and smart pointers are
/// recognised by name (with or without type arguments), in the order list,
/// map, option, result, set, box, rc, arc; anything else needs a declared
/// constructor.
pub open spec fn spec_construct_kind(ty: Seq<char>) -> ConstructKind {
    if is_builtin_named(ty, "List"@) {
        ConstructKind::EmptyList
    } else if is_builtin_named(ty, "Map"@) {
        ConstructKind::EmptyMap
    } else if is_builtin_named(ty, "Option"@) {
        ConstructKind::NoneOption
    } else if is_builtin_named(ty, "Result"@) {
        ConstructKind::DefaultResult
    } else if is_builtin_named(ty, "Set"@) {
        ConstructKind::EmptySet
    } else if is_builtin_named(ty, "Box"@) {
        ConstructKind::EmptyBox
    } else if is_builtin_named(ty, "Rc"@) {
        ConstructKind::EmptyRc
    } else if is_builtin_named(ty, "Arc"@) {
        ConstructKind::EmptyArc
    } else {
        ConstructKind::Constructor
    }
}

/// Decides what `new ty(..)` builds; for a class, the symbol of its
/// constructor, `ty__new`, which must be declared.
pub fn plan_construct(st: &CodegenState, ty: &str) -> (r: Result<(ConstructKind, Option<String>), CodegenError>)
    requires
        st.wf(),
    ensures
        spec_construct_kind(ty@) != ConstructKind::Constructor ==> (r matches Ok((k, s)) && k == spec_construct_kind(ty@) && s is None),
        spec_construct_kind(ty@) == ConstructKind::Constructor && st.fns().contains_key(spec_qualified(ty@, "new"@))
            ==> (r matches Ok((k, Some(s))) && k == ConstructKind::Constructor && s@ == spec_qualified(ty@, "new"@)),
        spec_construct_kind(ty@) == ConstructKind::Constructor && !st.fns().contains_key(spec_qualified(ty@, "new"@))
            ==> (r matches Err(e) && e.message@ == "Unknown type: "@ + ty@),
{
    proof {
        reveal_strlit("<");
        reveal_strlit("List<");
        reveal_strlit("List");
        reveal_strlit("Map<");
        reveal_strlit("Map");
        reveal_strlit("Option<");
        reveal_strlit("Option");
        reveal_strlit("Result<");
        reveal_strlit("Result");
        reveal_strlit("Set<");
        reveal_strlit("Set");
        reveal_strlit("Box<");
        reveal_strlit("Box");
        reveal_strlit("Rc<");
        reveal_strlit("Rc");
        reveal_strlit("Arc<");
        reveal_strlit("Arc");
        assert("List<"@ =~= "List"@ + "<"@);
        assert("Map<"@ =~= "Map"@ + "<"@);
        assert("Option<"@ =~= "Option"@ + "<"@);
        assert("Result<"@ =~= "Result"@ + "<"@);
        assert("Set<"@ =~= "Set"@ + "<"@);
        assert("Box<"@ =~= "Box"@ + "<"@);
        assert("Rc<"@ =~= "Rc"@ + "<"@);
        assert("Arc<"@ =~= "Arc"@ + "<"@);
    }
    if builtin_named(ty, "List", "List<") {
        return Ok((ConstructKind::EmptyList, None));
    }
    if builtin_named(ty, "Map", "Map<") {
        return Ok((ConstructKind::EmptyMap, None));
    }
    if builtin_named(ty, "Option", "Option<") {
        return Ok((ConstructKind::NoneOption, None));
    }
    if builtin_named(ty, "Result", "Result<") {
        return Ok((ConstructKind::DefaultResult, None));
    }
    if builtin_named(ty, "Set", "Set<") {
        return Ok((ConstructKind::EmptySet, None));
    }
    if builtin_named(ty, "Box", "Box<") {
        return Ok((ConstructKind::EmptyBox, None));
    }
    if builtin_named(ty, "Rc", "Rc<") {
        return Ok((ConstructKind::EmptyRc, None));
    }
    if builtin_named(ty, "Arc", "Arc<") {
        return Ok((ConstructKind::EmptyArc, None));
    }
    let symbol = qualified_name(ty, "new");
    if st.functions().contains(symbol.as_str()) {
        Ok((ConstructKind::Constructor, Some(symbol)))
    } else {
        Err(error_naming("Unknown type: ", ty))
    }
}

} // verus!
