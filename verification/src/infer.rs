//! The types the generator assumes for expressions: the result type of a
//! lambda body, the type of an object whose field or method is used, and the
//! class a type refers to.

use vstd::prelude::*;
use crate::ast::{Type, TypeV, Expr, Literal, BinOp, UnaryOp, Parameter, param_types, types_view, parameter_types};
use crate::tables::SymbolTable;
use crate::classes::{ClassInfo, spec_field_type};
use crate::text::str_eq;

verus! {

broadcast use vstd::std_specs::vec::group_vec_axioms;

/// The name by which methods and constructors refer to their instance.
pub open spec fn this_name() -> Seq<char> {
    seq!['t', 'h', 'i', 's']
}

/// The name of the built-in that prints a line.
pub open spec fn println_name() -> Seq<char> {
    seq!['p', 'r', 'i', 'n', 't', 'l', 'n']
}

/// The type of a literal.
pub open spec fn literal_type(l: Literal) -> TypeV {
    match l {
        Literal::Integer(_) => TypeV::Integer,
        Literal::Float(_) => TypeV::Float,
        Literal::Boolean(_) => TypeV::Boolean,
        Literal::String(_) => TypeV::String,
        Literal::Char(_) => TypeV::Char,
        Literal::NoneValue => TypeV::NoneType,
    }
}

/// The type of the first parameter named `n`, if any.
pub open spec fn first_param_type(ps: Seq<Parameter>, n: Seq<char>) -> Option<TypeV>
    decreases ps.len(),
{
    if ps.len() == 0 {
        None
    } else if ps[0].name@ == n {
        Some(ps[0].ty@)
    } else {
        first_param_type(ps.drop_first(), n)
    }
}

/// Whether a binary operator yields a boolean.
pub open spec fn is_predicate_op(op: BinOp) -> bool {
    match op {
        BinOp::Eq | BinOp::NotEq | BinOp::Lt | BinOp::LtEq | BinOp::Gt | BinOp::GtEq | BinOp::And | BinOp::Or => true,
        _ => false,
    }
}

/// The type assumed for `e` inside a lambda with parameters `params`: a
/// name is looked up among the parameters, then the variables, then the
/// functions, and is an integer when none binds it; a comparison or a logical
/// operator gives a boolean, arithmetic and negation the type of their first
/// operand; a call gives its callee's result type (`println` gives `None`);
/// a lambda gives a function type; anything else is taken as an integer.
pub open spec fn spec_infer(e: Expr, params: Seq<Parameter>, vars: Map<Seq<char>, TypeV>, fns: Map<Seq<char>, TypeV>) -> TypeV
    decreases e,
{
    match e {
        Expr::Literal(l) => literal_type(l),
        Expr::Ident(n) => match first_param_type(params, n@) {
            Some(t) => t,
            None => if vars.contains_key(n@) {
                vars[n@]
            } else if fns.contains_key(n@) {
                fns[n@]
            } else {
                TypeV::Integer
            },
        },
        Expr::Binary { op, left, right: _ } => if is_predicate_op(op) {
            TypeV::Boolean
        } else {
            spec_infer(*left, params, vars, fns)
        },
        Expr::Unary { op, expr } => match op {
            UnaryOp::Not => TypeV::Boolean,
            UnaryOp::Neg => spec_infer(*expr, params, vars, fns),
        },
        Expr::Call { callee, args: _ } => {
            if (match *callee {
                Expr::Ident(n) => n@ == println_name(),
                _ => false,
            }) {
                TypeV::NoneType
            } else {
                match spec_infer(*callee, params, vars, fns) {
                    TypeV::Function(_, r) => *r,
                    _ => TypeV::Integer,
                }
            }
        },
        Expr::Lambda { params: lps, body } => TypeV::Function(param_types(lps@), Box::new(spec_infer(*body, lps@, vars, fns))),
        _ => TypeV::Integer,
    }
}

fn first_param<'a>(ps: &'a Vec<Parameter>, n: &str) -> (r: Option<&'a Type>)
    ensures
        r is Some <==> first_param_type(ps@, n@) is Some,
        r matches Some(t) ==> first_param_type(ps@, n@) == Some(t@),
{
    let mut i: usize = 0;
    assert(ps@.subrange(0, ps@.len() as int) =~= ps@);
    while i < ps.len()
        invariant
            i <= ps@.len(),
            first_param_type(ps@, n@) == first_param_type(ps@.subrange(i as int, ps@.len() as int), n@),
        decreases ps@.len() - i,
    {
        let ghost rest = ps@.subrange(i as int, ps@.len() as int);
        assert(rest[0] == ps@[i as int]);
        assert(rest.drop_first() =~= ps@.subrange(i + 1, ps@.len() as int));
        if str_eq(ps[i].name.as_str(), n) {
            return Some(&ps[i].ty);
        }
        i = i + 1;
    }
    None
}

fn is_println_call(callee: &Expr) -> (r: bool)
    ensures
        r == (match *callee {
            Expr::Ident(n) => n@ == println_name(),
            _ => false,
        }),
{
    match callee {
        Expr::Ident(n) => {
            let p = "println";
            proof {
                reveal_strlit("println");
                assert(p@ =~= println_name());
            }
            str_eq(n.as_str(), p)
        },
        _ => false,
    }
}

/// The type assumed for `e` inside a lambda with parameters `params`, given
/// the variables and functions in scope.
pub fn infer_expr_type(e: &Expr, params: &Vec<Parameter>, vars: &SymbolTable<Type>, fns: &SymbolTable<Type>) -> (r: Type)
    requires
        vars.wf(),
        fns.wf(),
    ensures
        r@ == spec_infer(*e, params@, vars.view(), fns.view()),
    decreases e,
{
    match e {
        Expr::Literal(l) => match l {
            Literal::Integer(_) => Type::Integer,
            Literal::Float(_) => Type::Float,
            Literal::Boolean(_) => Type::Boolean,
            Literal::String(_) => Type::String,
            Literal::Char(_) => Type::Char,
            Literal::NoneValue => Type::NoneType,
        },
        Expr::Ident(n) => {
            match first_param(params, n.as_str()) {
                Some(t) => t.duplicate(),
                None => match vars.get(n.as_str()) {
                    Some(t) => t.duplicate(),
                    None => match fns.get(n.as_str()) {
                        Some(t) => t.duplicate(),
                        None => Type::Integer,
                    },
                },
            }
        },
        Expr::Binary { op, left, right: _ } => match op {
            BinOp::Eq | BinOp::NotEq | BinOp::Lt | BinOp::LtEq | BinOp::Gt | BinOp::GtEq | BinOp::And | BinOp::Or => Type::Boolean,
            _ => infer_expr_type(left, params, vars, fns),
        },
        Expr::Unary { op, expr } => match op {
            UnaryOp::Not => Type::Boolean,
            UnaryOp::Neg => infer_expr_type(expr, params, vars, fns),
        },
        Expr::Call { callee, args: _ } => {
            if is_println_call(callee) {
                Type::NoneType
            } else {
                let t = infer_expr_type(callee, params, vars, fns);
                match t {
                    Type::Function(_, r) => *r,
                    _ => Type::Integer,
                }
            }
        },
        Expr::Lambda { params: lps, body } => {
            let ret = infer_expr_type(body, lps, vars, fns);
            Type::Function(parameter_types(lps), Box::new(ret))
        },
        _ => Type::Integer,
    }
}

/// The type of the object denoted by `e`, when the generator can tell: a
/// variable's declared type, the type of `this`, or the declared type of a
/// field of an object of class type.
pub open spec fn spec_object_type(e: Expr, vars: Map<Seq<char>, TypeV>, classes: Map<Seq<char>, Seq<(Seq<char>, TypeV)>>) -> Option<TypeV>
    decreases e,
{
    match e {
        Expr::Ident(n) => if vars.contains_key(n@) {
            Some(vars[n@])
        } else {
            None
        },
        Expr::This => if vars.contains_key(this_name()) {
            Some(vars[this_name()])
        } else {
            None
        },
        Expr::Field { object, field } => match spec_object_type(*object, vars, classes) {
            Some(TypeV::Named(c)) => if classes.contains_key(c) {
                spec_field_type(classes[c], field@)
            } else {
                None
            },
            _ => None,
        },
        _ => None,
    }
}

/// The name `this` as a string.
pub fn this_string() -> (s: String)
    ensures
        s@ == this_name(),
{
    let t = "this";
    proof {
        reveal_strlit("this");
        assert(t@ =~= this_name());
    }
    String::from_str(t)
}


/// Only a variable, `this`, or a field of one has a known object type.
pub proof fn lemma_typed_objects_are_paths(e: Expr, vars: Map<Seq<char>, TypeV>, classes: Map<Seq<char>, Seq<(Seq<char>, TypeV)>>)
    requires
        spec_object_type(e, vars, classes) is Some,
    ensures
        crate::ast::access_path(e),
    decreases e,
{
    match e {
        Expr::Field { object, field: _ } => {
            lemma_typed_objects_are_paths(*object, vars, classes);
        },
        _ => {},
    }
}

/// The type of the object denoted by `e`, when the generator can tell.
pub fn infer_object_type(e: &Expr, vars: &SymbolTable<Type>, classes: &SymbolTable<ClassInfo>) -> (r: Option<Type>)
    requires
        vars.wf(),
        classes.wf(),
    ensures
        r is Some <==> spec_object_type(*e, vars.view(), classes.view()) is Some,
        r matches Some(t) ==> spec_object_type(*e, vars.view(), classes.view()) == Some(t@),
    decreases e,
{
    match e {
        Expr::Ident(n) => match vars.get(n.as_str()) {
            Some(t) => Some(t.duplicate()),
            None => None,
        },
        Expr::This => {
            let this = this_string();
            match vars.get(this.as_str()) {
                Some(t) => Some(t.duplicate()),
                None => None,
            }
        },
        Expr::Field { object, field } => {
            let obj = infer_object_type(object, vars, classes);
            match obj {
                Some(Type::Named(c)) => match classes.get(c.as_str()) {
                    Some(info) => info.field_type(field.as_str()),
                    None => None,
                },
                _ => None,
            }
        },
        _ => None,
    }
}

/// The class a type refers to, looking through references and smart
/// pointers.
pub open spec fn spec_class_name(t: TypeV) -> Option<Seq<char>>
    decreases t,
{
    match t {
        TypeV::Named(n) => Some(n),
        TypeV::Ref(a) => spec_class_name(*a),
        TypeV::MutRef(a) => spec_class_name(*a),
        TypeV::Box(a) => spec_class_name(*a),
        TypeV::Rc(a) => spec_class_name(*a),
        TypeV::Arc(a) => spec_class_name(*a),
        _ => None,
    }
}

/// The class a type refers to, looking through references and smart
/// pointers.
pub fn type_to_class_name(t: &Type) -> (r: Option<String>)
    ensures
        r is Some <==> spec_class_name(t@) is Some,
        r matches Some(n) ==> spec_class_name(t@) == Some(n@),
    decreases t,
{
    match t {
        Type::Named(n) => Some(n.clone()),
        Type::Ref(a) | Type::MutRef(a) | Type::Box(a) | Type::Rc(a) | Type::Arc(a) => type_to_class_name(a),
        _ => None,
    }
}

/// A comparison or a logical operator always has a boolean type, whatever
/// its operands.
pub proof fn law_predicates_are_boolean(op: BinOp, l: Expr, r: Expr, params: Seq<Parameter>, vars: Map<Seq<char>, TypeV>, fns: Map<Seq<char>, TypeV>)
    requires
        is_predicate_op(op),
    ensures
        spec_infer(Expr::Binary { op, left: Box::new(l), right: Box::new(r) }, params, vars, fns) == TypeV::Boolean,
{
}

/// A lambda's parameters hide variables and functions of the same name.
pub proof fn law_parameters_shadow(n: String, params: Seq<Parameter>, vars: Map<Seq<char>, TypeV>, fns: Map<Seq<char>, TypeV>, t: TypeV)
    requires
        first_param_type(params, n@) == Some(t),
    ensures
        spec_infer(Expr::Ident(n), params, vars, fns) == t,
{
}

/// Wrapping a type in references or smart pointers does not change the class
/// it refers to.
pub proof fn law_class_name_through_indirection(t: TypeV)
    ensures
        spec_class_name(TypeV::Ref(Box::new(t))) == spec_class_name(t),
        spec_class_name(TypeV::MutRef(Box::new(t))) == spec_class_name(t),
        spec_class_name(TypeV::Box(Box::new(t))) == spec_class_name(t),
        spec_class_name(TypeV::Rc(Box::new(t))) == spec_class_name(t),
        spec_class_name(TypeV::Arc(Box::new(t))) == spec_class_name(t),
{
}

} // verus!
