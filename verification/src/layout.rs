//! How Apex values are laid out in LLVM, and the LLVM signatures of the
//! functions, methods, constructors and closures that the generator emits.

use vstd::prelude::*;
use crate::ast::{Type, TypeV, types_view, Parameter, param_types, FunctionDecl, Constructor, Field};
use crate::text::{str_eq, starts_with};

verus! {

broadcast use vstd::std_specs::vec::group_vec_axioms;

/// An LLVM first-class type as the generator uses it.
#[derive(Debug)]
pub enum LlvmType {
    /// `i1`, the boolean.
    I1,
    I8,
    I32,
    I64,
    /// `double`.
    F64,
    /// An opaque pointer.
    Ptr,
    /// A literal (unnamed, unpacked) struct with these fields.
    Struct(Vec<LlvmType>),
}

/// The value of an [`LlvmType`].
pub enum LlvmTypeV {
    I1,
    I8,
    I32,
    I64,
    F64,
    Ptr,
    Struct(Seq<LlvmTypeV>),
}

/// The value of an LLVM type.
pub open spec fn llvm_view(t: LlvmType) -> LlvmTypeV
    decreases t, 1int,
{
    match t {
        LlvmType::I1 => LlvmTypeV::I1,
        LlvmType::I8 => LlvmTypeV::I8,
        LlvmType::I32 => LlvmTypeV::I32,
        LlvmType::I64 => LlvmTypeV::I64,
        LlvmType::F64 => LlvmTypeV::F64,
        LlvmType::Ptr => LlvmTypeV::Ptr,
        LlvmType::Struct(fs) => LlvmTypeV::Struct(llvm_views(fs@)),
    }
}

/// The values of a list of LLVM types.
pub open spec fn llvm_views(s: Seq<LlvmType>) -> Seq<LlvmTypeV>
    decreases s, 0int,
{
    if s.len() == 0 {
        Seq::empty()
    } else {
        llvm_views(s.drop_last()).push(llvm_view(s.last()))
    }
}

impl View for LlvmType {
    type V = LlvmTypeV;

    open spec fn view(&self) -> LlvmTypeV {
        llvm_view(*self)
    }
}

/// The layout of a value of Apex type `t`.
///
/// Scalars map to integers and `double`; strings, class instances, generic
/// values, references and smart pointers are pointers; a closure is
/// `{ fn_ptr, env_ptr }`; `Option<T>` is `{ i8 tag, T }`; `Result<T, E>` is
/// `{ i8 tag, T, E }`; a list or a set is `{ i64 capacity, i64 length, ptr }`;
/// a map is `{ i64 capacity, i64 length, ptr keys, ptr values }`; a task is
/// laid out as its result.
pub open spec fn spec_layout(t: TypeV) -> LlvmTypeV
    decreases t,
{
    match t {
        TypeV::Integer => LlvmTypeV::I64,
        TypeV::Float => LlvmTypeV::F64,
        TypeV::Boolean => LlvmTypeV::I1,
        TypeV::String => LlvmTypeV::Ptr,
        TypeV::Char => LlvmTypeV::I8,
        TypeV::NoneType => LlvmTypeV::I8,
        TypeV::Named(_) => LlvmTypeV::Ptr,
        TypeV::Generic(_, _) => LlvmTypeV::Ptr,
        TypeV::Function(_, _) => LlvmTypeV::Struct(seq![LlvmTypeV::Ptr, LlvmTypeV::Ptr]),
        TypeV::Option(a) => LlvmTypeV::Struct(seq![LlvmTypeV::I8, spec_layout(*a)]),
        TypeV::Result(a, b) => LlvmTypeV::Struct(seq![LlvmTypeV::I8, spec_layout(*a), spec_layout(*b)]),
        TypeV::List(_) => LlvmTypeV::Struct(seq![LlvmTypeV::I64, LlvmTypeV::I64, LlvmTypeV::Ptr]),
        TypeV::MapOf(_, _) => LlvmTypeV::Struct(seq![LlvmTypeV::I64, LlvmTypeV::I64, LlvmTypeV::Ptr, LlvmTypeV::Ptr]),
        TypeV::SetOf(_) => LlvmTypeV::Struct(seq![LlvmTypeV::I64, LlvmTypeV::I64, LlvmTypeV::Ptr]),
        TypeV::Ref(_) => LlvmTypeV::Ptr,
        TypeV::MutRef(_) => LlvmTypeV::Ptr,
        TypeV::Box(_) => LlvmTypeV::Ptr,
        TypeV::Rc(_) => LlvmTypeV::Ptr,
        TypeV::Arc(_) => LlvmTypeV::Ptr,
        TypeV::Task(a) => spec_layout(*a),
    }
}

/// The layouts of a sequence of types.
pub open spec fn spec_layouts(s: Seq<TypeV>) -> Seq<LlvmTypeV> {
    s.map_values(|t: TypeV| spec_layout(t))
}

/// The values of a list of types have the list's length.
pub proof fn lemma_views_len(s: Seq<LlvmType>)
    ensures
        llvm_views(s).len() == s.len(),
    decreases s.len(),
{
    if s.len() > 0 {
        lemma_views_len(s.drop_last());
    }
}

/// The value of element `i` of a list of types is element `i` of its values.
pub proof fn lemma_views_index(s: Seq<LlvmType>, i: int)
    requires
        0 <= i < s.len(),
    ensures
        llvm_views(s)[i] == s[i]@,
    decreases s.len(),
{
    lemma_views_len(s.drop_last());
    if i < s.len() - 1 {
        lemma_views_index(s.drop_last(), i);
    }
}

/// Lists of types with pointwise equal values have equal values.
pub proof fn lemma_views_pointwise(a: Seq<LlvmType>, b: Seq<LlvmType>)
    requires
        a.len() == b.len(),
        forall|j: int| 0 <= j < a.len() ==> (#[trigger] a[j])@ == b[j]@,
    ensures
        llvm_views(a) == llvm_views(b),
{
    lemma_views_len(a);
    lemma_views_len(b);
    assert forall|j: int| 0 <= j < a.len() implies llvm_views(a)[j] == llvm_views(b)[j] by {
        lemma_views_index(a, j);
        lemma_views_index(b, j);
    }
    assert(llvm_views(a) =~= llvm_views(b));
}

proof fn lemma_views_len1(a: LlvmType)
    ensures
        llvm_views(seq![a]) == seq![a@],
{
    let s = seq![a];
    let e = Seq::<LlvmType>::empty();
    assert(s.drop_last() =~= e);
    assert(llvm_views(e) == Seq::<LlvmTypeV>::empty());
    assert(s.last() == a);
    assert(llvm_views(s) == llvm_views(e).push(llvm_view(a)));
    assert(llvm_views(s) =~= seq![a@]);
}

proof fn lemma_views_len2(a: LlvmType, b: LlvmType)
    ensures
        llvm_views(seq![a, b]) == seq![a@, b@],
{
    let s = seq![a, b];
    assert(s.drop_last() =~= seq![a]);
    assert(s.last() == b);
    lemma_views_len1(a);
    assert(llvm_views(s) =~= seq![a@, b@]);
}

proof fn lemma_views_len3(a: LlvmType, b: LlvmType, c: LlvmType)
    ensures
        llvm_views(seq![a, b, c]) == seq![a@, b@, c@],
{
    let s = seq![a, b, c];
    assert(s.drop_last() =~= seq![a, b]);
    assert(s.last() == c);
    lemma_views_len2(a, b);
    assert(llvm_views(s) =~= seq![a@, b@, c@]);
}

proof fn lemma_views_len4(a: LlvmType, b: LlvmType, c: LlvmType, d: LlvmType)
    ensures
        llvm_views(seq![a, b, c, d]) == seq![a@, b@, c@, d@],
{
    let s = seq![a, b, c, d];
    assert(s.drop_last() =~= seq![a, b, c]);
    assert(s.last() == d);
    lemma_views_len3(a, b, c);
    assert(llvm_views(s) =~= seq![a@, b@, c@, d@]);
}

/// The LLVM layout of a value of type `ty`.
pub fn llvm_type(ty: &Type) -> (r: LlvmType)
    ensures
        r@ == spec_layout(ty@),
    decreases ty,
{
    match ty {
        Type::Integer => LlvmType::I64,
        Type::Float => LlvmType::F64,
        Type::Boolean => LlvmType::I1,
        Type::String => LlvmType::Ptr,
        Type::Char => LlvmType::I8,
        Type::NoneType => LlvmType::I8,
        Type::Named(_) => LlvmType::Ptr,
        Type::Generic(_, _) => LlvmType::Ptr,
        Type::Function(_, _) => {
            proof {
                lemma_views_len2(LlvmType::Ptr, LlvmType::Ptr);
            }
            LlvmType::Struct(vec![LlvmType::Ptr, LlvmType::Ptr])
        },
        Type::Option(a) => {
            let inner = llvm_type(a);
            proof {
                lemma_views_len2(LlvmType::I8, inner);
            }
            LlvmType::Struct(vec![LlvmType::I8, inner])
        },
        Type::Result(a, b) => {
            let ok = llvm_type(a);
            let err = llvm_type(b);
            proof {
                lemma_views_len3(LlvmType::I8, ok, err);
            }
            LlvmType::Struct(vec![LlvmType::I8, ok, err])
        },
        Type::List(_) | Type::SetOf(_) => {
            proof {
                lemma_views_len3(LlvmType::I64, LlvmType::I64, LlvmType::Ptr);
            }
            LlvmType::Struct(vec![LlvmType::I64, LlvmType::I64, LlvmType::Ptr])
        },
        Type::MapOf(_, _) => {
            proof {
                lemma_views_len4(LlvmType::I64, LlvmType::I64, LlvmType::Ptr, LlvmType::Ptr);
            }
            LlvmType::Struct(vec![LlvmType::I64, LlvmType::I64, LlvmType::Ptr, LlvmType::Ptr])
        },
        Type::Ref(_) | Type::MutRef(_) | Type::Box(_) | Type::Rc(_) | Type::Arc(_) => LlvmType::Ptr,
        Type::Task(a) => llvm_type(a),
    }
}

/// The layouts of a list of parameters, in order, appended to `out`.
fn push_param_layouts(out: &mut Vec<LlvmType>, ps: &Vec<Parameter>)
    ensures
        llvm_views(final(out)@) == llvm_views(old(out)@) + spec_layouts(param_types(ps@)),
{
    let ghost start = out@;
    let mut i: usize = 0;
    while i < ps.len()
        invariant
            i <= ps@.len(),
            llvm_views(out@) == llvm_views(start) + spec_layouts(param_types(ps@.subrange(0, i as int))),
        decreases ps@.len() - i,
    {
        let t = llvm_type(&ps[i].ty);
        let ghost o0 = out@;
        out.push(t);
        proof {
            assert(out@.drop_last() =~= o0);
            assert(spec_layouts(param_types(ps@.subrange(0, i + 1))) =~= spec_layouts(param_types(ps@.subrange(0, i as int))).push(spec_layout(ps@[i as int].ty@)));
            assert(llvm_views(out@) =~= llvm_views(start) + spec_layouts(param_types(ps@.subrange(0, i + 1))));
        }
        i = i + 1;
    }
    assert(ps@.subrange(0, ps@.len() as int) =~= ps@);
}

/// The layouts of a list of types, in order, appended to `out`.
fn push_type_layouts(out: &mut Vec<LlvmType>, ts: &Vec<Type>)
    ensures
        llvm_views(final(out)@) == llvm_views(old(out)@) + spec_layouts(types_view(ts@)),
{
    let ghost start = out@;
    let mut i: usize = 0;
    while i < ts.len()
        invariant
            i <= ts@.len(),
            llvm_views(out@) == llvm_views(start) + spec_layouts(types_view(ts@.subrange(0, i as int))),
        decreases ts@.len() - i,
    {
        let t = llvm_type(&ts[i]);
        let ghost o0 = out@;
        out.push(t);
        proof {
            assert(out@.drop_last() =~= o0);
            assert(ts@.subrange(0, i + 1).drop_last() =~= ts@.subrange(0, i as int));
            assert(spec_layouts(types_view(ts@.subrange(0, i + 1))) =~= spec_layouts(types_view(ts@.subrange(0, i as int))).push(spec_layout(ts@[i as int]@)));
            assert(llvm_views(out@) =~= llvm_views(start) + spec_layouts(types_view(ts@.subrange(0, i + 1))));
        }
        i = i + 1;
    }
    assert(ts@.subrange(0, ts@.len() as int) =~= ts@);
}

/// What a function returns: nothing (`void`) or a value of some layout.
pub enum ReturnLayout {
    Void,
    Value(LlvmType),
}

/// The LLVM signature of an emitted function.
pub struct FnSignature {
    pub params: Vec<LlvmType>,
    pub ret: ReturnLayout,
    pub variadic: bool,
}

/// The value of a signature: the parameter layouts, the result layout
/// (`None` for `void`) and whether it takes further arguments.
pub struct SignatureV {
    pub params: Seq<LlvmTypeV>,
    pub ret: Option<LlvmTypeV>,
    pub variadic: bool,
}

impl View for FnSignature {
    type V = SignatureV;

    open spec fn view(&self) -> SignatureV {
        SignatureV {
            params: llvm_views(self.params@),
            ret: match self.ret {
                ReturnLayout::Void => None,
                ReturnLayout::Value(t) => Some(t@),
            },
            variadic: self.variadic,
        }
    }
}

/// The name of the program's entry point.
pub open spec fn main_name() -> Seq<char> {
    seq!['m', 'a', 'i', 'n']
}

/// The result layout of a function that returns `ret`: `None` returns nothing.
pub open spec fn spec_return_layout(ret: TypeV) -> Option<LlvmTypeV> {
    if ret == TypeV::NoneType {
        None
    } else {
        Some(spec_layout(ret))
    }
}

/// The signature of a top-level function: `main` takes `(i32 argc, ptr argv)`
/// and returns `i32`; any other function takes an environment pointer and then
/// its parameters, and returns nothing when its return type is `None`.
pub open spec fn spec_function_signature(name: Seq<char>, params: Seq<TypeV>, ret: TypeV) -> SignatureV {
    if name == main_name() {
        SignatureV { params: seq![LlvmTypeV::I32, LlvmTypeV::Ptr], ret: Some(LlvmTypeV::I32), variadic: false }
    } else {
        SignatureV {
            params: seq![LlvmTypeV::Ptr] + spec_layouts(params),
            ret: spec_return_layout(ret),
            variadic: false,
        }
    }
}

/// The signature of a method: an environment pointer, the receiver, then the
/// parameters.
pub open spec fn spec_method_signature(params: Seq<TypeV>, ret: TypeV) -> SignatureV {
    SignatureV {
        params: seq![LlvmTypeV::Ptr, LlvmTypeV::Ptr] + spec_layouts(params),
        ret: spec_return_layout(ret),
        variadic: false,
    }
}

/// The signature of a constructor: an environment pointer, then the
/// parameters; it returns a pointer to the new instance.
pub open spec fn spec_constructor_signature(params: Seq<TypeV>) -> SignatureV {
    SignatureV { params: seq![LlvmTypeV::Ptr] + spec_layouts(params), ret: Some(LlvmTypeV::Ptr), variadic: false }
}

/// The signature through which a closure is called: an environment pointer,
/// then the parameters; it always returns a value.
pub open spec fn spec_closure_signature(params: Seq<TypeV>, ret: TypeV) -> SignatureV {
    SignatureV { params: seq![LlvmTypeV::Ptr] + spec_layouts(params), ret: Some(spec_layout(ret)), variadic: false }
}

/// Whether `t` is the `None` type.
pub fn is_none_type(t: &Type) -> (r: bool)
    ensures
        r == (t@ == TypeV::NoneType),
{
    match t {
        Type::NoneType => true,
        _ => false,
    }
}

fn return_layout(ret: &Type) -> (r: ReturnLayout)
    ensures
        (match r {
            ReturnLayout::Void => None,
            ReturnLayout::Value(t) => Some(t@),
        }) == spec_return_layout(ret@),
{
    if is_none_type(ret) {
        ReturnLayout::Void
    } else {
        ReturnLayout::Value(llvm_type(ret))
    }
}

/// Whether `name` is the program's entry point.
pub fn is_main(name: &str) -> (r: bool)
    ensures
        r == (name@ == main_name()),
{
    let m = "main";
    proof {
        reveal_strlit("main");
        assert(m@ =~= main_name());
    }
    str_eq(name, m)
}

/// The LLVM signature of a top-level function emitted under the symbol
/// `name` (a module member is emitted under its qualified name).
pub fn function_signature(name: &str, func: &FunctionDecl) -> (s: FnSignature)
    ensures
        s@ == spec_function_signature(name@, param_types(func.params@), func.return_type@),
{
    if is_main(name) {
        proof {
            lemma_views_len2(LlvmType::I32, LlvmType::Ptr);
        }
        FnSignature { params: vec![LlvmType::I32, LlvmType::Ptr], ret: ReturnLayout::Value(LlvmType::I32), variadic: false }
    } else {
        let mut params = vec![LlvmType::Ptr];
        proof {
            assert(params@ =~= seq![LlvmType::Ptr]);
            lemma_views_len1(LlvmType::Ptr);
        }
        push_param_layouts(&mut params, &func.params);
        FnSignature { params, ret: return_layout(&func.return_type), variadic: false }
    }
}

/// The LLVM signature of a method.
pub fn method_signature(method: &FunctionDecl) -> (s: FnSignature)
    ensures
        s@ == spec_method_signature(param_types(method.params@), method.return_type@),
{
    let mut params = vec![LlvmType::Ptr, LlvmType::Ptr];
    proof {
        assert(params@ =~= seq![LlvmType::Ptr, LlvmType::Ptr]);
        lemma_views_len2(LlvmType::Ptr, LlvmType::Ptr);
    }
    push_param_layouts(&mut params, &method.params);
    FnSignature { params, ret: return_layout(&method.return_type), variadic: false }
}

/// The LLVM signature of a constructor.
pub fn constructor_signature(ctor: &Constructor) -> (s: FnSignature)
    ensures
        s@ == spec_constructor_signature(param_types(ctor.params@)),
{
    let mut params = vec![LlvmType::Ptr];
    proof {
        assert(params@ =~= seq![LlvmType::Ptr]);
        lemma_views_len1(LlvmType::Ptr);
    }
    push_param_layouts(&mut params, &ctor.params);
    FnSignature { params, ret: ReturnLayout::Value(LlvmType::Ptr), variadic: false }
}

/// The LLVM signature through which a closure of type
/// `Function(params, ret)` is called.
pub fn closure_signature(params: &Vec<Type>, ret: &Type) -> (s: FnSignature)
    ensures
        s@ == spec_closure_signature(types_view(params@), ret@),
{
    let mut ps = vec![LlvmType::Ptr];
    proof {
        assert(ps@ =~= seq![LlvmType::Ptr]);
        lemma_views_len1(LlvmType::Ptr);
    }
    push_type_layouts(&mut ps, params);
    FnSignature { params: ps, ret: ReturnLayout::Value(llvm_type(ret)), variadic: false }
}

/// The LLVM signature of a lambda with these parameters whose body has type
/// `ret`.
pub fn lambda_signature(params: &Vec<Parameter>, ret: &Type) -> (s: FnSignature)
    ensures
        s@ == spec_closure_signature(param_types(params@), ret@),
{
    let mut ps = vec![LlvmType::Ptr];
    proof {
        assert(ps@ =~= seq![LlvmType::Ptr]);
        lemma_views_len1(LlvmType::Ptr);
    }
    push_param_layouts(&mut ps, params);
    FnSignature { params: ps, ret: ReturnLayout::Value(llvm_type(ret)), variadic: false }
}

/// Whether a function is marked `alwaysinline`: it has at most three
/// parameters and its name does not begin with `main`.
pub open spec fn spec_always_inline(name: Seq<char>, n_params: nat) -> bool {
    n_params <= 3 && !(main_name().len() <= name.len() && name.subrange(0, main_name().len() as int) == main_name())
}

/// Whether the generator marks a function emitted under the symbol `name`
/// `alwaysinline`.
pub fn always_inline(name: &str, func: &FunctionDecl) -> (r: bool)
    ensures
        r == spec_always_inline(name@, func.params@.len()),
{
    let m = "main";
    proof {
        reveal_strlit("main");
        assert(m@ =~= main_name());
    }
    func.params.len() <= 3 && !starts_with(name, m)
}

/// The layout of a class instance: its fields' layouts in declaration order.
pub fn class_struct_layout(fields: &Vec<Field>) -> (r: Vec<LlvmType>)
    ensures
        llvm_views(r@) == fields@.map_values(|f: Field| spec_layout(f.ty@)),
{
    let mut r: Vec<LlvmType> = Vec::new();
    let mut i: usize = 0;
    while i < fields.len()
        invariant
            i <= fields@.len(),
            llvm_views(r@) == fields@.subrange(0, i as int).map_values(|f: Field| spec_layout(f.ty@)),
        decreases fields@.len() - i,
    {
        let t = llvm_type(&fields[i].ty);
        let ghost r0 = r@;
        r.push(t);
        proof {
            assert(r@.drop_last() =~= r0);
            assert(fields@.subrange(0, i + 1).map_values(|f: Field| spec_layout(f.ty@)) =~= fields@.subrange(0, i as int).map_values(|f: Field| spec_layout(f.ty@)).push(spec_layout(fields@[i as int].ty@)));
        }
        i = i + 1;
    }
    assert(fields@.subrange(0, fields@.len() as int) =~= fields@);
    r
}

/// A task is laid out exactly as the value it yields.
pub proof fn law_task_layout_is_result_layout(t: TypeV)
    ensures
        spec_layout(TypeV::Task(Box::new(t))) == spec_layout(t),
{
}

/// References and smart pointers are all laid out as a single pointer,
/// whatever they point to.
pub proof fn law_indirections_are_pointers(t: TypeV)
    ensures
        spec_layout(TypeV::Ref(Box::new(t))) == LlvmTypeV::Ptr,
        spec_layout(TypeV::MutRef(Box::new(t))) == LlvmTypeV::Ptr,
        spec_layout(TypeV::Box(Box::new(t))) == LlvmTypeV::Ptr,
        spec_layout(TypeV::Rc(Box::new(t))) == LlvmTypeV::Ptr,
        spec_layout(TypeV::Arc(Box::new(t))) == LlvmTypeV::Ptr,
{
}

/// An optional value and a result both begin with an `i8` tag followed by
/// the payload's layout.
pub proof fn law_tagged_layouts(t: TypeV, e: TypeV)
    ensures
        spec_layout(TypeV::Option(Box::new(t))) matches LlvmTypeV::Struct(fs) && fs.len() == 2 && fs[0] == LlvmTypeV::I8 && fs[1] == spec_layout(t),
        spec_layout(TypeV::Result(Box::new(t), Box::new(e))) matches LlvmTypeV::Struct(fs) && fs.len() == 3 && fs[0] == LlvmTypeV::I8 && fs[1] == spec_layout(t) && fs[2] == spec_layout(e),
{
}

/// Every function other than `main` receives an environment pointer first;
/// methods receive the instance right after it.
pub proof fn law_environment_pointer_first(name: Seq<char>, params: Seq<TypeV>, ret: TypeV)
    ensures
        name != main_name() ==> spec_function_signature(name, params, ret).params[0] == LlvmTypeV::Ptr
            && spec_function_signature(name, params, ret).params.len() == params.len() + 1,
        spec_method_signature(params, ret).params.len() == params.len() + 2,
        spec_method_signature(params, ret).params[0] == LlvmTypeV::Ptr,
        spec_method_signature(params, ret).params[1] == LlvmTypeV::Ptr,
        spec_constructor_signature(params).params[0] == LlvmTypeV::Ptr,
        spec_closure_signature(params, ret).params[0] == LlvmTypeV::Ptr,
{
}

} // verus!
