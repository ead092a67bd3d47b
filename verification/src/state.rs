//! The generator's bookkeeping while it walks a program: the symbols it has
//! declared, the function it is emitting, the variables in scope, the
//! enclosing loops, and the counters that make fresh global names.

use vstd::prelude::*;
use crate::ast::{Type, TypeV, FunctionDecl, ClassDecl, Parameter, param_types, parameter_types};
use crate::tables::SymbolTable;
use crate::classes::ClassInfo;
use crate::layout::{
    FnSignature, LlvmType, llvm_views, spec_layout, spec_function_signature, spec_method_signature,
    spec_constructor_signature, function_signature, method_signature, constructor_signature,
    class_struct_layout, is_main, main_name,
};
use crate::text::{qualified_name, spec_qualified, numbered_name, spec_decimal};

verus! {

broadcast use vstd::std_specs::vec::group_vec_axioms;

/// The member name under which a class's constructor is declared.
pub open spec fn new_name() -> Seq<char> {
    seq!['n', 'e', 'w']
}

/// The Apex type of a function with these parameters and result.
pub open spec fn spec_function_type(ps: Seq<Parameter>, ret: TypeV) -> TypeV {
    TypeV::Function(param_types(ps), Box::new(ret))
}

/// The function table after declaring the methods of class `class`.
pub open spec fn methods_declared(m: Map<Seq<char>, TypeV>, class: Seq<char>, methods: Seq<FunctionDecl>) -> Map<Seq<char>, TypeV>
    decreases methods.len(),
{
    if methods.len() == 0 {
        m
    } else {
        methods_declared(m, class, methods.drop_last()).insert(
            spec_qualified(class, methods.last().name@),
            spec_function_type(methods.last().params@, methods.last().return_type@),
        )
    }
}

/// Declaring methods keeps every symbol declared before.
pub proof fn lemma_methods_declared_keeps(m: Map<Seq<char>, TypeV>, class: Seq<char>, methods: Seq<FunctionDecl>, k: Seq<char>)
    requires
        m.contains_key(k),
    ensures
        methods_declared(m, class, methods).contains_key(k),
    decreases methods.len(),
{
    if methods.len() > 0 {
        lemma_methods_declared_keeps(m, class, methods.drop_last(), k);
    }
}

/// Declaring a class keeps every symbol declared before.
pub proof fn lemma_class_declared_keeps(m: Map<Seq<char>, TypeV>, sym: Seq<char>, c: ClassDecl, k: Seq<char>)
    requires
        m.contains_key(k),
    ensures
        class_declared(m, sym, c).contains_key(k),
{
    let base = match c.constructor {
        Some(ctor) => m.insert(spec_qualified(sym, new_name()), spec_function_type(ctor.params@, TypeV::Named(sym))),
        None => m,
    };
    assert(base.contains_key(k));
    lemma_methods_declared_keeps(base, sym, c.methods@, k);
}

/// The function table after declaring class `c` under the symbol `sym`: its
/// constructor `sym__new`, which returns an instance of `sym`, then each
/// method `sym__m`.
pub open spec fn class_declared(m: Map<Seq<char>, TypeV>, sym: Seq<char>, c: ClassDecl) -> Map<Seq<char>, TypeV> {
    methods_declared(
        match c.constructor {
            Some(k) => m.insert(spec_qualified(sym, new_name()), spec_function_type(k.params@, TypeV::Named(sym))),
            None => m,
        },
        sym,
        c.methods@,
    )
}

/// A method as declared: its symbol and its LLVM signature.
pub struct MethodSymbol {
    pub symbol: String,
    pub signature: FnSignature,
}

/// What declaring a class yields: the layout of its instances, the signature
/// of its constructor if it has one, and its methods.
pub struct ClassDeclaration {
    pub fields: Vec<LlvmType>,
    pub constructor: Option<FnSignature>,
    pub methods: Vec<MethodSymbol>,
}

/// The targets of `continue` and `break` inside one loop.
pub struct LoopTargets<B> {
    pub continue_to: B,
    pub break_to: B,
}

/// The loops enclosing the code being emitted, innermost last.
pub struct LoopStack<B> {
    frames: Vec<LoopTargets<B>>,
}

impl<B> LoopStack<B> {
    /// The enclosing loops' targets, outermost first.
    pub closed spec fn view(&self) -> Seq<(B, B)> {
        self.frames@.map_values(|f: LoopTargets<B>| (f.continue_to, f.break_to))
    }

    /// No enclosing loop.
    pub fn new() -> (s: Self)
        ensures
            s.view() == Seq::<(B, B)>::empty(),
    {
        let s = LoopStack { frames: Vec::new() };
        assert(s.view() =~= Seq::<(B, B)>::empty());
        s
    }

    /// Enters a loop.
    pub fn push(&mut self, continue_to: B, break_to: B)
        ensures
            final(self).view() == old(self).view().push((continue_to, break_to)),
    {
        self.frames.push(LoopTargets { continue_to, break_to });
        assert(self.view() =~= old(self).view().push((continue_to, break_to)));
    }

    /// Leaves the innermost loop.
    pub fn pop(&mut self)
        ensures
            old(self).view().len() > 0 ==> final(self).view() == old(self).view().drop_last(),
            old(self).view().len() == 0 ==> final(self).view() == old(self).view(),
    {
        if self.frames.len() > 0 {
            let _ = self.frames.pop();
            assert(self.view() =~= old(self).view().drop_last());
        }
    }

    /// Leaves every loop.
    pub fn clear(&mut self)
        ensures
            final(self).view() == Seq::<(B, B)>::empty(),
    {
        self.frames = Vec::new();
        assert(self.view() =~= Seq::<(B, B)>::empty());
    }

    /// Where `break` jumps: the exit of the innermost loop, if any.
    pub fn break_target(&self) -> (r: Option<&B>)
        ensures
            self.view().len() == 0 ==> r is None,
            self.view().len() > 0 ==> r == Some(&self.view().last().1),
    {
        let n = self.frames.len();
        if n == 0 {
            None
        } else {
            Some(&self.frames[n - 1].break_to)
        }
    }

    /// Where `continue` jumps: the head of the innermost loop, if any.
    pub fn continue_target(&self) -> (r: Option<&B>)
        ensures
            self.view().len() == 0 ==> r is None,
            self.view().len() > 0 ==> r == Some(&self.view().last().0),
    {
        let n = self.frames.len();
        if n == 0 {
            None
        } else {
            Some(&self.frames[n - 1].continue_to)
        }
    }
}

/// The scope that emitting a lambda's body sets aside.
pub struct SavedScope {
    pub variables: SymbolTable<Type>,
    pub current_function: Option<String>,
    pub current_return_type: Option<Type>,
}

/// The generator's bookkeeping.
pub struct CodegenState {
    variables: SymbolTable<Type>,
    functions: SymbolTable<Type>,
    classes: SymbolTable<ClassInfo>,
    current_function: Option<String>,
    current_return_type: Option<Type>,
    str_counter: u32,
    lambda_counter: u32,
}

/// The value of an optional type.
pub open spec fn opt_type_view(t: Option<Type>) -> Option<TypeV> {
    match t {
        Some(x) => Some(x@),
        None => None,
    }
}

/// The value of an optional name.
pub open spec fn opt_name_view(n: Option<String>) -> Option<Seq<char>> {
    match n {
        Some(x) => Some(x@),
        None => None,
    }
}

impl CodegenState {
    /// The tables are well formed.
    pub closed spec fn wf(&self) -> bool {
        self.variables.wf() && self.functions.wf() && self.classes.wf()
    }

    /// The variables in scope and their types.
    pub closed spec fn vars(&self) -> Map<Seq<char>, TypeV> {
        self.variables.view()
    }

    /// The declared functions, methods and constructors, and their types.
    pub closed spec fn fns(&self) -> Map<Seq<char>, TypeV> {
        self.functions.view()
    }

    /// The declared classes.
    pub closed spec fn class_map(&self) -> Map<Seq<char>, Seq<(Seq<char>, TypeV)>> {
        self.classes.view()
    }

    /// The symbol of the function being emitted.
    pub closed spec fn function(&self) -> Option<Seq<char>> {
        opt_name_view(self.current_function)
    }

    /// The declared return type of the function being emitted.
    pub closed spec fn return_type(&self) -> Option<TypeV> {
        opt_type_view(self.current_return_type)
    }

    /// How many string constants have been named.
    pub closed spec fn strings_named(&self) -> nat {
        self.str_counter as nat
    }

    /// How many lambdas have been named.
    pub closed spec fn lambdas_named(&self) -> nat {
        self.lambda_counter as nat
    }

    /// A fresh state: nothing declared, no function being emitted.
    pub fn new() -> (s: Self)
        ensures
            s.wf(),
            s.vars() == Map::<Seq<char>, TypeV>::empty(),
            s.fns() == Map::<Seq<char>, TypeV>::empty(),
            s.class_map() == Map::<Seq<char>, Seq<(Seq<char>, TypeV)>>::empty(),
            s.function() is None,
            s.return_type() is None,
            s.strings_named() == 0,
            s.lambdas_named() == 0,
    {
        CodegenState {
            variables: SymbolTable::new(),
            functions: SymbolTable::new(),
            classes: SymbolTable::new(),
            current_function: None,
            current_return_type: None,
            str_counter: 0,
            lambda_counter: 0,
        }
    }

    /// The variables in scope.
    pub fn variables(&self) -> (r: &SymbolTable<Type>)
        requires
            self.wf(),
        ensures
            r.wf(),
            r.view() == self.vars(),
    {
        &self.variables
    }

    /// The declared functions.
    pub fn functions(&self) -> (r: &SymbolTable<Type>)
        requires
            self.wf(),
        ensures
            r.wf(),
            r.view() == self.fns(),
    {
        &self.functions
    }

    /// The declared classes.
    pub fn classes(&self) -> (r: &SymbolTable<ClassInfo>)
        requires
            self.wf(),
        ensures
            r.wf(),
            r.view() == self.class_map(),
    {
        &self.classes
    }

    /// The declared return type of the function being emitted.
    pub fn current_return_type(&self) -> (r: &Option<Type>)
        ensures
            opt_type_view(*r) == self.return_type(),
    {
        &self.current_return_type
    }

    /// Whether the function being emitted is the entry point.
    pub fn in_main(&self) -> (r: bool)
        ensures
            r == (self.function() == Some(main_name())),
    {
        match &self.current_function {
            Some(n) => is_main(n.as_str()),
            None => false,
        }
    }

    /// Declares a top-level function under the symbol `symbol` and gives its
    /// LLVM signature.
    pub fn declare_function(&mut self, symbol: &str, func: &FunctionDecl) -> (sig: FnSignature)
        requires
            old(self).wf(),
        ensures
            final(self).wf(),
            sig@ == spec_function_signature(symbol@, param_types(func.params@), func.return_type@),
            final(self).fns() == old(self).fns().insert(symbol@, spec_function_type(func.params@, func.return_type@)),
            final(self).vars() == old(self).vars(),
            final(self).class_map() == old(self).class_map(),
            final(self).function() == old(self).function(),
            final(self).return_type() == old(self).return_type(),
            final(self).strings_named() == old(self).strings_named(),
            final(self).lambdas_named() == old(self).lambdas_named(),
    {
        let sig = function_signature(symbol, func);
        let ty = Type::Function(parameter_types(&func.params), Box::new(func.return_type.duplicate()));
        self.functions.insert(String::from_str(symbol), ty);
        sig
    }

    /// Declares class `class` under the symbol `symbol`: its instance layout,
    /// its constructor and its methods.
    pub fn declare_class(&mut self, symbol: &str, class: &ClassDecl) -> (d: ClassDeclaration)
        requires
            old(self).wf(),
        ensures
            final(self).wf(),
            llvm_views(d.fields@) == class.fields@.map_values(|f: crate::ast::Field| spec_layout(f.ty@)),
            d.constructor is Some == class.constructor is Some,
            (d.constructor matches Some(s) ==> s@ == spec_constructor_signature(param_types(class.constructor->0.params@))),
            d.methods@.len() == class.methods@.len(),
            forall|i: int| 0 <= i < d.methods@.len() ==> {
                &&& (#[trigger] d.methods@[i]).symbol@ == spec_qualified(symbol@, class.methods@[i].name@)
                &&& d.methods@[i].signature@ == spec_method_signature(param_types(class.methods@[i].params@), class.methods@[i].return_type@)
            },
            final(self).class_map() == old(self).class_map().insert(symbol@, crate::classes::fields_view(class.fields@)),
            final(self).fns() == class_declared(old(self).fns(), symbol@, *class),
            final(self).vars() == old(self).vars(),
            final(self).function() == old(self).function(),
            final(self).return_type() == old(self).return_type(),
            final(self).strings_named() == old(self).strings_named(),
            final(self).lambdas_named() == old(self).lambdas_named(),
    {
        let fields = class_struct_layout(&class.fields);
        self.classes.insert(String::from_str(symbol), ClassInfo::from_fields(&class.fields));
        let constructor = match &class.constructor {
            Some(k) => {
                let new_lit = "new";
                proof {
                    reveal_strlit("new");
                    assert(new_lit@ =~= new_name());
                }
                let ctor_symbol = qualified_name(symbol, new_lit);
                let ptys = parameter_types(&k.params);
                let cname = String::from_str(symbol);
                let named = Type::Named(cname);
                assert(named@ == TypeV::Named(symbol@));
                let ty = Type::Function(ptys, Box::new(named));
                assert(ctor_symbol@ == spec_qualified(symbol@, new_name()));
                assert(ty@ == spec_function_type(k.params@, TypeV::Named(symbol@)));
                let ghost before = self.functions.view();
                self.functions.insert(ctor_symbol, ty);
                assert(before == old(self).functions.view());
                Some(constructor_signature(k))
            },
            None => None,
        };
        let ghost start = self.functions.view();
        assert(start == match class.constructor {
            Some(k) => old(self).fns().insert(spec_qualified(symbol@, new_name()), spec_function_type(k.params@, TypeV::Named(symbol@))),
            None => old(self).fns(),
        });
        let mut methods: Vec<MethodSymbol> = Vec::new();
        let mut i: usize = 0;
        while i < class.methods.len()
            invariant
                self.wf(),
                i <= class.methods@.len(),
                methods@.len() == i,
                forall|j: int| 0 <= j < i ==> {
                    &&& (#[trigger] methods@[j]).symbol@ == spec_qualified(symbol@, class.methods@[j].name@)
                    &&& methods@[j].signature@ == spec_method_signature(param_types(class.methods@[j].params@), class.methods@[j].return_type@)
                },
                self.functions.view() == methods_declared(start, symbol@, class.methods@.subrange(0, i as int)),
                self.variables == old(self).variables,
                self.classes.view() == old(self).classes.view().insert(symbol@, crate::classes::fields_view(class.fields@)),
                self.current_function == old(self).current_function,
                self.current_return_type == old(self).current_return_type,
                self.str_counter == old(self).str_counter,
                self.lambda_counter == old(self).lambda_counter,
            decreases class.methods@.len() - i,
        {
            let m = &class.methods[i];
            let sym = qualified_name(symbol, m.name.as_str());
            let ty = Type::Function(parameter_types(&m.params), Box::new(m.return_type.duplicate()));
            self.functions.insert(sym.clone(), ty);
            methods.push(MethodSymbol { symbol: sym, signature: method_signature(m) });
            proof {
                let s = class.methods@.subrange(0, i + 1);
                assert(s.drop_last() =~= class.methods@.subrange(0, i as int));
                assert(s.last() == class.methods@[i as int]);
            }
            i = i + 1;
        }
        assert(class.methods@.subrange(0, class.methods@.len() as int) =~= class.methods@);
        ClassDeclaration { fields, constructor, methods }
    }

    /// Starts emitting the body of the function, method or constructor
    /// `symbol`: no variable is in scope yet.
    pub fn begin_body(&mut self, symbol: &str)
        requires
            old(self).wf(),
        ensures
            final(self).wf(),
            final(self).vars() == Map::<Seq<char>, TypeV>::empty(),
            final(self).function() == Some(symbol@),
            final(self).fns() == old(self).fns(),
            final(self).class_map() == old(self).class_map(),
            final(self).return_type() == old(self).return_type(),
            final(self).strings_named() == old(self).strings_named(),
            final(self).lambdas_named() == old(self).lambdas_named(),
    {
        self.current_function = Some(String::from_str(symbol));
        self.variables.clear();
    }

    /// Records the declared return type of the function being emitted.
    pub fn set_return_type(&mut self, ty: &Type)
        requires
            old(self).wf(),
        ensures
            final(self).wf(),
            final(self).return_type() == Some(ty@),
            final(self).vars() == old(self).vars(),
            final(self).function() == old(self).function(),
            final(self).fns() == old(self).fns(),
            final(self).class_map() == old(self).class_map(),
            final(self).strings_named() == old(self).strings_named(),
            final(self).lambdas_named() == old(self).lambdas_named(),
    {
        self.current_return_type = Some(ty.duplicate());
    }

    /// Finishes emitting a body: no function is being emitted.
    pub fn end_body(&mut self)
        requires
            old(self).wf(),
        ensures
            final(self).wf(),
            final(self).function() is None,
            final(self).vars() == old(self).vars(),
            final(self).return_type() == old(self).return_type(),
            final(self).fns() == old(self).fns(),
            final(self).class_map() == old(self).class_map(),
            final(self).strings_named() == old(self).strings_named(),
            final(self).lambdas_named() == old(self).lambdas_named(),
    {
        self.current_function = None;
    }

    /// Brings a variable into scope, hiding any earlier one of that name.
    pub fn bind_variable(&mut self, name: String, ty: Type)
        requires
            old(self).wf(),
        ensures
            final(self).wf(),
            final(self).vars() == old(self).vars().insert(name@, ty@),
            final(self).function() == old(self).function(),
            final(self).return_type() == old(self).return_type(),
            final(self).fns() == old(self).fns(),
            final(self).class_map() == old(self).class_map(),
            final(self).strings_named() == old(self).strings_named(),
            final(self).lambdas_named() == old(self).lambdas_named(),
    {
        self.variables.insert(name, ty);
    }

    /// Takes variable `name` out of scope.
    pub fn unbind_variable(&mut self, name: &str)
        requires
            old(self).wf(),
        ensures
            final(self).wf(),
            final(self).vars() == old(self).vars().remove(name@),
            final(self).function() == old(self).function(),
            final(self).return_type() == old(self).return_type(),
            final(self).fns() == old(self).fns(),
            final(self).class_map() == old(self).class_map(),
            final(self).strings_named() == old(self).strings_named(),
            final(self).lambdas_named() == old(self).lambdas_named(),
    {
        self.variables.remove(name);
    }

    /// Whether another string constant can still be named.
    pub fn can_name_string(&self) -> (r: bool)
        ensures
            r == (self.strings_named() < u32::MAX),
    {
        self.str_counter < u32::MAX
    }

    /// Whether another lambda can still be named.
    pub fn can_name_lambda(&self) -> (r: bool)
        ensures
            r == (self.lambdas_named() < u32::MAX),
    {
        self.lambda_counter < u32::MAX
    }

    /// The symbol of the function being emitted, if any.
    pub fn current_function(&self) -> (r: &Option<String>)
        ensures
            opt_name_view(*r) == self.function(),
    {
        &self.current_function
    }

    /// A fresh name for a global string constant: `prefix` followed by the
    /// number of constants named so far.
    pub fn fresh_global_name(&mut self, prefix: &str) -> (n: String)
        requires
            old(self).wf(),
            old(self).strings_named() < u32::MAX,
        ensures
            final(self).wf(),
            n@ == prefix@ + spec_decimal(old(self).strings_named()),
            final(self).strings_named() == old(self).strings_named() + 1,
            final(self).vars() == old(self).vars(),
            final(self).function() == old(self).function(),
            final(self).return_type() == old(self).return_type(),
            final(self).fns() == old(self).fns(),
            final(self).class_map() == old(self).class_map(),
            final(self).lambdas_named() == old(self).lambdas_named(),
    {
        let n = numbered_name(prefix, self.str_counter as u64);
        self.str_counter = self.str_counter + 1;
        n
    }

    /// Two fresh names for a pair of string constants named together:
    /// `first` and `second`, each followed by the number of constants named
    /// so far, which then grows by one.
    pub fn fresh_global_pair(&mut self, first: &str, second: &str) -> (r: (String, String))
        requires
            old(self).wf(),
            old(self).strings_named() < u32::MAX,
        ensures
            final(self).wf(),
            r.0@ == first@ + spec_decimal(old(self).strings_named()),
            r.1@ == second@ + spec_decimal(old(self).strings_named()),
            final(self).strings_named() == old(self).strings_named() + 1,
            final(self).vars() == old(self).vars(),
            final(self).function() == old(self).function(),
            final(self).return_type() == old(self).return_type(),
            final(self).fns() == old(self).fns(),
            final(self).class_map() == old(self).class_map(),
            final(self).lambdas_named() == old(self).lambdas_named(),
    {
        let a = numbered_name(first, self.str_counter as u64);
        let b = numbered_name(second, self.str_counter as u64);
        self.str_counter = self.str_counter + 1;
        (a, b)
    }

    /// A fresh name for a lambda: `__lambda_` followed by the number of
    /// lambdas named so far.
    pub fn fresh_lambda_name(&mut self) -> (n: String)
        requires
            old(self).wf(),
            old(self).lambdas_named() < u32::MAX,
        ensures
            final(self).wf(),
            n@ == "__lambda_"@ + spec_decimal(old(self).lambdas_named()),
            final(self).lambdas_named() == old(self).lambdas_named() + 1,
            final(self).strings_named() == old(self).strings_named(),
            final(self).vars() == old(self).vars(),
            final(self).function() == old(self).function(),
            final(self).return_type() == old(self).return_type(),
            final(self).fns() == old(self).fns(),
            final(self).class_map() == old(self).class_map(),
    {
        let n = numbered_name("__lambda_", self.lambda_counter as u64);
        self.lambda_counter = self.lambda_counter + 1;
        n
    }

    /// Starts emitting a lambda's body as the function `symbol` returning
    /// `ret`: the enclosing scope is set aside and no variable is in scope.
    pub fn enter_lambda(&mut self, symbol: &str, ret: &Type) -> (saved: SavedScope)
        requires
            old(self).wf(),
        ensures
            final(self).wf(),
            saved.variables.wf(),
            saved.variables.view() == old(self).vars(),
            opt_name_view(saved.current_function) == old(self).function(),
            opt_type_view(saved.current_return_type) == old(self).return_type(),
            final(self).vars() == Map::<Seq<char>, TypeV>::empty(),
            final(self).function() == Some(symbol@),
            final(self).return_type() == Some(ret@),
            final(self).fns() == old(self).fns(),
            final(self).class_map() == old(self).class_map(),
            final(self).strings_named() == old(self).strings_named(),
            final(self).lambdas_named() == old(self).lambdas_named(),
    {
        let mut variables = SymbolTable::new();
        std::mem::swap(&mut variables, &mut self.variables);
        let mut current_function = Some(String::from_str(symbol));
        std::mem::swap(&mut current_function, &mut self.current_function);
        let mut current_return_type = Some(ret.duplicate());
        std::mem::swap(&mut current_return_type, &mut self.current_return_type);
        SavedScope { variables, current_function, current_return_type }
    }

    /// Finishes a lambda's body: the enclosing scope comes back.
    pub fn leave_lambda(&mut self, saved: SavedScope)
        requires
            old(self).wf(),
            saved.variables.wf(),
        ensures
            final(self).wf(),
            final(self).vars() == saved.variables.view(),
            final(self).function() == opt_name_view(saved.current_function),
            final(self).return_type() == opt_type_view(saved.current_return_type),
            final(self).fns() == old(self).fns(),
            final(self).class_map() == old(self).class_map(),
            final(self).strings_named() == old(self).strings_named(),
            final(self).lambdas_named() == old(self).lambdas_named(),
    {
        self.variables = saved.variables;
        self.current_function = saved.current_function;
        self.current_return_type = saved.current_return_type;
    }
}

/// Two string constants named one after the other get distinct names.
pub proof fn law_fresh_names_distinct(prefix: Seq<char>, first: nat, second: nat)
    requires
        second == first + 1,
    ensures
        prefix + spec_decimal(first) != prefix + spec_decimal(second),
{
    crate::text::lemma_numbered_names_distinct(prefix, first, second);
}

} // verus!
