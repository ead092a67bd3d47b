//! The code generator: it walks a program and records, in an instruction
//! log, the LLVM module that implements it.
//!
//! Declarations come first (every function and class of the program, in
//! order), then bodies. Statements, expressions, calls, built-in types, the
//! standard library and lambdas are lowered by the methods in the sibling
//! modules.

use vstd::prelude::*;
use crate::ast::{Type, TypeV, Program, Decl, FunctionDecl, ClassDecl, Constructor, Parameter};
use crate::error::CodegenError;
use crate::state::{CodegenState, LoopStack};
use crate::tables::SymbolTable;
use crate::layout::{LlvmType, FnSignature, always_inline, is_main, class_struct_layout, llvm_type};
use crate::lowering::{FallOffPlan, plan_fall_off};
use crate::externs::{LibcFn, libc_name, libc_signature, math_signature};
use crate::ir::{InstrLog, FnAttribute, GlobalInit, CastOp};
use crate::program::{plan_program, UnitKind, CodeUnit, spec_units, units_view, unit_target};
use crate::text::{qualified_name, str_eq};

verus! {

broadcast use vstd::std_specs::vec::group_vec_axioms;

/// The operating system the generated program is built for.
#[derive(Clone, Copy, PartialEq, Eq, Structural, Debug)]
pub enum HostOs {
    Windows,
    MacOs,
    Linux,
    Other,
}

/// The code generator.
pub struct Codegen {
    /// Declared symbols, the variables in scope, the function being emitted.
    pub state: CodegenState,
    /// The emitted module, op by op.
    pub log: InstrLog,
    /// The name of the module.
    pub module_name: String,
    /// The system the program is built for.
    pub host: HostOs,
    /// The stack slot of each variable in scope.
    pub var_slots: SymbolTable<usize>,
    /// The LLVM function of each declared function, method and constructor.
    pub fn_slots: SymbolTable<usize>,
    /// The functions of the module by name (the first one added under a name).
    pub module_fns: SymbolTable<usize>,
    /// The globals of the module by name (the first one added under a name).
    pub module_globals: SymbolTable<usize>,
    /// The blocks that `continue` and `break` jump to in the enclosing loops.
    pub loops: LoopStack<usize>,
    /// The LLVM function being emitted.
    pub current_fn: Option<usize>,
}

/// Value `p` of `log` is the address of field `index` of the struct at
/// `base`: `getelementptr base, i32 0, i32 index`.
pub open spec fn addresses_field(log: InstrLog, p: usize, base: usize, index: u64) -> bool {
    &&& p < log.ops_view().len()
    &&& log.ops_view()[p as int] matches crate::ir::Op::Gep { ty: _, ptr: b, indices: ix, name: _ } && b == base && ix@.len() == 2
        && ix@[0] < p && ix@[1] < p
        && log.ops_view()[ix@[0] as int] == (crate::ir::Op::ConstInt { ty: LlvmType::I32, value: 0, signed: false })
        && log.ops_view()[ix@[1] as int] == (crate::ir::Op::ConstInt { ty: LlvmType::I32, value: index, signed: false })
}

/// Value `v` of `log` loads field `index` of the struct at `base`.
pub open spec fn reads_field(log: InstrLog, v: usize, base: usize, index: u64) -> bool {
    &&& v < log.ops_view().len()
    &&& log.ops_view()[v as int] matches crate::ir::Op::Load { ty: _, ptr: p, name: _ } && p < v && addresses_field(log, p, base, index)
}

/// Appending to the log keeps which field an address selects.
pub proof fn lemma_addresses_field_kept(a: InstrLog, b: InstrLog, p: usize, base: usize, index: u64)
    requires
        addresses_field(a, p, base, index),
        crate::stmts::prefix_of(a.ops_view(), b.ops_view()),
    ensures
        addresses_field(b, p, base, index),
{
    let ix = a.ops_view()[p as int]->Gep_indices;
    assert(b.ops_view()[p as int] == a.ops_view()[p as int]);
    assert(b.ops_view()[ix@[0] as int] == a.ops_view()[ix@[0] as int]);
    assert(b.ops_view()[ix@[1] as int] == a.ops_view()[ix@[1] as int]);
}

/// Appending to the log keeps what its values read.
pub proof fn lemma_reads_field_kept(a: InstrLog, b: InstrLog, v: usize, base: usize, index: u64)
    requires
        reads_field(a, v, base, index),
        crate::stmts::prefix_of(a.ops_view(), b.ops_view()),
    ensures
        reads_field(b, v, base, index),
{
    let p = a.ops_view()[v as int]->Load_ptr;
    let ix = a.ops_view()[p as int]->Gep_indices;
    assert(b.ops_view()[v as int] == a.ops_view()[v as int]);
    assert(b.ops_view()[p as int] == a.ops_view()[p as int]);
    assert(b.ops_view()[ix@[0] as int] == a.ops_view()[ix@[0] as int]);
    assert(b.ops_view()[ix@[1] as int] == a.ops_view()[ix@[1] as int]);
}

/// Value `v` of `log` tests whether the tag (field 0) of the struct at
/// `base` is 0.
pub open spec fn tests_tag_zero(log: InstrLog, v: usize, base: usize) -> bool {
    log.ops_view()[v as int] matches crate::ir::Op::IntCompare { pred: p, lhs: t, rhs: z, name: _ }
        && p == crate::lowering::IntPredicate::Eq
        && reads_field(log, t, base, 0)
        && log.ops_view()[z as int] == (crate::ir::Op::ConstInt { ty: LlvmType::I8, value: 0, signed: false })
}

/// Op `i` of `log` stores a value recorded before it into field `index` of
/// the struct at `base`.
pub open spec fn stores_field(log: InstrLog, i: int, base: usize, index: u64) -> bool {
    &&& 0 <= i < log.ops_view().len()
    &&& log.ops_view()[i] matches crate::ir::Op::Store { ptr: p, value: x } && p < i && x < i && addresses_field(log, p, base, index)
}

/// The value op `i` of `log` stores.
pub open spec fn stored_value(log: InstrLog, i: int) -> crate::ir::Op {
    log.ops_view()[log.ops_view()[i]->Store_value as int]
}

/// Appending to the log keeps what its stores store and where.
pub proof fn lemma_stores_field_kept(a: InstrLog, b: InstrLog, i: int, base: usize, index: u64)
    requires
        stores_field(a, i, base, index),
        crate::stmts::prefix_of(a.ops_view(), b.ops_view()),
    ensures
        stores_field(b, i, base, index),
        stored_value(b, i) == stored_value(a, i),
{
    let p = a.ops_view()[i]->Store_ptr;
    let x = a.ops_view()[i]->Store_value;
    let ix = a.ops_view()[p as int]->Gep_indices;
    assert(b.ops_view()[i] == a.ops_view()[i]);
    assert(b.ops_view()[p as int] == a.ops_view()[p as int]);
    assert(b.ops_view()[x as int] == a.ops_view()[x as int]);
    assert(b.ops_view()[ix@[0] as int] == a.ops_view()[ix@[0] as int]);
    assert(b.ops_view()[ix@[1] as int] == a.ops_view()[ix@[1] as int]);
}

/// Value `g` of `log` is the global variable named `name`.
pub open spec fn holds_global(log: InstrLog, g: usize, name: Seq<char>) -> bool {
    &&& g < log.ops_view().len()
    &&& log.ops_view()[g as int] matches crate::ir::Op::Global { name: n, init: _, constant: _ } && n@ == name
}

/// Value `v` of `log` is the address of a global, added before it, that
/// holds the characters `text`.
pub open spec fn names_text(log: InstrLog, v: usize, text: Seq<char>) -> bool {
    &&& v < log.ops_view().len()
    &&& log.ops_view()[v as int] matches crate::ir::Op::GlobalAddress { global: g } && g < v
        && (log.ops_view()[g as int] matches crate::ir::Op::Global { name: _, init: i, constant: _ }
            && (i matches GlobalInit::Text(t) && t@ == text))
}

/// Appending to the log keeps the text a value names.
pub proof fn lemma_names_text_kept(a: InstrLog, b: InstrLog, v: usize, text: Seq<char>)
    requires
        names_text(a, v, text),
        crate::stmts::prefix_of(a.ops_view(), b.ops_view()),
    ensures
        names_text(b, v, text),
{
    let g = a.ops_view()[v as int]->GlobalAddress_global;
    assert(b.ops_view()[v as int] == a.ops_view()[v as int]);
    assert(b.ops_view()[g as int] == a.ops_view()[g as int]);
}

/// Value `f` of `log` declares the function named `name`.
pub open spec fn declares(log: InstrLog, f: usize, name: Seq<char>) -> bool {
    &&& f < log.ops_view().len()
    &&& log.ops_view()[f as int] matches crate::ir::Op::DeclareFunction { name: n, signature: _ } && n@ == name
}

/// An error with this message.
pub fn error(message: &str) -> (e: CodegenError)
    ensures
        e.message@ == message@,
{
    CodegenError::new(String::from_str(message))
}

impl Codegen {
    /// The generator's tables are well formed.
    pub open spec fn wf(&self) -> bool {
        &&& self.state.wf()
        &&& self.log.wf()
        &&& self.var_slots.wf()
        &&& self.fn_slots.wf()
        &&& self.module_fns.wf()
        &&& self.module_globals.wf()
        &&& forall|k: Seq<char>| self.var_slots@.contains_key(k) ==> #[trigger] self.var_slots@[k] < self.log.ops_view().len()
        &&& forall|k: Seq<char>| #[trigger] self.module_fns@.contains_key(k) ==> declares(self.log, self.module_fns@[k], k)
        &&& forall|k: Seq<char>| #[trigger] self.module_globals@.contains_key(k) ==> holds_global(self.log, self.module_globals@[k], k)
    }

    /// A generator for a new, empty module named `name`, built for `host`.
    pub fn new(name: &str, host: HostOs) -> (c: Self)
        ensures
            c.wf(),
            c.module_name@ == name@,
            c.host == host,
            c.log.ops_view() == Seq::<crate::ir::Op>::empty(),
            c.state.vars() == Map::<Seq<char>, TypeV>::empty(),
            c.state.fns() == Map::<Seq<char>, TypeV>::empty(),
            c.state.class_map() == Map::<Seq<char>, Seq<(Seq<char>, TypeV)>>::empty(),
            c.state.function() is None,
            c.state.strings_named() == 0,
            c.state.lambdas_named() == 0,
            c.current_fn is None,
            c.log.flags() == Map::<usize, bool>::empty(),
            !c.log.open_block(),
    {
        Codegen {
            state: CodegenState::new(),
            log: InstrLog::new(),
            module_name: String::from_str(name),
            host,
            var_slots: SymbolTable::new(),
            fn_slots: SymbolTable::new(),
            module_fns: SymbolTable::new(),
            module_globals: SymbolTable::new(),
            loops: LoopStack::new(),
            current_fn: None,
        }
    }

    /// Whether the program is built for Windows.
    pub fn windows(&self) -> (r: bool)
        ensures
            r == (self.host == HostOs::Windows),
    {
        self.host == HostOs::Windows
    }

    /// Adds a function to the module; `module.get_function` finds the first
    /// function added under a name.
    pub fn add_function(&mut self, name: &str, signature: FnSignature) -> (f: usize)
        requires
            old(self).wf(),
        ensures
            final(self).log.position() == old(self).log.position(),
            final(self).log.flags() == old(self).log.flags(),
            crate::ir::keeps_settled(old(self).log, final(self).log),
            final(self).wf(),
            final(self).state == old(self).state,
            final(self).var_slots == old(self).var_slots,
            final(self).fn_slots == old(self).fn_slots,
            final(self).current_fn == old(self).current_fn,
            crate::stmts::prefix_of(old(self).log.ops_view(), final(self).log.ops_view()),
            f == old(self).log.ops_view().len(),
            final(self).log.ops_view().len() == f + 1,
            final(self).log.ops_view()[f as int] matches crate::ir::Op::DeclareFunction { name: n, signature: s } && n@ == name@ && s == signature,
            declares(final(self).log, f, name@),
    {
        let f = self.log.declare_function(String::from_str(name), signature);
        if !self.module_fns.contains(name) {
            self.module_fns.insert(String::from_str(name), f);
        }
        f
    }

    /// The C library function `f`, declared on first use.
    pub fn libc(&mut self, f: LibcFn) -> (id: usize)
        requires
            old(self).wf(),
        ensures
            final(self).log.position() == old(self).log.position(),
            final(self).log.flags() == old(self).log.flags(),
            crate::ir::keeps_settled(old(self).log, final(self).log),
            final(self).wf(),
            final(self).state == old(self).state,
            final(self).var_slots == old(self).var_slots,
            final(self).fn_slots == old(self).fn_slots,
            final(self).current_fn == old(self).current_fn,
            crate::stmts::prefix_of(old(self).log.ops_view(), final(self).log.ops_view()),
            declares(final(self).log, id, crate::externs::spec_libc_name(f, old(self).host == HostOs::Windows)),
    {
        let name = libc_name(f, self.windows());
        match self.module_fns.get(name) {
            Some(id) => *id,
            None => self.add_function(name, libc_signature(f)),
        }
    }

    /// The C math function `name` taking one (`single_arg`) or two
    /// `double`s, declared on first use.
    pub fn math_function(&mut self, name: &str, single_arg: bool) -> (id: usize)
        requires
            old(self).wf(),
        ensures
            final(self).log.position() == old(self).log.position(),
            final(self).log.flags() == old(self).log.flags(),
            crate::ir::keeps_settled(old(self).log, final(self).log),
            final(self).wf(),
            final(self).state == old(self).state,
            final(self).var_slots == old(self).var_slots,
            final(self).fn_slots == old(self).fn_slots,
            final(self).current_fn == old(self).current_fn,
            crate::stmts::prefix_of(old(self).log.ops_view(), final(self).log.ops_view()),
            declares(final(self).log, id, name@),
    {
        match self.module_fns.get(name) {
            Some(id) => *id,
            None => self.add_function(name, math_signature(!single_arg)),
        }
    }

    /// Adds a global variable; `module.get_global` finds the first global
    /// added under a name.
    pub fn add_global(&mut self, name: &str, init: GlobalInit, constant: bool) -> (g: usize)
        requires
            old(self).wf(),
        ensures
            final(self).log.position() == old(self).log.position(),
            final(self).log.flags() == old(self).log.flags(),
            crate::ir::keeps_settled(old(self).log, final(self).log),
            final(self).wf(),
            final(self).state == old(self).state,
            final(self).var_slots == old(self).var_slots,
            final(self).fn_slots == old(self).fn_slots,
            final(self).current_fn == old(self).current_fn,
            crate::stmts::prefix_of(old(self).log.ops_view(), final(self).log.ops_view()),
            g == old(self).log.ops_view().len(),
            final(self).log.ops_view().len() == g + 1,
            final(self).log.ops_view()[g as int] matches crate::ir::Op::Global { name: n, init: i, constant: c } && n@ == name@ && i == init && c == constant,
            old(self).module_globals@.contains_key(name@) ==> final(self).module_globals@ == old(self).module_globals@,
            !old(self).module_globals@.contains_key(name@) ==> final(self).module_globals@ == old(self).module_globals@.insert(name@, g),
    {
        let g = self.log.global(String::from_str(name), init, constant);
        if !self.module_globals.contains(name) {
            self.module_globals.insert(String::from_str(name), g);
        }
        g
    }

    /// A global holding `contents` and a NUL, and its address.
    pub fn string_global(&mut self, name: &str, contents: &str, constant: bool) -> (v: usize)
        requires
            old(self).wf(),
        ensures
            final(self).log.position() == old(self).log.position(),
            crate::ir::keeps_settled(old(self).log, final(self).log),
            v < final(self).log.ops_view().len(),
            final(self).wf(),
            final(self).state == old(self).state,
            final(self).var_slots == old(self).var_slots,
            final(self).fn_slots == old(self).fn_slots,
            final(self).current_fn == old(self).current_fn,
            crate::stmts::prefix_of(old(self).log.ops_view(), final(self).log.ops_view()),
            final(self).log.ops_view()[v as int] matches crate::ir::Op::GlobalAddress { global: g } && holds_global(final(self).log, g, name@),
            names_text(final(self).log, v, contents@),
    {
        let g = self.add_global(name, GlobalInit::Text(String::from_str(contents)), constant);
        let ghost mid = self.log;
        let v = self.log.global_address(g);
        assert(self.log.ops_view()[g as int] == mid.ops_view()[g as int]);
        v
    }

    /// A fresh name `prefix` followed by the number of string constants
    /// named so far.
    pub fn fresh_name(&mut self, prefix: &str) -> (r: Result<String, CodegenError>)
        requires
            old(self).wf(),
        ensures
            final(self).wf(),
            final(self).state.vars() == old(self).state.vars(),
            final(self).state.fns() == old(self).state.fns(),
            final(self).state.class_map() == old(self).state.class_map(),
            final(self).state.function() == old(self).state.function(),
            final(self).state.return_type() == old(self).state.return_type(),
            final(self).log == old(self).log,
            final(self).var_slots == old(self).var_slots,
            final(self).fn_slots == old(self).fn_slots,
            final(self).current_fn == old(self).current_fn,
            crate::stmts::prefix_of(old(self).log.ops_view(), final(self).log.ops_view()),
            r is Ok <==> old(self).state.strings_named() < u32::MAX,
            r matches Ok(n) ==> n@ == prefix@ + crate::text::spec_decimal(old(self).state.strings_named()),
            r matches Ok(_) ==> final(self).state.strings_named() == old(self).state.strings_named() + 1,
            r matches Err(e) ==> e.message@ == "Too many string constants"@,
    {
        if !self.state.can_name_string() {
            return Err(error("Too many string constants"));
        }
        Ok(self.state.fresh_global_name(prefix))
    }

    /// A fresh global format string `prefix.N` holding `text`, and its
    /// address.
    pub fn format_global(&mut self, prefix: &str, text: &str) -> (r: Result<usize, CodegenError>)
        requires
            old(self).wf(),
        ensures
            final(self).log.position() == old(self).log.position(),
            crate::ir::keeps_settled(old(self).log, final(self).log),
            crate::stmts::yields(*final(self), r),
            r matches Ok(v) ==> v < final(self).log.ops_view().len(),
            final(self).wf(),
            final(self).state.vars() == old(self).state.vars(),
            final(self).state.fns() == old(self).state.fns(),
            final(self).state.class_map() == old(self).state.class_map(),
            final(self).state.function() == old(self).state.function(),
            final(self).state.return_type() == old(self).state.return_type(),
            final(self).var_slots == old(self).var_slots,
            final(self).fn_slots == old(self).fn_slots,
            final(self).current_fn == old(self).current_fn,
            crate::stmts::prefix_of(old(self).log.ops_view(), final(self).log.ops_view()),
            r is Ok <==> old(self).state.strings_named() < u32::MAX,
            r matches Err(e) ==> e.message@ == "Too many string constants"@,
    {
        let name = self.fresh_name(prefix)?;
        Ok(self.string_global(name.as_str(), text, false))
    }

    /// Brings variable `name` of type `ty`, held in stack slot `slot`, into
    /// scope.
    pub fn bind(&mut self, name: &str, ty: Type, slot: usize)
        requires
            old(self).wf(),
            slot < old(self).log.ops_view().len(),
        ensures
            final(self).wf(),
            final(self).state.vars() == old(self).state.vars().insert(name@, ty@),
            final(self).state.fns() == old(self).state.fns(),
            final(self).state.class_map() == old(self).state.class_map(),
            final(self).state.function() == old(self).state.function(),
            final(self).state.return_type() == old(self).state.return_type(),
            final(self).log == old(self).log,
            final(self).fn_slots == old(self).fn_slots,
            final(self).current_fn == old(self).current_fn,
            crate::stmts::prefix_of(old(self).log.ops_view(), final(self).log.ops_view()),
            final(self).var_slots@ == old(self).var_slots@.insert(name@, slot),
    {
        self.state.bind_variable(String::from_str(name), ty);
        self.var_slots.insert(String::from_str(name), slot);
    }

    /// Takes variable `name` out of scope.
    pub fn unbind(&mut self, name: &str)
        requires
            old(self).wf(),
        ensures
            final(self).wf(),
            final(self).state.vars() == old(self).state.vars().remove(name@),
            final(self).state.fns() == old(self).state.fns(),
            final(self).state.class_map() == old(self).state.class_map(),
            final(self).state.function() == old(self).state.function(),
            final(self).state.return_type() == old(self).state.return_type(),
            final(self).state.strings_named() == old(self).state.strings_named(),
            final(self).log == old(self).log,
            final(self).fn_slots == old(self).fn_slots,
            final(self).current_fn == old(self).current_fn,
            final(self).var_slots@ == old(self).var_slots@.remove(name@),
    {
        self.state.unbind_variable(name);
        self.var_slots.remove(name);
    }

    /// The stack slot of variable `name`.
    pub fn var_slot(&self, name: &str) -> (r: Result<usize, CodegenError>)
        requires
            self.wf(),
        ensures
            crate::stmts::yields(*self, r),
            r matches Ok(s) ==> s < self.log.ops_view().len(),
            r is Ok <==> self.var_slots@.contains_key(name@),
            r matches Ok(s) ==> s == self.var_slots@[name@],
            r matches Err(e) ==> e.message@ == "Unknown variable: "@ + name@,
    {
        match self.var_slots.get(name) {
            Some(s) => Ok(*s),
            None => Err(crate::dispatch::error_naming("Unknown variable: ", name)),
        }
    }

    /// The type of variable `name`, if it is in scope.
    pub fn var_type(&self, name: &str) -> (r: Option<Type>)
        requires
            self.wf(),
        ensures
            r is Some <==> self.state.vars().contains_key(name@),
            r matches Some(t) ==> t@ == self.state.vars()[name@],
    {
        match self.state.variables().get(name) {
            Some(t) => Some(t.duplicate()),
            None => None,
        }
    }

    /// The function being emitted; `what` names the construct that needs one
    /// when there is none.
    pub fn function_for(&self, what: &str) -> (r: Result<usize, CodegenError>)
        ensures
            self.current_fn matches Some(f) ==> r == Ok::<usize, CodegenError>(f),
            self.current_fn is None ==> (r matches Err(e) && e.message@ == what@ + " outside of function"@),
    {
        match self.current_fn {
            Some(f) => Ok(f),
            None => {
                let mut m = String::from_str(what);
                m.append(" outside of function");
                Err(CodegenError::new(m))
            },
        }
    }

    /// An integer constant of type `ty`.
    pub fn int_const(&mut self, ty: LlvmType, value: u64) -> (v: usize)
        requires
            old(self).wf(),
        ensures
            final(self).log.position() == old(self).log.position(),
            crate::ir::keeps_settled(old(self).log, final(self).log),
            v < final(self).log.ops_view().len(),
            final(self).wf(),
            final(self).state == old(self).state,
            final(self).var_slots == old(self).var_slots,
            final(self).fn_slots == old(self).fn_slots,
            final(self).current_fn == old(self).current_fn,
            crate::stmts::prefix_of(old(self).log.ops_view(), final(self).log.ops_view()),
            final(self).log.ops_view() == old(self).log.ops_view().push(crate::ir::Op::ConstInt { ty, value, signed: false }),
            v == old(self).log.ops_view().len(),
    {
        self.log.const_int(ty, value, false)
    }

    /// The address of field `index` of the struct of type `ty` at `ptr`.
    pub fn field_address(&mut self, ty: &LlvmType, ptr: usize, index: u64, name: &str) -> (v: usize)
        requires
            old(self).wf(),
        ensures
            final(self).log.position() == old(self).log.position(),
            crate::ir::keeps_settled(old(self).log, final(self).log),
            v < final(self).log.ops_view().len(),
            final(self).wf(),
            final(self).state == old(self).state,
            final(self).var_slots == old(self).var_slots,
            final(self).fn_slots == old(self).fn_slots,
            final(self).current_fn == old(self).current_fn,
            crate::stmts::prefix_of(old(self).log.ops_view(), final(self).log.ops_view()),
            addresses_field(final(self).log, v, ptr, index),
    {
        let zero = self.int_const(LlvmType::I32, 0);
        let idx = self.int_const(LlvmType::I32, index);
        self.log.gep(ty.duplicate(), ptr, vec![zero, idx], name)
    }

    /// Stores `value` in field `index` of the struct of type `ty` at `ptr`.
    pub fn store_field(&mut self, ty: &LlvmType, ptr: usize, index: u64, name: &str, value: usize)
        requires
            old(self).wf(),
        ensures
            final(self).log.position() == old(self).log.position(),
            crate::ir::keeps_settled(old(self).log, final(self).log),
            final(self).wf(),
            final(self).state == old(self).state,
            final(self).var_slots == old(self).var_slots,
            final(self).fn_slots == old(self).fn_slots,
            final(self).current_fn == old(self).current_fn,
            crate::stmts::prefix_of(old(self).log.ops_view(), final(self).log.ops_view()),
            final(self).log.ops_view().len() > old(self).log.ops_view().len(),
            final(self).log.ops_view().last() matches crate::ir::Op::Store { ptr: p, value: x } && x == value && addresses_field(final(self).log, p, ptr, index),
            value < old(self).log.ops_view().len() ==> stores_field(final(self).log, final(self).log.ops_view().len() - 1, ptr, index),
    {
        let p = self.field_address(ty, ptr, index, name);
        let ghost mid = self.log;
        self.log.store(p, value);
        proof {
            let ix = mid.ops_view()[p as int]->Gep_indices;
            assert(self.log.ops_view()[p as int] == mid.ops_view()[p as int]);
            assert(self.log.ops_view()[ix@[0] as int] == mid.ops_view()[ix@[0] as int]);
            assert(self.log.ops_view()[ix@[1] as int] == mid.ops_view()[ix@[1] as int]);
        }
    }

    /// Loads field `index` (of type `field_ty`) of the struct of type `ty`
    /// at `ptr`.
    pub fn load_field(&mut self, ty: &LlvmType, ptr: usize, index: u64, addr_name: &str, field_ty: LlvmType, name: &str) -> (v: usize)
        requires
            old(self).wf(),
        ensures
            final(self).log.position() == old(self).log.position(),
            crate::ir::keeps_settled(old(self).log, final(self).log),
            v < final(self).log.ops_view().len(),
            final(self).wf(),
            final(self).state == old(self).state,
            final(self).var_slots == old(self).var_slots,
            final(self).fn_slots == old(self).fn_slots,
            final(self).current_fn == old(self).current_fn,
            crate::stmts::prefix_of(old(self).log.ops_view(), final(self).log.ops_view()),
            reads_field(final(self).log, v, ptr, index),
            final(self).log.value_type_of(v) matches Some(t) && t@ == field_ty@,
    {
        let p = self.field_address(ty, ptr, index, addr_name);
        let ghost mid = self.log;
        let v = self.log.load(field_ty, p, name);
        proof {
            let ix = mid.ops_view()[p as int]->Gep_indices;
            assert(self.log.ops_view()[p as int] == mid.ops_view()[p as int]);
            assert(self.log.ops_view()[ix@[0] as int] == mid.ops_view()[ix@[0] as int]);
            assert(self.log.ops_view()[ix@[1] as int] == mid.ops_view()[ix@[1] as int]);
        }
        v
    }

    /// The value of a call: its result, or `i8 0` for a call of a `void`
    /// function.
    pub fn call_value(&mut self, call: usize) -> (v: usize)
        requires
            old(self).wf(),
        ensures
            final(self).log.position() == old(self).log.position(),
            crate::ir::keeps_settled(old(self).log, final(self).log),
            call < old(self).log.ops_view().len() ==> v < final(self).log.ops_view().len(),
            old(self).log.value_type_of(call) is Some ==> v == call && final(self).log == old(self).log,
            old(self).log.value_type_of(call) is None ==> v == old(self).log.ops_view().len()
                && final(self).log.ops_view() == old(self).log.ops_view().push(crate::ir::Op::ConstInt { ty: LlvmType::I8, value: 0, signed: false }),
            final(self).wf(),
            final(self).state == old(self).state,
            final(self).var_slots == old(self).var_slots,
            final(self).fn_slots == old(self).fn_slots,
            final(self).current_fn == old(self).current_fn,
            crate::stmts::prefix_of(old(self).log.ops_view(), final(self).log.ops_view()),
    {
        if self.log.value_type(call).is_some() {
            call
        } else {
            self.int_const(LlvmType::I8, 0)
        }
    }

    /// Requires `v` to be an integer value.
    pub fn expect_int(&self, v: usize) -> (r: Result<usize, CodegenError>)
        requires
            self.wf(),
        ensures
            crate::stmts::yields(*self, r),
            r is Ok ==> r == Ok::<usize, CodegenError>(v),
            r is Ok <==> (self.log.value_type_of(v) matches Some(t) && t.is_int_spec()),
            r matches Err(e) ==> e.message@ == "Expected an integer value"@,
    {
        if self.log.is_int_value(v) {
            Ok(v)
        } else {
            Err(error("Expected an integer value"))
        }
    }

    /// Requires `v` to be a pointer value.
    pub fn expect_pointer(&self, v: usize) -> (r: Result<usize, CodegenError>)
        requires
            self.wf(),
        ensures
            crate::stmts::yields(*self, r),
            r is Ok ==> r == Ok::<usize, CodegenError>(v),
            r is Ok <==> self.log.value_type_of(v) == Some(LlvmType::Ptr),
            r matches Err(e) ==> e.message@ == "Expected a pointer value"@,
    {
        if self.log.is_pointer_value(v) {
            Ok(v)
        } else {
            Err(error("Expected a pointer value"))
        }
    }

    /// Field `index` of the struct value `v`.
    pub fn extract(&mut self, v: usize, index: u32, name: &str) -> (r: Result<usize, CodegenError>)
        requires
            old(self).wf(),
        ensures
            final(self).log.position() == old(self).log.position(),
            crate::ir::keeps_settled(old(self).log, final(self).log),
            crate::stmts::yields(*final(self), r),
            r matches Ok(x) ==> x < final(self).log.ops_view().len(),
            final(self).wf(),
            final(self).state == old(self).state,
            final(self).var_slots == old(self).var_slots,
            final(self).fn_slots == old(self).fn_slots,
            final(self).current_fn == old(self).current_fn,
            crate::stmts::prefix_of(old(self).log.ops_view(), final(self).log.ops_view()),
            r is Ok <==> crate::ir::has_field(old(self).log, v, index as int),
            crate::ir::types_kept(old(self).log, final(self).log),
            r matches Err(e) ==> e.message@ == "Expected a struct value"@ && final(self).log.ops_view() == old(self).log.ops_view(),
            r matches Ok(x) ==> (final(self).log.ops_view()[x as int] matches crate::ir::Op::ExtractValue { aggregate: a, index: i, name: _ } && a == v && i == index)
                && (final(self).log.value_type_of(x) matches Some(t) && t@ == old(self).log.value_type_of(v)->0->Struct_0@[index as int]@),
    {
        match self.log.extract_value(v, index, name) {
            Some(x) => Ok(x),
            None => Err(error("Expected a struct value")),
        }
    }

    /// The type of value `v`, which must have one.
    pub fn type_of(&self, v: usize) -> (r: Result<LlvmType, CodegenError>)
        ensures
            r is Err <==> self.log.value_type_of(v) is None,
            r matches Ok(t) ==> (self.log.value_type_of(v) matches Some(u) && u@ == t@),
            r matches Err(e) ==> e.message@ == "Expected a value"@,
    {
        match self.log.value_type(v) {
            Some(t) => Ok(t.duplicate()),
            None => Err(error("Expected a value")),
        }
    }

    /// Widens an integer to `i64` by sign extension.
    pub fn to_i64(&mut self, v: usize, name: &str) -> (r: usize)
        requires
            old(self).wf(),
        ensures
            final(self).log.position() == old(self).log.position(),
            crate::ir::keeps_settled(old(self).log, final(self).log),
            r < final(self).log.ops_view().len(),
            final(self).wf(),
            final(self).state == old(self).state,
            final(self).var_slots == old(self).var_slots,
            final(self).fn_slots == old(self).fn_slots,
            final(self).current_fn == old(self).current_fn,
            crate::stmts::prefix_of(old(self).log.ops_view(), final(self).log.ops_view()),
            final(self).log.ops_view()[r as int] matches crate::ir::Op::Cast { op: CastOp::SignExtend, value: x, ty: _, name: _ } && x == v,
            r == old(self).log.ops_view().len(),
    {
        self.log.cast(CastOp::SignExtend, v, LlvmType::I64, name)
    }

    // === Declarations ===

    /// Declares a top-level function under `symbol`: small functions are
    /// marked `alwaysinline`, every function `nounwind` and `willreturn`.
    pub fn declare_function(&mut self, symbol: &str, func: &FunctionDecl) -> (f: usize)
        requires
            old(self).wf(),
        ensures
            final(self).log.position() == old(self).log.position(),
            final(self).log.flags() == old(self).log.flags(),
            crate::ir::keeps_settled(old(self).log, final(self).log),
            final(self).wf(),
            final(self).state.fns() == old(self).state.fns().insert(symbol@, crate::state::spec_function_type(func.params@, func.return_type@)),
            final(self).state.vars() == old(self).state.vars(),
            final(self).state.class_map() == old(self).state.class_map(),
            final(self).state.function() == old(self).state.function(),
            final(self).state.return_type() == old(self).state.return_type(),
            final(self).current_fn == old(self).current_fn,
            crate::stmts::prefix_of(old(self).log.ops_view(), final(self).log.ops_view()),
            f == old(self).log.ops_view().len(),
            final(self).fn_slots@ == old(self).fn_slots@.insert(symbol@, f),
            final(self).log.ops_view()[f as int] matches crate::ir::Op::DeclareFunction { name: n, signature: s }
                && n@ == symbol@ && s@ == crate::layout::spec_function_signature(symbol@, crate::ast::param_types(func.params@), func.return_type@),
            final(self).log.ops_view().subrange(f + 1, final(self).log.ops_view().len() as int) == (if crate::layout::spec_always_inline(symbol@, func.params@.len()) {
                seq![crate::ir::Op::Attribute { function: f, attribute: FnAttribute::AlwaysInline },
                    crate::ir::Op::Attribute { function: f, attribute: FnAttribute::NoUnwind },
                    crate::ir::Op::Attribute { function: f, attribute: FnAttribute::WillReturn }]
            } else {
                seq![crate::ir::Op::Attribute { function: f, attribute: FnAttribute::NoUnwind },
                    crate::ir::Op::Attribute { function: f, attribute: FnAttribute::WillReturn }]
            }),
    {
        let sig = self.state.declare_function(symbol, func);
        let f = self.add_function(symbol, sig);
        if always_inline(symbol, func) {
            self.log.attribute(f, FnAttribute::AlwaysInline);
        }
        self.log.attribute(f, FnAttribute::NoUnwind);
        self.log.attribute(f, FnAttribute::WillReturn);
        self.fn_slots.insert(String::from_str(symbol), f);
        f
    }

    /// Declares class `class` under `symbol`: its layout, its constructor
    /// `symbol__new` and its methods `symbol__m`.
    pub fn declare_class(&mut self, symbol: &str, class: &ClassDecl)
        requires
            old(self).wf(),
        ensures
            final(self).log.position() == old(self).log.position(),
            final(self).log.flags() == old(self).log.flags(),
            crate::ir::keeps_settled(old(self).log, final(self).log),
            final(self).wf(),
            final(self).state.class_map() == old(self).state.class_map().insert(symbol@, crate::classes::fields_view(class.fields@)),
            final(self).state.fns() == crate::state::class_declared(old(self).state.fns(), symbol@, *class),
            final(self).state.vars() == old(self).state.vars(),
            final(self).state.function() == old(self).state.function(),
            final(self).state.return_type() == old(self).state.return_type(),
            final(self).current_fn == old(self).current_fn,
            crate::stmts::prefix_of(old(self).log.ops_view(), final(self).log.ops_view()),
    {
        let decl = self.state.declare_class(symbol, class);
        match decl.constructor {
            Some(sig) => {
                let name = qualified_name(symbol, "new");
                let f = self.add_function(name.as_str(), sig);
                self.fn_slots.insert(name, f);
            },
            None => {},
        }
        let methods = decl.methods;
        let mut i: usize = 0;
        while i < methods.len()
            invariant
                self.log.position() == old(self).log.position(),
                self.log.flags() == old(self).log.flags(),
                crate::ir::keeps_settled(old(self).log, self.log),
                self.wf(),
                self.state.class_map() == old(self).state.class_map().insert(symbol@, crate::classes::fields_view(class.fields@)),
                self.state.fns() == crate::state::class_declared(old(self).state.fns(), symbol@, *class),
                self.state.vars() == old(self).state.vars(),
                self.state.function() == old(self).state.function(),
                self.state.return_type() == old(self).state.return_type(),
                self.current_fn == old(self).current_fn,
                crate::stmts::prefix_of(old(self).log.ops_view(), self.log.ops_view()),
            decreases methods@.len() - i,
        {
            let sig = methods[i].signature.duplicate();
            let f = self.add_function(methods[i].symbol.as_str(), sig);
            self.fn_slots.insert(methods[i].symbol.clone(), f);
            i = i + 1;
        }
    }

    // === Bodies ===

    /// Starts a body: `f` (emitted under `symbol`) is the function being
    /// emitted, its `entry` block is where the builder stands, and no
    /// variable is in scope.
    fn begin(&mut self, symbol: &str, f: usize) -> (entry: usize)
        requires
            old(self).wf(),
        ensures
            final(self).log.flags() == old(self).log.flags().insert(entry, false),
            !old(self).log.flags().contains_key(entry),
            final(self).log.position() == Some(entry),
            final(self).wf(),
            final(self).current_fn == Some(f),
            final(self).state.function() == Some(symbol@),
            final(self).state.vars() == Map::<Seq<char>, TypeV>::empty(),
            final(self).state.fns() == old(self).state.fns(),
            final(self).state.class_map() == old(self).state.class_map(),
            final(self).state.return_type() == old(self).state.return_type(),
            crate::stmts::prefix_of(old(self).log.ops_view(), final(self).log.ops_view()),
            entry == old(self).log.ops_view().len(),
            entry < final(self).log.ops_view().len(),
            final(self).log.ops_view()[entry as int] matches crate::ir::Op::AppendBlock { function: g, name: n } && g == f && n@ == "entry"@,
    {
        self.current_fn = Some(f);
        self.state.begin_body(symbol);
        let entry = self.log.append_block(f, "entry");
        self.log.position_at_end(entry);
        self.var_slots.clear();
        entry
    }

    /// Finishes a body: no function is being emitted.
    fn end(&mut self)
        requires
            old(self).wf(),
        ensures
            final(self).wf(),
            final(self).current_fn is None,
            final(self).state.function() is None,
            final(self).state.fns() == old(self).state.fns(),
            final(self).state.class_map() == old(self).state.class_map(),
            final(self).log == old(self).log,
    {
        self.current_fn = None;
        self.state.end_body();
    }

    /// Stores each parameter of `f`, from LLVM parameter `first` on, in a
    /// stack slot and brings it into scope.
    pub(crate) fn bind_params(&mut self, f: usize, params: &Vec<Parameter>, first: usize) -> (r: Result<(), CodegenError>)
        requires
            old(self).wf(),
        ensures
            final(self).log.position() == old(self).log.position(),
            crate::ir::keeps_settled(old(self).log, final(self).log),
            final(self).wf(),
            final(self).state.fns() == old(self).state.fns(),
            final(self).state.class_map() == old(self).state.class_map(),
            final(self).state.function() == old(self).state.function(),
            final(self).state.return_type() == old(self).state.return_type(),
            final(self).current_fn == old(self).current_fn,
            crate::stmts::prefix_of(old(self).log.ops_view(), final(self).log.ops_view()),
            r is Ok <==> (params@.len() == 0 || (first + params@.len() - 1 <= usize::MAX && crate::ir::has_param(old(self).log, f, first + params@.len() - 1))),
            params@.len() == 0 ==> *final(self) == *old(self),
            r matches Err(e) ==> e.message@ == "Missing parameter"@,
            r is Ok ==> forall|k: int| 0 <= k < params@.len() ==> {
                &&& final(self).state.vars().contains_key(#[trigger] params@[k].name@)
                &&& final(self).var_slots@.contains_key(params@[k].name@)
            },
    {
        let mut i: usize = 0;
        while i < params.len()
            invariant
                i <= params@.len(),
                params@.len() == 0 ==> *self == *old(self),
                forall|j: int| old(self).log.ops_view().len() <= j < self.log.ops_view().len() ==> !(#[trigger] self.log.ops_view()[j] is DeclareFunction),
                forall|k: int| 0 <= k < i ==> {
                    &&& self.state.vars().contains_key(#[trigger] params@[k].name@)
                    &&& self.var_slots@.contains_key(params@[k].name@)
                },
                i > 0 ==> crate::ir::has_param(old(self).log, f, first + i - 1) && first + i - 1 <= usize::MAX,
                self.log.position() == old(self).log.position(),
                crate::ir::keeps_settled(old(self).log, self.log),
                self.wf(),
                self.state.fns() == old(self).state.fns(),
                self.state.class_map() == old(self).state.class_map(),
                self.state.function() == old(self).state.function(),
                self.state.return_type() == old(self).state.return_type(),
                self.current_fn == old(self).current_fn,
                crate::stmts::prefix_of(old(self).log.ops_view(), self.log.ops_view()),
            decreases params@.len() - i,
        {
            let p = &params[i];
            if first > usize::MAX - i {
                return Err(error("Missing parameter"));
            }
            let ghost before = self.log;
            let value = match self.log.param(f, first + i) {
                Some(v) => v,
                None => {
                    proof {
                        assert(!crate::ir::has_param(before, f, first + i));
                        if crate::ir::has_param(old(self).log, f, first + params@.len() - 1) {
                            assert(before.ops_view()[f as int] == old(self).log.ops_view()[f as int]);
                        }
                    }
                    return Err(error("Missing parameter"));
                },
            };
            proof {
                if f >= old(self).log.ops_view().len() {
                    assert(!(before.ops_view()[f as int] is DeclareFunction));
                }
                assert(before.ops_view()[f as int] == old(self).log.ops_view()[f as int]);
            }
            let ghost b2 = self.log;
            let slot = self.log.alloca(llvm_type(&p.ty), p.name.as_str());
            let ghost b3 = self.log;
            self.log.store(slot, value);
            let ghost b4 = self.log;
            self.bind(p.name.as_str(), p.ty.duplicate(), slot);
            proof {
                assert forall|j: int| old(self).log.ops_view().len() <= j < self.log.ops_view().len() implies !(#[trigger] self.log.ops_view()[j] is DeclareFunction) by {
                    if j < before.ops_view().len() {
                        assert(self.log.ops_view()[j] == before.ops_view()[j]);
                    } else if j < b2.ops_view().len() {
                        assert(self.log.ops_view()[j] == b2.ops_view()[j]);
                    } else if j < b3.ops_view().len() {
                        assert(self.log.ops_view()[j] == b3.ops_view()[j]);
                    }
                };
            }
            i = i + 1;
        }
        Ok(())
    }

    /// Stores a parameter in a global, creating the global (initialised with
    /// the zero of `ty`) on first use.
    fn store_in_global(&mut self, name: &str, ty: LlvmType, value: usize)
        requires
            old(self).wf(),
        ensures
            final(self).log.position() == old(self).log.position(),
            crate::ir::keeps_settled(old(self).log, final(self).log),
            final(self).wf(),
            final(self).state == old(self).state,
            final(self).var_slots == old(self).var_slots,
            final(self).fn_slots == old(self).fn_slots,
            final(self).current_fn == old(self).current_fn,
            crate::stmts::prefix_of(old(self).log.ops_view(), final(self).log.ops_view()),
            final(self).log.ops_view().len() >= old(self).log.ops_view().len() + 2,
            final(self).log.ops_view().last() matches crate::ir::Op::Store { ptr: a, value: x } && x == value
                && a == final(self).log.ops_view().len() - 2
                && (final(self).log.ops_view()[a as int] matches crate::ir::Op::GlobalAddress { global: g } && holds_global(final(self).log, g, name@)),
    {
        let g = match self.module_globals.get(name) {
            Some(g) => *g,
            None => self.add_global(name, GlobalInit::Zero(ty), false),
        };
        let ghost mid = self.log;
        let addr = self.log.global_address(g);
        self.log.store(addr, value);
        assert(self.log.ops_view()[g as int] == mid.ops_view()[g as int]);
    }

    /// Ends a body that falls off its end as `plan` says.
    fn fall_off(&mut self, plan: FallOffPlan)
        requires
            old(self).wf(),
        ensures
            final(self).log.position() == old(self).log.position(),
            crate::ir::keeps_settled(old(self).log, final(self).log),
            final(self).wf(),
            !final(self).log.open_block(),
            final(self).state == old(self).state,
            final(self).var_slots == old(self).var_slots,
            final(self).fn_slots == old(self).fn_slots,
            final(self).current_fn == old(self).current_fn,
            crate::stmts::prefix_of(old(self).log.ops_view(), final(self).log.ops_view()),
    {
        if self.log.needs_terminator() {
            match plan {
                FallOffPlan::MainZero => {
                    let zero = self.int_const(LlvmType::I32, 0);
                    self.log.ret(Some(zero));
                },
                FallOffPlan::Void => self.log.ret(None),
                FallOffPlan::Unreachable => self.log.unreachable(),
            }
        }
    }

    /// Emits the body of the function declared under `symbol`. The entry
    /// point first saves `argc` and `argv` in the globals `_apex_argc` and
    /// `_apex_argv`.
    pub fn compile_function(&mut self, symbol: &str, func: &FunctionDecl) -> (r: Result<(), CodegenError>)
        requires
            old(self).wf(),
        ensures
            final(self).wf(),
            final(self).state.fns() == old(self).state.fns(),
            final(self).state.class_map() == old(self).state.class_map(),
            r is Ok ==> !final(self).log.open_block(),
            crate::stmts::prefix_of(old(self).log.ops_view(), final(self).log.ops_view()),
            r is Ok && crate::ast::stmts_lambda_free(func.body@) && !old(self).log.open_block() ==> crate::ir::closed_since(old(self).log, final(self).log),
            !old(self).fn_slots@.contains_key(symbol@) ==> (r matches Err(x) && x.message@ == "Unknown function: "@ + symbol@ && *final(self) == *old(self)),
            r is Ok ==> final(self).current_fn is None && final(self).state.function() is None,
            r is Ok ==> (final(self).log.ops_view()[old(self).log.ops_view().len() as int] matches crate::ir::Op::AppendBlock { function: g, name: n }
                && g == old(self).fn_slots@[symbol@] && n@ == "entry"@),
    {
        let f = match self.fn_slots.get(symbol) {
            Some(f) => *f,
            None => return Err(crate::dispatch::error_naming("Unknown function: ", symbol)),
        };
        self.current_fn = Some(f);
        self.state.set_return_type(&func.return_type);
        self.state.begin_body(symbol);
        let ghost s0 = self.log;
        let entry = self.log.append_block(f, "entry");
        let ghost s1 = self.log;
        self.log.position_at_end(entry);
        let ghost s2 = self.log;
        self.var_slots.clear();
        self.loops.clear();
        let main = is_main(symbol);
        if main {
            let argc = match self.log.param(f, 0) {
                Some(v) => v,
                None => return Err(error("Missing parameter")),
            };
            let argv = match self.log.param(f, 1) {
                Some(v) => v,
                None => return Err(error("Missing parameter")),
            };
            self.store_in_global("_apex_argc", LlvmType::I32, argc);
            self.store_in_global("_apex_argv", LlvmType::Ptr, argv);
        }
        self.bind_params(f, &func.params, if main { 2 } else { 1 })?;
        self.compile_block(&func.body)?;
        self.fall_off(plan_fall_off(symbol, false, &func.return_type));
        proof {
            if crate::ast::stmts_lambda_free(func.body@) && !s0.open_block() {
                crate::ir::lemma_settled_but_closed_start(s0);
                crate::ir::lemma_settled_but_append(s0, s0, s1, Set::empty(), entry);
                crate::ir::lemma_settled_but_move(s0, s1, s2, Set::<usize>::empty().insert(entry));
                assert(crate::ir::keeps_settled(s2, self.log));
                crate::ir::lemma_settled_but_segment(s0, s2, self.log, Set::<usize>::empty().insert(entry));
                assert(Set::<usize>::empty().insert(entry).difference(crate::ir::position_set(s2)) =~= Set::<usize>::empty());
                crate::ir::lemma_closed_since(s0, self.log);
            }
        }
        self.end();
        Ok(())
    }

    /// Emits the constructor `symbol__new` of a class: it allocates the
    /// instance with `malloc`, binds `this`, runs the body and returns the
    /// instance.
    pub fn compile_constructor(&mut self, symbol: &str, class: &ClassDecl, ctor: &Constructor) -> (r: Result<(), CodegenError>)
        requires
            old(self).wf(),
        ensures
            final(self).wf(),
            final(self).state.fns() == old(self).state.fns(),
            final(self).state.class_map() == old(self).state.class_map(),
            r is Ok ==> !final(self).log.open_block(),
            crate::stmts::prefix_of(old(self).log.ops_view(), final(self).log.ops_view()),
            r is Ok && crate::ast::stmts_lambda_free(ctor.body@) && !old(self).log.open_block() ==> crate::ir::closed_since(old(self).log, final(self).log),
            !old(self).fn_slots@.contains_key(crate::text::spec_qualified(symbol@, "new"@)) ==> (r matches Err(x) && x.message@ == "Unknown function: "@ + crate::text::spec_qualified(symbol@, "new"@) && *final(self) == *old(self)),
            r is Ok ==> final(self).current_fn is None && final(self).state.function() is None,
            r is Ok ==> (final(self).log.ops_view()[old(self).log.ops_view().len() as int] matches crate::ir::Op::AppendBlock { function: g, name: n }
                && g == old(self).fn_slots@[crate::text::spec_qualified(symbol@, "new"@)] && n@ == "entry"@),
    {
        let name = qualified_name(symbol, "new");
        let f = match self.fn_slots.get(name.as_str()) {
            Some(f) => *f,
            None => return Err(crate::dispatch::error_naming("Unknown function: ", name.as_str())),
        };
        let ghost s0 = self.log;
        let entry = self.begin(name.as_str(), f);
        let ghost s1 = self.log;
        let ghost s2 = self.log;
        self.bind_params(f, &ctor.params, 1)?;
        let layout = LlvmType::Struct(class_struct_layout(&class.fields));
        let malloc = self.libc(LibcFn::Malloc);
        let size = self.log.size_of(layout);
        let instance = self.log.call(malloc, vec![size], "instance");
        let this_slot = self.log.alloca(LlvmType::Ptr, "this");
        self.log.store(this_slot, instance);
        self.bind("this", Type::Named(String::from_str(symbol)), this_slot);
        self.compile_block(&ctor.body)?;
        let this_value = self.log.load(LlvmType::Ptr, this_slot, "this");
        self.log.ret(Some(this_value));
        proof {
            if crate::ast::stmts_lambda_free(ctor.body@) && !s0.open_block() {
                crate::ir::lemma_settled_but_closed_start(s0);
                crate::ir::lemma_settled_but_append(s0, s0, s1, Set::empty(), entry);
                crate::ir::lemma_settled_but_move(s0, s1, s2, Set::<usize>::empty().insert(entry));
                assert(crate::ir::keeps_settled(s2, self.log));
                crate::ir::lemma_settled_but_segment(s0, s2, self.log, Set::<usize>::empty().insert(entry));
                assert(Set::<usize>::empty().insert(entry).difference(crate::ir::position_set(s2)) =~= Set::<usize>::empty());
                crate::ir::lemma_closed_since(s0, self.log);
            }
        }
        assert(self.log.ops_view()[entry as int] == s1.ops_view()[entry as int]);
        self.end();
        Ok(())
    }

    /// Emits method `method` of a class declared under `symbol`: `this`
    /// arrives after the environment pointer, the parameters after it.
    pub fn compile_method(&mut self, symbol: &str, method: &FunctionDecl) -> (r: Result<(), CodegenError>)
        requires
            old(self).wf(),
        ensures
            final(self).wf(),
            final(self).state.fns() == old(self).state.fns(),
            final(self).state.class_map() == old(self).state.class_map(),
            r is Ok ==> !final(self).log.open_block(),
            crate::stmts::prefix_of(old(self).log.ops_view(), final(self).log.ops_view()),
            r is Ok && crate::ast::stmts_lambda_free(method.body@) && !old(self).log.open_block() ==> crate::ir::closed_since(old(self).log, final(self).log),
            !old(self).fn_slots@.contains_key(crate::text::spec_qualified(symbol@, method.name@)) ==> (r matches Err(x) && x.message@ == "Unknown function: "@ + crate::text::spec_qualified(symbol@, method.name@) && *final(self) == *old(self)),
            r is Ok ==> final(self).current_fn is None && final(self).state.function() is None,
            r is Ok ==> (final(self).log.ops_view()[old(self).log.ops_view().len() as int] matches crate::ir::Op::AppendBlock { function: g, name: n }
                && g == old(self).fn_slots@[crate::text::spec_qualified(symbol@, method.name@)] && n@ == "entry"@),
    {
        let name = qualified_name(symbol, method.name.as_str());
        let f = match self.fn_slots.get(name.as_str()) {
            Some(f) => *f,
            None => return Err(crate::dispatch::error_naming("Unknown function: ", name.as_str())),
        };
        let ghost s0 = self.log;
        let entry = self.begin(name.as_str(), f);
        let ghost s1 = self.log;
        let ghost s2 = self.log;
        let this_param = match self.log.param(f, 1) {
            Some(v) => v,
            None => return Err(error("Missing parameter")),
        };
        let this_slot = self.log.alloca(LlvmType::Ptr, "this");
        self.log.store(this_slot, this_param);
        self.bind("this", Type::Named(String::from_str(symbol)), this_slot);
        self.bind_params(f, &method.params, 2)?;
        self.compile_block(&method.body)?;
        self.fall_off(plan_fall_off(name.as_str(), true, &method.return_type));
        proof {
            if crate::ast::stmts_lambda_free(method.body@) && !s0.open_block() {
                crate::ir::lemma_settled_but_closed_start(s0);
                crate::ir::lemma_settled_but_append(s0, s0, s1, Set::empty(), entry);
                crate::ir::lemma_settled_but_move(s0, s1, s2, Set::<usize>::empty().insert(entry));
                assert(crate::ir::keeps_settled(s2, self.log));
                crate::ir::lemma_settled_but_segment(s0, s2, self.log, Set::<usize>::empty().insert(entry));
                assert(Set::<usize>::empty().insert(entry).difference(crate::ir::position_set(s2)) =~= Set::<usize>::empty());
                crate::ir::lemma_closed_since(s0, self.log);
            }
        }
        assert(self.log.ops_view()[entry as int] == s1.ops_view()[entry as int]);
        self.end();
        Ok(())
    }

    /// Emits the constructor and the methods of a class declared under
    /// `symbol`.
    pub fn compile_class(&mut self, symbol: &str, class: &ClassDecl) -> (r: Result<(), CodegenError>)
        requires
            old(self).wf(),
        ensures
            final(self).wf(),
            final(self).state.fns() == old(self).state.fns(),
            final(self).state.class_map() == old(self).state.class_map(),
            crate::stmts::prefix_of(old(self).log.ops_view(), final(self).log.ops_view()),
            r is Ok && !old(self).log.open_block() ==> !final(self).log.open_block(),
            r is Ok && crate::ast::class_lambda_free(*class) && !old(self).log.open_block() ==> crate::ir::closed_since(old(self).log, final(self).log),
            class.constructor is Some && !old(self).fn_slots@.contains_key(crate::text::spec_qualified(symbol@, "new"@))
                ==> (r matches Err(x) && x.message@ == "Unknown function: "@ + crate::text::spec_qualified(symbol@, "new"@) && *final(self) == *old(self)),
            r is Ok && (class.constructor is Some || class.methods@.len() > 0) ==> final(self).current_fn is None && final(self).state.function() is None,
            class.constructor is None && class.methods@.len() == 0 ==> r is Ok && *final(self) == *old(self),
    {
        let ghost lf = crate::ast::class_lambda_free(*class) && !self.log.open_block();
        let ghost closed = !self.log.open_block();
        match &class.constructor {
            Some(ctor) => self.compile_constructor(symbol, class, ctor)?,
            None => {},
        }
        let mut i: usize = 0;
        while i < class.methods.len()
            invariant
                self.wf(),
                self.state.fns() == old(self).state.fns(),
                self.state.class_map() == old(self).state.class_map(),
                crate::stmts::prefix_of(old(self).log.ops_view(), self.log.ops_view()),
                closed ==> !self.log.open_block(),
                lf ==> crate::ir::closed_since(old(self).log, self.log),
                lf == (crate::ast::class_lambda_free(*class) && !old(self).log.open_block()),
                closed == !old(self).log.open_block(),
                i <= class.methods@.len(),
                (class.constructor is Some || i > 0) ==> self.current_fn is None && self.state.function() is None,
                class.constructor is None && i == 0 ==> *self == *old(self),
                class.constructor is Some ==> old(self).fn_slots@.contains_key(crate::text::spec_qualified(symbol@, "new"@)),
            decreases class.methods@.len() - i,
        {
            let ghost before = self.log;
            self.compile_method(symbol, &class.methods[i])?;
            proof {
                if lf {
                    crate::ir::lemma_closed_since_trans(old(self).log, before, self.log);
                }
            }
            i = i + 1;
        }
        Ok(())
    }

    /// Emits a whole program: every function and class is declared first,
    /// in order, then every body is emitted, in order. Each of them is
    /// declared whether or not a body fails to compile, and the module is
    /// only ever appended to.
    pub fn compile(&mut self, program: &Program) -> (r: Result<(), CodegenError>)
        requires
            old(self).wf(),
        ensures
            final(self).wf(),
            crate::stmts::prefix_of(old(self).log.ops_view(), final(self).log.ops_view()),
            forall|k: int| 0 <= k < spec_units(program.declarations@).len() ==> {
                let u = #[trigger] spec_units(program.declarations@)[k];
                &&& u.kind == UnitKind::Function ==> final(self).state.fns().contains_key(u.symbol)
                &&& u.kind == UnitKind::Class ==> final(self).state.class_map().contains_key(u.symbol)
            },
            forall|s: Seq<char>| old(self).state.fns().contains_key(s) ==> #[trigger] final(self).state.fns().contains_key(s),
            forall|s: Seq<char>| old(self).state.class_map().contains_key(s) ==> #[trigger] final(self).state.class_map().contains_key(s),
            r is Ok && crate::program::program_lambda_free(program.declarations@) && !old(self).log.open_block() ==> crate::ir::closed_since(old(self).log, final(self).log),
            r is Ok && crate::program::program_lambda_free(program.declarations@) && old(self).log.flags() == Map::<usize, bool>::empty() ==> crate::ir::all_terminated(final(self).log),
    {
        let units = plan_program(program);
        let ghost plan = spec_units(program.declarations@);
        let mut i: usize = 0;
        while i < units.len()
            invariant
                self.wf(),
                units_view(units@) == plan,
                plan == spec_units(program.declarations@),
                crate::stmts::prefix_of(old(self).log.ops_view(), self.log.ops_view()),
                forall|k: int| 0 <= k < i ==> {
                    let u = #[trigger] plan[k];
                    &&& u.kind == UnitKind::Function ==> self.state.fns().contains_key(u.symbol)
                    &&& u.kind == UnitKind::Class ==> self.state.class_map().contains_key(u.symbol)
                },
                forall|s: Seq<char>| old(self).state.fns().contains_key(s) ==> #[trigger] self.state.fns().contains_key(s),
                forall|s: Seq<char>| old(self).state.class_map().contains_key(s) ==> #[trigger] self.state.class_map().contains_key(s),
                self.log.flags() == old(self).log.flags(),
                self.log.position() == old(self).log.position(),
            decreases units@.len() - i,
        {
            let u = &units[i];
            proof {
                crate::program::lemma_unit_target(program.declarations@, i as int);
                assert(plan[i as int] == u@);
            }
            let ghost fns_before = self.state.fns();
            let ghost classes_before = self.state.class_map();
            match u.kind {
                UnitKind::Function => match unit_function(program, u) {
                    Some(f) => {
                        self.declare_function(u.symbol.as_str(), f);
                    },
                    None => {},
                },
                UnitKind::Class => match unit_class(program, u) {
                    Some(c) => {
                        self.declare_class(u.symbol.as_str(), c);
                        proof {
                            assert forall|s: Seq<char>| fns_before.contains_key(s) implies #[trigger] self.state.fns().contains_key(s) by {
                                crate::state::lemma_class_declared_keeps(fns_before, u.symbol@, *c, s);
                            };
                        }
                    },
                    None => {},
                },
            }
            i = i + 1;
        }
        let ghost declared_fns = self.state.fns();
        let ghost declared_classes = self.state.class_map();
        let ghost lf = crate::program::program_lambda_free(program.declarations@) && !old(self).log.open_block();
        proof {
            if lf {
                old(self).log.lemma_open_block();
                self.log.lemma_open_block();
                assert(self.log.flags() =~= old(self).log.flags());
            }
        }
        let mut j: usize = 0;
        while j < units.len()
            invariant
                lf == (crate::program::program_lambda_free(program.declarations@) && !old(self).log.open_block()),
                units_view(units@) == plan,
                plan == spec_units(program.declarations@),
                lf ==> crate::ir::closed_since(old(self).log, self.log),
                lf ==> !self.log.open_block(),
                self.wf(),
                self.state.fns() == declared_fns,
                self.state.class_map() == declared_classes,
                crate::stmts::prefix_of(old(self).log.ops_view(), self.log.ops_view()),
                forall|k: int| 0 <= k < spec_units(program.declarations@).len() ==> {
                    let u = #[trigger] spec_units(program.declarations@)[k];
                    &&& u.kind == UnitKind::Function ==> declared_fns.contains_key(u.symbol)
                    &&& u.kind == UnitKind::Class ==> declared_classes.contains_key(u.symbol)
                },
                forall|s: Seq<char>| old(self).state.fns().contains_key(s) ==> #[trigger] declared_fns.contains_key(s),
                forall|s: Seq<char>| old(self).state.class_map().contains_key(s) ==> #[trigger] declared_classes.contains_key(s),
            decreases units@.len() - j,
        {
            let u = &units[j];
            let ghost before = self.log;
            proof {
                assert(plan[j as int] == u@);
            }
            match u.kind {
                UnitKind::Function => match unit_function(program, u) {
                    Some(f) => self.compile_function(u.symbol.as_str(), f)?,
                    None => {},
                },
                UnitKind::Class => match unit_class(program, u) {
                    Some(c) => self.compile_class(u.symbol.as_str(), c)?,
                    None => {},
                },
            }
            proof {
                if lf {
                    crate::ir::lemma_closed_since_trans(old(self).log, before, self.log);
                }
            }
            j = j + 1;
        }
        proof {
            if old(self).log.flags() == Map::<usize, bool>::empty() {
                old(self).log.lemma_open_block();
                if crate::program::program_lambda_free(program.declarations@) {
                    crate::ir::lemma_closed_from_empty(old(self).log, self.log);
                }
            }
        }
        Ok(())
    }
}

/// The declaration a unit stands for.
fn unit_decl<'a>(program: &'a Program, u: &CodeUnit) -> (r: Option<&'a Decl>)
    ensures
        match r {
            Some(d) => unit_target(program.declarations@, u@) == Some(*d),
            None => unit_target(program.declarations@, u@) is None,
        },
{
    if u.decl >= program.declarations.len() {
        return None;
    }
    let d = &program.declarations[u.decl];
    match u.member {
        None => Some(d),
        Some(m) => match d {
            Decl::Module(module) => if m < module.declarations.len() {
                Some(&module.declarations[m])
            } else {
                None
            },
            _ => None,
        },
    }
}

/// The function a unit stands for.
fn unit_function<'a>(program: &'a Program, u: &CodeUnit) -> (r: Option<&'a FunctionDecl>)
    ensures
        r is Some <==> unit_target(program.declarations@, u@) matches Some(Decl::Function(_)),
        r matches Some(f) ==> unit_target(program.declarations@, u@) == Some(Decl::Function(*f)),
{
    match unit_decl(program, u) {
        Some(Decl::Function(f)) => Some(f),
        _ => None,
    }
}

/// The class a unit stands for.
fn unit_class<'a>(program: &'a Program, u: &CodeUnit) -> (r: Option<&'a ClassDecl>)
    ensures
        r is Some <==> unit_target(program.declarations@, u@) matches Some(Decl::Class(_)),
        r matches Some(c) ==> unit_target(program.declarations@, u@) == Some(Decl::Class(*c)),
{
    match unit_decl(program, u) {
        Some(Decl::Class(c)) => Some(c),
        _ => None,
    }
}

} // verus!
