//! Lowering of calls: built-ins, constructors of options and results,
//! method calls, calls through closures and direct calls.

use vstd::prelude::*;
use crate::ast::Expr;
use crate::error::CodegenError;
use crate::codegen::{Codegen, error};
use crate::stmts::keeps_tables;
use crate::layout::{llvm_type, closure_signature, LlvmTypeV, LlvmType};
use crate::ir::{Op, InstrLog};
use crate::stdlib::spec_stdlib_arity;
use crate::dispatch::{print_name, println_lit, plan_call, CallPlan, plan_method_call, MethodPlan, ListSource, plan_class_method, error_naming};
use crate::infer::this_string;

verus! {

broadcast use vstd::std_specs::vec::group_vec_axioms;

/// Value `v` of `log` is the result of a call of `f` with `n` arguments:
/// the call itself, or, when `f` returns nothing, the `i8 0` right after it.
pub open spec fn calls_with(log: InstrLog, v: usize, f: usize, n: int) -> bool {
    let ops = log.ops_view();
    ||| ops[v as int] matches Op::Call { function: g, args: a, name: _ } && g == f && a@.len() == n
    ||| v > 0 && (ops[v - 1] matches Op::Call { function: g, args: a, name: _ } && g == f && a@.len() == n)
        && ops[v as int] == (Op::ConstInt { ty: LlvmType::I8, value: 0, signed: false })
}

/// Value `v` of `log` is the result of a call of `f` (see `calls_with`)
/// whose arguments from position `skip` on are the values of `args` in
/// order, a literal argument being the constant it denotes.
pub open spec fn calls_passing(log: InstrLog, v: usize, f: usize, args: Seq<Expr>, skip: int) -> bool {
    let ops = log.ops_view();
    &&& calls_with(log, v, f, args.len() + skip)
    &&& ops[v as int] is Call ==> crate::exprs::literals_passed(log, ops[v as int]->Call_args@, args, skip)
    &&& !(ops[v as int] is Call) ==> crate::exprs::literals_passed(log, ops[v - 1]->Call_args@, args, skip)
}

/// The name `callee` is, when it is a name.
pub open spec fn callee_ident(callee: Expr) -> Option<Seq<char>> {
    match callee {
        Expr::Ident(n) => Some(n@),
        _ => None,
    }
}

/// `callee` is `ty.method`, written with the type's name.
pub open spec fn callee_named(callee: Expr, ty: Seq<char>, method: Seq<char>) -> bool {
    callee matches Expr::Field { object, field } && (*object matches Expr::Ident(t) && t@ == ty) && field@ == method
}

/// The call `e` is `ty.method(..)` with `n` arguments.
pub open spec fn calls_builtin(e: Expr, ty: Seq<char>, method: Seq<char>) -> bool {
    e matches Expr::Call { callee, args: _ } && callee_named(*callee, ty, method)
}

/// The number of arguments of the call `e`.
pub open spec fn call_arity(e: Expr) -> nat {
    match e {
        Expr::Call { callee: _, args } => args@.len(),
        _ => 0,
    }
}

/// The names of the built-in option and result constructors differ.
proof fn lemma_builtin_names()
    ensures
        "Option"@ != "Result"@,
        "ok"@ != "error"@,
        "some"@ != "none"@,
{
    reveal_strlit("Option");
    reveal_strlit("Result");
    assert("Option"@[0] != "Result"@[0]);
    reveal_strlit("ok");
    reveal_strlit("error");
    assert("ok"@.len() != "error"@.len());
    reveal_strlit("some");
    reveal_strlit("none");
    assert("some"@[0] != "none"@[0]);
}

impl Codegen {
    /// Calls `f` with a null environment pointer (unless `pass_env` is
    /// false) followed by `args`; the value is the call's result, or `i8 0`
    /// when `f` returns nothing.
    fn direct_call(&mut self, f: usize, pass_env: bool, args: &Vec<Expr>) -> (r: Result<usize, CodegenError>)
        requires
            old(self).wf(),
        ensures
            r is Ok && crate::ast::exprs_lambda_free(args@) ==> crate::ir::keeps_settled(old(self).log, final(self).log),
            crate::stmts::yields(*final(self), r),
            keeps_tables(*old(self), *final(self)),
            args@.len() == 0 ==> r is Ok,
            r matches Ok(v) ==> calls_passing(final(self).log, v, f, args@, if pass_env { 1int } else { 0int }),
        decreases args, 7int,
    {
        proof {
            crate::ast::lemma_exprs_lambda_free(args@);
        }
        let mut call_args: Vec<usize> = Vec::new();
        if pass_env {
            let null = self.log.const_null();
            call_args.push(null);
        }
        let ghost before_args = call_args@.len();
        self.compile_args(args, &mut call_args)?;
        assert(call_args@.len() == before_args + args@.len());
        let ghost l_args = self.log;
        let ghost passed = call_args@;
        let c = self.log.call(f, call_args, "call");
        let ghost called = self.log;
        let v = self.call_value(c);
        assert(self.log.ops_view()[c as int] == called.ops_view()[c as int]);
        proof {
            let fin = self.log;
            assert forall|k: int| 0 <= k < args@.len() && (#[trigger] args@[k]) is Literal implies
                crate::exprs::materialises(args@[k]->Literal_0, fin.ops_view()[passed[before_args + k] as int]) by {
                assert(fin.ops_view()[passed[before_args + k] as int] == l_args.ops_view()[passed[before_args + k] as int]);
            }
        }
        Ok(v)
    }

    /// Lowers the call `e`, as [`plan_call`] decides: printing, the standard
    /// library, `Option`/`Result` constructors, method calls, calls through
    /// a closure held by a variable, and direct calls.
    pub fn compile_call(&mut self, e: &Expr) -> (r: Result<usize, CodegenError>)
        requires
            old(self).wf(),
        ensures
            r is Ok && crate::ast::lambda_free(*e) ==> crate::ir::keeps_settled(old(self).log, final(self).log),
            crate::stmts::yields(*final(self), r),
            keeps_tables(*old(self), *final(self)),
            match *e {
                Expr::Call { callee, args } => match *callee {
                    Expr::Ident(name) => (name@ != println_lit() && name@ != print_name()
                        && (spec_stdlib_arity(name@) matches Some(n) && args.len() < n)) ==> {
                        &&& r matches Err(x) && x.message@ == "Missing arguments for "@ + name@
                        &&& *final(self) == *old(self)
                    },
                    Expr::Field { .. } => true,
                    _ => {
                        &&& r matches Err(x) && x.message@ == "Invalid callee"@
                        &&& *final(self) == *old(self)
                    },
                },
                _ => {
                    &&& r matches Err(x) && x.message@ == "Expected a call"@
                    &&& *final(self) == *old(self)
                },
            },
            calls_builtin(*e, "Option"@, "some"@) && call_arity(*e) != 1
                ==> (r matches Err(x) && x.message@ == "Option.some() requires exactly 1 argument"@ && *final(self) == *old(self)),
            calls_builtin(*e, "Result"@, "ok"@) && call_arity(*e) != 1
                ==> (r matches Err(x) && x.message@ == "Result.ok() requires exactly 1 argument"@ && *final(self) == *old(self)),
            calls_builtin(*e, "Result"@, "error"@) && call_arity(*e) != 1
                ==> (r matches Err(x) && x.message@ == "Result.error() requires exactly 1 argument"@ && *final(self) == *old(self)),
            calls_builtin(*e, "Option"@, "none"@) && call_arity(*e) == 0
                ==> (r matches Ok(v) && (final(self).log.value_type_of(v) matches Some(t) && t@ == LlvmTypeV::Struct(seq![LlvmTypeV::I8, LlvmTypeV::I64]))),
            calls_builtin(*e, "Option"@, "none"@) && call_arity(*e) != 0
                ==> (r matches Err(x) && x.message@ == "Option.none() expects 0 argument(s), got "@ + crate::text::spec_decimal(call_arity(*e))
                    && *final(self) == *old(self)),
            calls_builtin(*e, "Option"@, "some"@) ==> (r matches Ok(v) ==> (final(self).log.value_type_of(v) matches Some(t) && t@->Struct_0.len() == 2 && t@->Struct_0[0] == LlvmTypeV::I8)),
            calls_builtin(*e, "Result"@, "ok"@) ==> (r matches Ok(v) ==> (final(self).log.value_type_of(v) matches Some(t) && t@->Struct_0.len() == 3
                && t@->Struct_0[0] == LlvmTypeV::I8 && t@->Struct_0[2] == LlvmTypeV::Ptr)),
            calls_builtin(*e, "Result"@, "error"@) ==> (r matches Ok(v) ==> (final(self).log.value_type_of(v) matches Some(t)
                && t@ == LlvmTypeV::Struct(seq![LlvmTypeV::I8, LlvmTypeV::I64, LlvmTypeV::Ptr]))),
            e matches Expr::Call { callee, args } ==> (callee_ident(**callee) matches Some(name) ==> {
                &&& (name != crate::dispatch::println_lit() && name != print_name() && spec_stdlib_arity(name) is None
                    && crate::dispatch::spec_named_call_kind(old(self).state, name) == 1 && old(self).fn_slots@.contains_key(name))
                    ==> (r matches Ok(v) ==> calls_passing(final(self).log, v, old(self).fn_slots@[name],
                        args@, if name != crate::layout::main_name() { 1int } else { 0int }))
                &&& (name != crate::dispatch::println_lit() && name != print_name() && spec_stdlib_arity(name) is None
                    && crate::dispatch::spec_named_call_kind(old(self).state, name) == 1 && !old(self).fn_slots@.contains_key(name))
                    ==> (r matches Err(x) && x.message@ == "Unknown function: "@ + name && *final(self) == *old(self))
                &&& (name != crate::dispatch::println_lit() && name != print_name() && spec_stdlib_arity(name) is None
                    && crate::dispatch::spec_named_call_kind(old(self).state, name) == 2 && !old(self).module_fns@.contains_key(name))
                    ==> (r matches Err(x) && x.message@ == "Unknown function: "@ + name && *final(self) == *old(self))
            }),
        decreases e, 8int,
    {
        proof {
            if let Expr::Call { callee: _, args } = e { crate::ast::lemma_exprs_lambda_free(args@); };
            reveal_with_fuel(crate::ast::lambda_free, 3);
            lemma_builtin_names();
        }
        match e {
            Expr::Call { callee, args } => {
                match plan_call(&self.state, callee, args.len())? {
                    CallPlan::Print { newline } => self.compile_print(args, newline),
                    CallPlan::Stdlib { name, arity } => {
                        if args.len() < arity {
                            return Err(error_naming("Missing arguments for ", name.as_str()));
                        }
                        match self.compile_stdlib_function(name.as_str(), args)? {
                            Some(v) => Ok(v),
                            None => Err(error_naming("Unknown function: ", name.as_str())),
                        }
                    },
                    CallPlan::OptionSome => {
                        if args.len() != 1 {
                            return Err(error("Option.some() requires exactly 1 argument"));
                        }
                        let v = self.compile_expr(&args[0])?;
                        self.create_option_some(v)
                    },
                    CallPlan::OptionNone => {
                        if args.len() != 0 {
                            return Err(CodegenError::new(crate::text::numbered_name("Option.none() expects 0 argument(s), got ", args.len() as u64)));
                        }
                        self.create_option_none()
                    },
                    CallPlan::ResultOk => {
                        if args.len() != 1 {
                            return Err(error("Result.ok() requires exactly 1 argument"));
                        }
                        let v = self.compile_expr(&args[0])?;
                        self.create_result_ok(v)
                    },
                    CallPlan::ResultError => {
                        if args.len() != 1 {
                            return Err(error("Result.error() requires exactly 1 argument"));
                        }
                        let v = self.compile_expr(&args[0])?;
                        self.create_result_error(v)
                    },
                    CallPlan::Method { object: _, method: _ } => self.compile_method_call(e),
                    CallPlan::Closure { name, params, ret } => {
                        let slot = self.var_slot(name.as_str())?;
                        let closure_ty = match self.var_type(name.as_str()) {
                            Some(t) => llvm_type(&t),
                            None => return Err(error_naming("Unknown variable: ", name.as_str())),
                        };
                        let closure = self.log.load(closure_ty, slot, name.as_str());
                        let fn_ptr = self.extract(closure, 0, "fn_ptr")?;
                        let fn_ptr = self.expect_pointer(fn_ptr)?;
                        let env = self.extract(closure, 1, "env_ptr")?;
                        let sig = closure_signature(&params, &ret);
                        let mut call_args = vec![env];
                        self.compile_args(args, &mut call_args)?;
                        let c = self.log.indirect_call(sig, fn_ptr, call_args, "call");
                        Ok(self.call_value(c))
                    },
                    CallPlan::Direct { symbol, pass_env } => {
                        let f = match self.fn_slots.get(symbol.as_str()) {
                            Some(f) => *f,
                            None => return Err(error_naming("Unknown function: ", symbol.as_str())),
                        };
                        self.direct_call(f, pass_env, args)
                    },
                    CallPlan::External { symbol, pass_env } => {
                        let f = match self.module_fns.get(symbol.as_str()) {
                            Some(f) => *f,
                            None => return Err(error_naming("Unknown function: ", symbol.as_str())),
                        };
                        self.direct_call(f, pass_env, args)
                    },
                }
            },
            _ => Err(error("Expected a call")),
        }
    }

    /// Lowers the method call `e`, `object.method(args)`: lists, maps,
    /// sets, options and results have built-in methods; otherwise the
    /// object's class gives the method `Class__method`, called with a null
    /// environment pointer and the object first.
    pub fn compile_method_call(&mut self, e: &Expr) -> (r: Result<usize, CodegenError>)
        requires
            old(self).wf(),
        ensures
            r is Ok && crate::ast::lambda_free(*e) ==> crate::ir::keeps_settled(old(self).log, final(self).log),
            crate::stmts::yields(*final(self), r),
            keeps_tables(*old(self), *final(self)),
            match *e {
                Expr::Call { callee, args: _ } => match *callee {
                    Expr::Field { object, field } => match *object {
                        Expr::Ident(n) => {
                            &&& crate::dispatch::spec_builtin_method(old(self).state, *object) == 3 && old(self).var_slots@.contains_key(n@)
                                ==> (r is Ok <==> crate::builtins::spec_set_method(field@))
                            &&& crate::dispatch::spec_builtin_method(old(self).state, *object) == 4 && old(self).var_slots@.contains_key(n@)
                                && old(self).state.vars().contains_key(n@) && old(self).state.vars()[n@] is Option
                                ==> (r is Ok <==> crate::builtins::spec_option_method(field@))
                            &&& crate::dispatch::spec_builtin_method(old(self).state, *object) == 5 && old(self).var_slots@.contains_key(n@)
                                && old(self).state.vars().contains_key(n@) && old(self).state.vars()[n@] is Result
                                ==> (r is Ok <==> crate::builtins::spec_result_method(field@))
                        },
                        _ => true,
                    },
                    _ => r matches Err(x) && x.message@ == "Expected a method call"@ && *final(self) == *old(self),
                },
                _ => r matches Err(x) && x.message@ == "Expected a method call"@ && *final(self) == *old(self),
            },
        decreases e, 7int,
    {
        proof {
            if let Expr::Call { callee: _, args } = e { crate::ast::lemma_exprs_lambda_free(args@); };
            reveal_with_fuel(crate::ast::lambda_free, 3);
        }
        match e {
            Expr::Call { callee, args } => match &**callee {
                Expr::Field { object, field } => {
                    let method = field.as_str();
                    match plan_method_call(&self.state, object) {
                        MethodPlan::List { source, element: _ } => {
                            let ptr = match source {
                                ListSource::Variable(n) => match self.var_slots.get(n.as_str()) {
                                    Some(p) => Some(*p),
                                    None => None,
                                },
                                ListSource::Field { object: _, field: _ } => {
                                    proof {
                                        crate::infer::lemma_typed_objects_are_paths(**object, self.state.vars(), self.state.class_map());
                                    }
                                    match self.compile_field_ptr(object) {
                                        Ok(p) => Some(p),
                                        Err(_) => None,
                                    }
                                },
                                ListSource::This => {
                                    let this = this_string();
                                    match self.var_slots.get(this.as_str()) {
                                        Some(p) => Some(*p),
                                        None => None,
                                    }
                                },
                            };
                            match ptr {
                                Some(p) => {
                                    return self.compile_list_method_ptr(p, method, args);
                                },
                                None => {},
                            }
                        },
                        MethodPlan::MapMethod { variable } => {
                            return self.compile_map_method(variable.as_str(), method, args);
                        },
                        MethodPlan::SetMethod { variable } => {
                            return self.compile_set_method(variable.as_str(), method);
                        },
                        MethodPlan::OptionMethod { variable } => {
                            return self.compile_option_method(variable.as_str(), method);
                        },
                        MethodPlan::ResultMethod { variable } => {
                            return self.compile_result_method(variable.as_str(), method);
                        },
                        MethodPlan::Class => {},
                    }
                    let obj = self.compile_expr(object)?;
                    let symbol = plan_class_method(&self.state, object, method)?;
                    let f = match self.fn_slots.get(symbol.as_str()) {
                        Some(f) => *f,
                        None => return Err(error_naming("Unknown method: ", symbol.as_str())),
                    };
                    let null = self.log.const_null();
                    let mut call_args = vec![null, obj];
                    self.compile_args(args, &mut call_args)?;
                    let c = self.log.call(f, call_args, "call");
                    Ok(self.call_value(c))
                },
                _ => Err(error("Expected a method call")),
            },
            _ => Err(error("Expected a method call")),
        }
    }
}

} // verus!
