//! Lowering of lambdas into closures.

use vstd::prelude::*;
use crate::ast::Expr;
use crate::error::CodegenError;
use crate::codegen::{Codegen, error};
use crate::stmts::keeps_tables;
use crate::layout::{LlvmType, llvm_type, lambda_signature};
use crate::captures::identify_captures;
use crate::infer::infer_expr_type;
use crate::externs::LibcFn;
use crate::ir::CastOp;
use crate::tables::SymbolTable;

verus! {

broadcast use vstd::std_specs::vec::group_vec_axioms;

impl Codegen {
    /// Lowers a lambda: the variables it reads from the enclosing scope are
    /// copied into an environment allocated with `malloc`; its body becomes
    /// the function `__lambda_N`, which takes the environment first and
    /// returns the body's value (widened or narrowed to the inferred result
    /// type when both are integers). The value is the closure
    /// `{ function, environment }`.
    pub fn compile_lambda(&mut self, e: &Expr) -> (r: Result<usize, CodegenError>)
        requires
            old(self).wf(),
        ensures
            r is Ok && crate::ast::lambda_free(*e) ==> crate::ir::keeps_settled(old(self).log, final(self).log),
            crate::stmts::yields(*final(self), r),
            keeps_tables(*old(self), *final(self)),
            r is Ok ==> {
                &&& final(self).state.vars() == old(self).state.vars()
                &&& final(self).state.function() == old(self).state.function()
                &&& final(self).state.return_type() == old(self).state.return_type()
                &&& final(self).current_fn == old(self).current_fn
                &&& final(self).var_slots@ == old(self).var_slots@
            },
            r matches Ok(v) ==> final(self).log.ops_view()[v as int] is InsertValue,
            e matches Expr::Lambda { params, body } ==> (params@.len() == 0 && crate::exprs::int_literal(**body)
                && old(self).state.strings_named() < u32::MAX && old(self).state.lambdas_named() < u32::MAX ==> r is Ok),
        decreases e, 8int,
    {
        match e {
            Expr::Lambda { params, body } => {
                let captures = identify_captures(body, params, self.state.variables());
                let ghost simple = params@.len() == 0 && crate::exprs::int_literal(**body)
                    && old(self).state.strings_named() < u32::MAX && old(self).state.lambdas_named() < u32::MAX;
                proof {
                    if simple {
                        assert(crate::captures::capture_names(captures@).len() == captures@.len());
                        assert(crate::captures::spec_captures(**body, params@, old(self).state.vars()) =~= Seq::<Seq<char>>::empty());
                        assert(captures@.len() == 0);
                    }
                }
                let ret_ty = infer_expr_type(body, params, self.state.variables(), self.state.functions());
                let ret_llvm = llvm_type(&ret_ty);
                let mut env_types: Vec<LlvmType> = Vec::new();
                let mut i: usize = 0;
                while i < captures.len()
                    decreases captures@.len() - i,
                {
                    env_types.push(llvm_type(&captures[i].ty));
                    i = i + 1;
                }
                let env_ty = LlvmType::Struct(env_types);
                let malloc = self.libc(LibcFn::Malloc);
                let size = self.log.size_of(env_ty.duplicate());
                let env = self.log.call(malloc, vec![size], "env_ptr");
                let mut j: usize = 0;
                while j < captures.len()
                    invariant
                        keeps_tables(*old(self), *self),
                        self.state == old(self).state,
                        self.current_fn == old(self).current_fn,
                        self.var_slots == old(self).var_slots,
                        simple ==> captures@.len() == 0,
                        simple == (params@.len() == 0 && crate::exprs::int_literal(**body)
                            && old(self).state.strings_named() < u32::MAX && old(self).state.lambdas_named() < u32::MAX),
                        *e == (Expr::Lambda { params: *params, body: *body }),
                    decreases captures@.len() - j,
                {
                    let c = &captures[j];
                    let slot = self.var_slot(c.name.as_str())?;
                    let v = self.log.load(llvm_type(&c.ty), slot, c.name.as_str());
                    let p = self.field_address(&env_ty, env, j as u64, "capture");
                    self.log.store(p, v);
                    j = j + 1;
                }
                if !self.state.can_name_lambda() {
                    return Err(error("Too many lambdas"));
                }
                let saved_fn = self.current_fn;
                let name = self.state.fresh_lambda_name();
                let saved = self.state.enter_lambda(name.as_str(), &ret_ty);
                let mut saved_slots: SymbolTable<usize> = SymbolTable::new();
                std::mem::swap(&mut saved_slots, &mut self.var_slots);
                let f = self.add_function(name.as_str(), lambda_signature(params, &ret_ty));
                self.current_fn = Some(f);
                let entry = self.log.append_block(f, "entry");
                self.log.position_at_end(entry);
                let env_arg = match self.log.param(f, 0) {
                    Some(v) => v,
                    None => return Err(error("Missing parameter")),
                };
                let mut k: usize = 0;
                while k < captures.len()
                    invariant
                        keeps_tables(*old(self), *self),
                        saved_slots.wf(),
                        simple ==> captures@.len() == 0,
                        simple ==> self.state.strings_named() == old(self).state.strings_named(),
                        forall|n: Seq<char>| saved_slots@.contains_key(n) ==> #[trigger] saved_slots@[n] < self.log.ops_view().len(),
                    decreases captures@.len() - k,
                {
                    let c = &captures[k];
                    let p = self.field_address(&env_ty, env_arg, k as u64, "load_capture");
                    let slot = self.log.alloca(llvm_type(&c.ty), c.name.as_str());
                    let v = self.log.load(llvm_type(&c.ty), p, "cap_val");
                    self.log.store(slot, v);
                    self.bind(c.name.as_str(), c.ty.duplicate(), slot);
                    k = k + 1;
                }
                self.bind_params(f, params, 1)?;
                let result = self.compile_expr(body)?;
                let result_ty = self.type_of(result)?;
                let value = if !result_ty.same_as(&ret_llvm) && result_ty.is_int() && ret_llvm.is_int() {
                    if result_ty.int_width() < ret_llvm.int_width() {
                        self.log.cast(CastOp::ZeroExtend, result, ret_llvm, "ret_cast")
                    } else {
                        self.log.cast(CastOp::Truncate, result, ret_llvm, "ret_cast")
                    }
                } else {
                    result
                };
                self.log.ret(Some(value));
                self.current_fn = saved_fn;
                self.state.leave_lambda(saved);
                self.var_slots = saved_slots;
                match saved_fn {
                    Some(outer) => match self.log.last_block_of(outer) {
                        Some(b) => self.log.position_at_end(b),
                        None => {},
                    },
                    None => {},
                }
                let closure = self.log.undef(LlvmType::Struct(vec![LlvmType::Ptr, LlvmType::Ptr]));
                let fn_ptr = self.log.function_address(f);
                let closure = self.log.insert_value(closure, fn_ptr, 0, "fn");
                Ok(self.log.insert_value(closure, env, 1, "env"))
            },
            _ => Err(error("Expected a lambda")),
        }
    }
}

} // verus!
