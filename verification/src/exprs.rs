//! Lowering of expressions.

use vstd::prelude::*;
use crate::ast::{Type, TypeV, Expr, Stmt, Literal, Pattern, StringPart, BinOp, UnaryOp};
use crate::error::CodegenError;
use crate::codegen::{Codegen, error};
use crate::stmts::keeps_tables;
use crate::layout::{LlvmType, LlvmTypeV, llvm_type, class_struct_layout, spec_layout};
use crate::lowering::{
    ValueKind, BinaryLowering, UnaryLowering, IntPredicate, FloatPredicate, LiteralLowering,
    select_binary, select_unary, value_format, FormatPiece, interpolation_format,
    spec_binary_lowering, spec_unary_lowering,
};
use crate::dispatch::{plan_ident, plan_this, IdentPlan, resolve_field, plan_lvalue, LvaluePlan, resolve_lvalue_field, plan_construct, ConstructKind};
use crate::externs::LibcFn;
use crate::ir::{ArithOp, Op, InstrLog};
use crate::infer::this_string;

verus! {

broadcast use vstd::std_specs::vec::group_vec_axioms;

/// The name given to an integer comparison's result.
fn int_compare_name(p: IntPredicate) -> (r: &'static str)
    ensures
        r@ == (match p {
            IntPredicate::Eq => "eq"@,
            IntPredicate::Ne => "ne"@,
            IntPredicate::Slt => "lt"@,
            IntPredicate::Sle => "le"@,
            IntPredicate::Sgt => "gt"@,
            IntPredicate::Sge => "ge"@,
            IntPredicate::Uge => "uge"@,
        }),
{
    match p {
        IntPredicate::Eq => "eq",
        IntPredicate::Ne => "ne",
        IntPredicate::Slt => "lt",
        IntPredicate::Sle => "le",
        IntPredicate::Sgt => "gt",
        IntPredicate::Sge => "ge",
        IntPredicate::Uge => "uge",
    }
}

/// The name given to a floating-point comparison's result.
fn float_compare_name(p: FloatPredicate) -> (r: &'static str)
    ensures
        r@ == (match p {
            FloatPredicate::Oeq => "feq"@,
            FloatPredicate::One => "fne"@,
            FloatPredicate::Olt => "flt"@,
            FloatPredicate::Ole => "fle"@,
            FloatPredicate::Ogt => "fgt"@,
            FloatPredicate::Oge => "fge"@,
        }),
{
    match p {
        FloatPredicate::Oeq => "feq",
        FloatPredicate::One => "fne",
        FloatPredicate::Olt => "flt",
        FloatPredicate::Ole => "fle",
        FloatPredicate::Ogt => "fgt",
        FloatPredicate::Oge => "fge",
    }
}

/// What kind of value a value of type `t` is (a value of no known type
/// counts as an aggregate).
pub open spec fn value_kind(t: Option<LlvmType>) -> ValueKind {
    match t {
        Some(LlvmType::F64) => ValueKind::Float,
        Some(LlvmType::Ptr) => ValueKind::Pointer,
        Some(LlvmType::Struct(_)) => ValueKind::Aggregate,
        Some(_) => ValueKind::Int,
        None => ValueKind::Aggregate,
    }
}

/// `e` is a literal that becomes an integer constant: an integer, a
/// boolean, a character or `None`.
pub open spec fn int_literal(e: Expr) -> bool {
    e matches Expr::Literal(l) && !(l is String) && !(l is Float)
}

/// Lowering the literal `lit` changed nothing of `before` but the log and,
/// for a string, the count of string constants.
pub open spec fn literal_unchanged(before: Codegen, after: Codegen, lit: Literal) -> bool {
    &&& after.current_fn == before.current_fn
    &&& after.var_slots == before.var_slots
    &&& after.fn_slots == before.fn_slots
    &&& after.state.vars() == before.state.vars()
    &&& after.state.function() == before.state.function()
    &&& after.state.return_type() == before.state.return_type()
    &&& after.state.lambdas_named() == before.state.lambdas_named()
    &&& !(lit is String) ==> after.state.strings_named() == before.state.strings_named()
}

/// `?` applied to `inner` in `g` can be lowered: `inner` names an option
/// (or result) variable with a stack slot, inside a function returning an
/// option (or a result).
pub open spec fn tries_variable(g: Codegen, inner: Expr) -> bool {
    inner matches Expr::Ident(n) && g.state.vars().contains_key(n@) && g.var_slots@.contains_key(n@)
        && g.current_fn is Some && g.state.strings_named() < u32::MAX
        && ((g.state.vars()[n@] is Option && (g.state.return_type() matches Some(t) && t is Option))
            || (g.state.vars()[n@] is Result && (g.state.return_type() matches Some(t) && t is Result)))
}

/// Value `v` of `log` is a range object (see `range_initialised`) whose
/// step is the constant 1 and, for an inclusive range, whose end is the
/// given end plus the constant 1.
pub open spec fn unit_step_range(log: InstrLog, v: usize, inclusive: bool) -> bool {
    exists|s: usize, n: usize, st: usize| #[trigger] crate::builtins::range_initialised(log, v, s, n, st)
        && log.ops_view()[st as int] == (Op::ConstInt { ty: LlvmType::I64, value: 1, signed: false })
        && (inclusive ==> (log.ops_view()[n as int] matches Op::Arith { op: ArithOp::IntAdd, lhs: _, rhs: one, name: _ }
            && log.ops_view()[one as int] == (Op::ConstInt { ty: LlvmType::I64, value: 1, signed: false })))
}

/// The operator lowering an arithmetic instruction carries out.
pub open spec fn arith_lowering(a: ArithOp) -> BinaryLowering {
    match a {
        ArithOp::IntAdd => BinaryLowering::IntAdd,
        ArithOp::IntSub => BinaryLowering::IntSub,
        ArithOp::IntMul => BinaryLowering::IntMul,
        ArithOp::IntSignedDiv => BinaryLowering::IntSignedDiv,
        ArithOp::IntSignedRem => BinaryLowering::IntSignedRem,
        ArithOp::And => BinaryLowering::IntAnd,
        ArithOp::Or => BinaryLowering::IntOr,
        ArithOp::FloatAdd => BinaryLowering::FloatAdd,
        ArithOp::FloatSub => BinaryLowering::FloatSub,
        ArithOp::FloatMul => BinaryLowering::FloatMul,
        ArithOp::FloatDiv => BinaryLowering::FloatDiv,
    }
}

/// The kind of value `v` of `log`.
pub open spec fn kind_in(log: InstrLog, v: usize) -> ValueKind {
    value_kind(log.value_type_of(v))
}

/// Value `v` of `log` computes a binary `op` as the operator prescribes for
/// the operands it reads: the arithmetic instruction or comparison that
/// `spec_binary_lowering` picks for their kinds, or, for `+` of two
/// strings, the buffer the concatenation is written into.
pub open spec fn binary_lowered(log: InstrLog, op: BinOp, v: usize) -> bool {
    match log.ops_view()[v as int] {
        Op::Arith { op: a, lhs, rhs, name: _ } =>
            spec_binary_lowering(op, kind_in(log, lhs), kind_in(log, rhs)) == Some(arith_lowering(a)),
        Op::IntCompare { pred, lhs, rhs, name: _ } =>
            spec_binary_lowering(op, kind_in(log, lhs), kind_in(log, rhs)) == Some(BinaryLowering::IntCompare(pred)),
        Op::FloatCompare { pred, lhs, rhs, name: _ } =>
            spec_binary_lowering(op, kind_in(log, lhs), kind_in(log, rhs)) == Some(BinaryLowering::FloatCompare(pred)),
        Op::Call { function: _, args: _, name: _ } => op == BinOp::Add,
        _ => false,
    }
}

/// The values `vals`, from position `skip` on, are those of the arguments
/// `args` in order; a literal argument's value is the constant it denotes.
pub open spec fn literals_passed(log: InstrLog, vals: Seq<usize>, args: Seq<Expr>, skip: int) -> bool {
    forall|k: int| 0 <= k < args.len() && (#[trigger] args[k]) is Literal
        ==> materialises(args[k]->Literal_0, log.ops_view()[vals[skip + k] as int])
}

/// Value `v` of `log` combines the values `l` and `r`, in this order: an
/// arithmetic instruction or comparison with `l` on the left, or the
/// concatenation of the strings `l` and `r`.
pub open spec fn operands_of(log: InstrLog, v: usize, l: usize, r: usize) -> bool {
    match log.ops_view()[v as int] {
        Op::Arith { op: _, lhs, rhs, name: _ } => lhs == l && rhs == r,
        Op::IntCompare { pred: _, lhs, rhs, name: _ } => lhs == l && rhs == r,
        Op::FloatCompare { pred: _, lhs, rhs, name: _ } => lhs == l && rhs == r,
        Op::Call { function: _, args: _, name: _ } => crate::builtins::concatenated(log, v, l, r),
        _ => false,
    }
}

/// Value `v` of `log` combines the values of the operands `left` and
/// `right`, in this order (see `operands_of`), both computed before it; a
/// literal operand's value is the constant it denotes.
pub open spec fn binary_operands(log: InstrLog, v: usize, left: Expr, right: Expr) -> bool {
    exists|l: usize, r: usize| #[trigger] operands_of(log, v, l, r) && l < v && r < v
        && (left is Literal ==> materialises(left->Literal_0, log.ops_view()[l as int]))
        && (right is Literal ==> materialises(right->Literal_0, log.ops_view()[r as int]))
}

/// Value `v` of `log` computes a unary `op` as the operator prescribes for
/// the kind of its operand.
pub open spec fn unary_lowered(log: InstrLog, op: UnaryOp, v: usize) -> bool {
    match log.ops_view()[v as int] {
        Op::IntNeg { value, name: _ } => spec_unary_lowering(op, kind_in(log, value)) == Some(UnaryLowering::IntNeg),
        Op::FloatNeg { value, name: _ } => spec_unary_lowering(op, kind_in(log, value)) == Some(UnaryLowering::FloatNeg),
        Op::Not { value, name: _ } => op == UnaryOp::Not && kind_in(log, value) == ValueKind::Int,
        _ => false,
    }
}

/// `op` is the constant that a literal other than a string becomes:
/// integers `i64` (signed), booleans `i1`, characters and `None` `i8`,
/// floats `double`.
pub open spec fn materialises(lit: Literal, op: Op) -> bool {
    match lit {
        Literal::Integer(n) => op == (Op::ConstInt { ty: LlvmType::I64, value: n as u64, signed: true }),
        Literal::Boolean(b) => op == (Op::ConstInt { ty: LlvmType::I1, value: if b { 1u64 } else { 0u64 }, signed: false }),
        Literal::Char(c) => op == (Op::ConstInt { ty: LlvmType::I8, value: c as u32 as u64, signed: false }),
        Literal::NoneValue => op == (Op::ConstInt { ty: LlvmType::I8, value: 0u64, signed: false }),
        Literal::Float(f) => op == (Op::ConstFloat { bits: f }),
        Literal::String(_) => true,
    }
}

impl Codegen {
    /// What kind of value `v` is.
    pub fn kind_of(&self, v: usize) -> (k: ValueKind)
        ensures
            k == value_kind(self.log.value_type_of(v)),
    {
        match self.log.value_type(v) {
            Some(LlvmType::F64) => ValueKind::Float,
            Some(LlvmType::Ptr) => ValueKind::Pointer,
            Some(LlvmType::Struct(_)) => ValueKind::Aggregate,
            Some(_) => ValueKind::Int,
            None => ValueKind::Aggregate,
        }
    }

    /// The instance layout of the class declared under `class`.
    pub fn class_layout(&self, class: &str) -> (r: Result<LlvmType, CodegenError>)
        requires
            self.wf(),
        ensures
            r is Ok <==> self.state.class_map().contains_key(class@),
            r matches Ok(t) ==> t@ == LlvmTypeV::Struct(self.state.class_map()[class@].map_values(|f: (Seq<char>, TypeV)| spec_layout(f.1))),
            r matches Err(e) ==> e.message@ == "Unknown class: "@ + class@,
    {
        match self.state.classes().get(class) {
            Some(info) => {
                let fields = class_struct_layout(&info.fields);
                proof {
                    assert(self.state.class_map()[class@].map_values(|f: (Seq<char>, TypeV)| spec_layout(f.1))
                        =~= info.fields@.map_values(|f: crate::ast::Field| spec_layout(f.ty@)));
                }
                Ok(LlvmType::Struct(fields))
            },
            None => Err(crate::dispatch::error_naming("Unknown class: ", class)),
        }
    }

    /// Materialises a literal: integers are `i64`, booleans `i1`, characters
    /// and `None` `i8`, floats `double`; a string becomes a constant global
    /// `str.N`.
    pub fn compile_literal(&mut self, lit: &Literal) -> (r: Result<usize, CodegenError>)
        requires
            old(self).wf(),
        ensures
            final(self).log.position() == old(self).log.position(),
            crate::ir::keeps_settled(old(self).log, final(self).log),
            crate::stmts::yields(*final(self), r),
            keeps_tables(*old(self), *final(self)),
            r is Ok <==> old(self).state.strings_named() < u32::MAX,
            r matches Err(e) ==> e.message@ == "Too many string constants"@,
            r matches Ok(v) ==> materialises(*lit, final(self).log.ops_view()[v as int]),
            literal_unchanged(*old(self), *final(self), *lit),
            int_literal(Expr::Literal(*lit)) ==> (r matches Ok(v) ==> (final(self).log.value_type_of(v) matches Some(t) && t.is_int_spec())),
            lit is Integer ==> (r matches Ok(v) ==> (final(self).log.value_type_of(v) matches Some(t) && t@ == LlvmTypeV::I64)),
            lit is Float ==> (r matches Ok(v) ==> final(self).log.value_type_of(v) == Some(LlvmType::F64)),
            lit matches Literal::String(t) ==> (r matches Ok(v) ==> crate::codegen::names_text(final(self).log, v, t@)),
    {
        if !self.state.can_name_string() {
            return Err(error("Too many string constants"));
        }
        match self.state.lower_literal(lit) {
            LiteralLowering::ConstInt { bits, value } => {
                let ty = if bits == 1 {
                    LlvmType::I1
                } else if bits == 8 {
                    LlvmType::I8
                } else {
                    LlvmType::I64
                };
                Ok(self.log.const_int(ty, value, bits == 64))
            },
            LiteralLowering::ConstFloat { bits } => Ok(self.log.const_float(bits)),
            LiteralLowering::GlobalString { name, contents } => Ok(self.string_global(name.as_str(), contents.as_str(), true)),
        }
    }

    /// Lowers an expression to the value it computes.
    pub fn compile_expr(&mut self, e: &Expr) -> (r: Result<usize, CodegenError>)
        requires
            old(self).wf(),
        ensures
            crate::ast::access_path(*e) ==> crate::ir::keeps_settled(old(self).log, final(self).log),
            r is Ok && crate::ast::lambda_free(*e) ==> crate::ir::keeps_settled(old(self).log, final(self).log),
            crate::stmts::yields(*final(self), r),
            keeps_tables(*old(self), *final(self)),
            e is Literal ==> (r matches Ok(v) ==> materialises(e->Literal_0, final(self).log.ops_view()[v as int])),
            e is Literal ==> (r is Ok <==> old(self).state.strings_named() < u32::MAX),
            e is Literal ==> literal_unchanged(*old(self), *final(self), e->Literal_0),
            int_literal(*e) ==> (r matches Ok(v) ==> (final(self).log.value_type_of(v) matches Some(t) && t.is_int_spec())),
            e matches Expr::Literal(l) && l is Integer ==> (r matches Ok(v) ==> (final(self).log.value_type_of(v) matches Some(t) && t@ == LlvmTypeV::I64)),
            e matches Expr::Literal(l) && l is Float ==> (r matches Ok(v) ==> final(self).log.value_type_of(v) == Some(LlvmType::F64)),
            e matches Expr::Literal(Literal::String(t)) ==> (r matches Ok(v) ==> crate::codegen::names_text(final(self).log, v, t@)),
            e matches Expr::Binary { op, left: _, right: _ } ==> (r matches Ok(v) ==> binary_lowered(final(self).log, *op, v)),
            e matches Expr::Binary { op: _, left, right } ==> (r matches Ok(v) ==> binary_operands(final(self).log, v, **left, **right)),
            e matches Expr::Unary { op, expr: _ } ==> (r matches Ok(v) ==> unary_lowered(final(self).log, *op, v)),
            e matches Expr::Range { start: _, end: _, inclusive } ==> (r matches Ok(v) ==> unit_step_range(final(self).log, v, *inclusive)),
            e matches Expr::Ident(name) ==> (old(self).state.vars().contains_key(name@) && old(self).var_slots@.contains_key(name@) ==> {
                &&& r matches Ok(v)
                &&& final(self).log.ops_view()[v as int] matches Op::Load { ty: t, ptr: p, name: _ }
                &&& p == old(self).var_slots@[name@] && t@ == crate::layout::spec_layout(old(self).state.vars()[name@])
                &&& final(self).log.value_type_of(v) matches Some(vt) && vt@ == crate::layout::spec_layout(old(self).state.vars()[name@])
                &&& final(self).log.ops_view() == old(self).log.ops_view().push(final(self).log.ops_view()[v as int])
            }),
            e matches Expr::Ident(name) ==> (!old(self).state.vars().contains_key(name@) && !old(self).state.fns().contains_key(name@)
                ==> (r matches Err(x) && x.message@ == "Unknown variable: "@ + name@ && *final(self) == *old(self))),
        decreases e, 9int,
    {
        match e {
            Expr::Literal(lit) => self.compile_literal(lit),
            Expr::Ident(name) => match plan_ident(&self.state, name.as_str())? {
                IdentPlan::Variable(t) => {
                    let slot = self.var_slot(name.as_str())?;
                    Ok(self.log.load(llvm_type(&t), slot, name.as_str()))
                },
                IdentPlan::Function(t) => {
                    let f = match self.fn_slots.get(name.as_str()) {
                        Some(f) => *f,
                        None => return Err(crate::dispatch::error_naming("Unknown function: ", name.as_str())),
                    };
                    let closure = self.log.undef(llvm_type(&t));
                    let fn_ptr = self.log.function_address(f);
                    let null_env = self.log.const_null();
                    let closure = self.log.insert_value(closure, fn_ptr, 0, "fn");
                    Ok(self.log.insert_value(closure, null_env, 1, "env"))
                },
            },
            Expr::Binary { .. } => self.compile_binary(e),
            Expr::Unary { .. } => self.compile_unary(e),
            Expr::Call { .. } => self.compile_call(e),
            Expr::Field { .. } => self.compile_field(e),
            Expr::Index { .. } => self.compile_index(e),
            Expr::Construct { .. } => self.compile_construct(e),
            Expr::This => {
                plan_this(&self.state)?;
                let this = this_string();
                let slot = self.var_slot(this.as_str())?;
                Ok(self.log.load(LlvmType::Ptr, slot, "this"))
            },
            Expr::StringInterp(_) => self.compile_string_interp(e),
            Expr::Lambda { .. } => self.compile_lambda(e),
            Expr::Match { .. } => self.compile_match_expr(e),
            Expr::Try(_) => self.compile_try(e),
            Expr::Borrow(inner) => self.compile_lvalue(inner),
            Expr::MutBorrow(inner) => self.compile_lvalue(inner),
            Expr::Deref(inner) => {
                let p = self.compile_expr(inner)?;
                let p = self.expect_pointer(p)?;
                Ok(self.log.load(LlvmType::I64, p, "deref"))
            },
            Expr::Await(inner) => self.compile_expr(inner),
            Expr::AsyncBlock(body) => self.compile_async_block(body),
            Expr::Require { .. } => self.compile_require(e),
            Expr::Range { start, end, inclusive } => {
                let start_val = match start {
                    Some(s) => self.compile_expr(s)?,
                    None => self.log.const_int(LlvmType::I64, 0, false),
                };
                let end_val = match end {
                    Some(x) => self.compile_expr(x)?,
                    None => self.log.const_int(LlvmType::I64, 0, false),
                };
                let end_val = if *inclusive {
                    let one = self.log.const_int(LlvmType::I64, 1, false);
                    let ghost l_one = self.log;
                    let n = self.log.arith(ArithOp::IntAdd, end_val, one, "range_inclusive_end");
                    assert(self.log.ops_view()[one as int] == l_one.ops_view()[one as int]);
                    n
                } else {
                    end_val
                };
                let step = self.log.const_int(LlvmType::I64, 1, false);
                let ghost l_step = self.log;
                let v = self.create_range(start_val, end_val, step);
                proof {
                    assert(self.log.ops_view()[step as int] == l_step.ops_view()[step as int]);
                    assert(self.log.ops_view()[end_val as int] == l_step.ops_view()[end_val as int]);
                    if *inclusive {
                        let one = l_step.ops_view()[end_val as int]->Arith_rhs;
                        assert(self.log.ops_view()[one as int] == l_step.ops_view()[one as int]);
                    }
                    assert(crate::builtins::range_initialised(self.log, v, start_val, end_val, step));
                }
                Ok(v)
            },
            Expr::IfExpr { .. } => self.compile_if_expr(e),
            Expr::Block(body) => self.compile_block_value(body),
        }
    }

    /// Lowers the statements of a block; its value is that of its last
    /// expression statement (each statement is lowered once), or `i8 0`
    /// when it has none.
    pub fn compile_block_value(&mut self, body: &Vec<Stmt>) -> (r: Result<usize, CodegenError>)
        requires
            old(self).wf(),
        ensures
            r is Ok && crate::ast::stmts_lambda_free(body@) ==> crate::ir::keeps_settled(old(self).log, final(self).log),
            crate::stmts::yields(*final(self), r),
            keeps_tables(*old(self), *final(self)),
            body@.len() == 0 ==> (r matches Ok(v) && v == old(self).log.ops_view().len()
                && final(self).log.ops_view() == old(self).log.ops_view().push(Op::ConstInt { ty: LlvmType::I8, value: 0, signed: false })),
            body@.len() == 0 ==> (r matches Ok(v) && (final(self).log.value_type_of(v) matches Some(t) && t@ == LlvmTypeV::I8)) && crate::ir::types_kept(old(self).log, final(self).log),
        decreases body, 5int,
    {
        proof {
            crate::ast::lemma_stmts_lambda_free(body@);
        }
        let mut result = self.log.const_int(LlvmType::I8, 0, false);
        let mut i: usize = 0;
        while i < body.len()
            invariant
                crate::ast::stmts_lambda_free(body@) <==> forall|k: int| 0 <= k < body@.len() ==> crate::ast::stmt_lambda_free(#[trigger] body@[k]),
                crate::ast::stmts_lambda_free(body@) ==> crate::ir::keeps_settled(old(self).log, self.log),
                keeps_tables(*old(self), *self),
                body@.len() == 0 ==> result == old(self).log.ops_view().len() && self.log.ops_view() == old(self).log.ops_view().push(Op::ConstInt { ty: LlvmType::I8, value: 0, signed: false }),
                body@.len() == 0 ==> (self.log.value_type_of(result) matches Some(t) && t@ == LlvmTypeV::I8) && crate::ir::types_kept(old(self).log, self.log),
                result < self.log.ops_view().len(),
            decreases body@.len() - i,
        {
            match &body[i] {
                Stmt::Expr(x) => {
                    result = self.compile_expr(x)?;
                },
                st => {
                    self.compile_stmt(st)?;
                },
            }
            i = i + 1;
        }
        Ok(result)
    }

    /// Lowers an `async` block in place: a `return` gives the block its
    /// value instead of returning, and so does each expression statement.
    pub fn compile_async_block(&mut self, body: &Vec<Stmt>) -> (r: Result<usize, CodegenError>)
        requires
            old(self).wf(),
        ensures
            r is Ok && crate::ast::stmts_lambda_free(body@) ==> crate::ir::keeps_settled(old(self).log, final(self).log),
            crate::stmts::yields(*final(self), r),
            keeps_tables(*old(self), *final(self)),
            body@.len() == 0 ==> (r matches Ok(v) && v == old(self).log.ops_view().len()
                && final(self).log.ops_view() == old(self).log.ops_view().push(Op::ConstInt { ty: LlvmType::I8, value: 0, signed: false })),
        decreases body, 5int,
    {
        proof {
            crate::ast::lemma_stmts_lambda_free(body@);
        }
        let mut result = self.log.const_int(LlvmType::I8, 0, false);
        let mut i: usize = 0;
        while i < body.len()
            invariant
                crate::ast::stmts_lambda_free(body@) <==> forall|k: int| 0 <= k < body@.len() ==> crate::ast::stmt_lambda_free(#[trigger] body@[k]),
                crate::ast::stmts_lambda_free(body@) ==> crate::ir::keeps_settled(old(self).log, self.log),
                keeps_tables(*old(self), *self),
                body@.len() == 0 ==> result == old(self).log.ops_view().len() && self.log.ops_view() == old(self).log.ops_view().push(Op::ConstInt { ty: LlvmType::I8, value: 0, signed: false }),
                result < self.log.ops_view().len(),
            decreases body@.len() - i,
        {
            match &body[i] {
                Stmt::Return(Some(x)) => {
                    result = self.compile_expr(x)?;
                },
                Stmt::Return(None) => {
                    result = self.log.const_int(LlvmType::I8, 0, false);
                },
                Stmt::Expr(x) => {
                    result = self.compile_expr(x)?;
                },
                s => {
                    self.compile_stmt(s)?;
                },
            }
            i = i + 1;
        }
        Ok(result)
    }

    /// Lowers `require(cond, message)`: when the condition fails the message
    /// is printed and the program exits with status 1 (through `exit` if the
    /// module declares it); otherwise execution continues in `require.ok`.
    pub fn compile_require(&mut self, e: &Expr) -> (r: Result<usize, CodegenError>)
        requires
            old(self).wf(),
        ensures
            r is Ok && crate::ast::lambda_free(*e) ==> crate::ir::keeps_settled(old(self).log, final(self).log),
            crate::stmts::yields(*final(self), r),
            keeps_tables(*old(self), *final(self)),
            r is Ok ==> crate::stmts::continues_in(old(self).log, final(self).log, "require.ok"@),
            e matches Expr::Require { condition, message } ==> (int_literal(**condition) && crate::stmts::can_lower_constants(*old(self))
                && message is None ==> r is Ok),
        decreases e, 8int,
    {
        match e {
            Expr::Require { condition, message } => {
                let c = self.compile_expr(condition)?;
                let c = self.expect_int(c)?;
                let f = self.function_for("require")?;
                let ghost s1 = self.log;
                let ok_bb = self.log.append_block(f, "require.ok");
                let ghost s2 = self.log;
                let fail_bb = self.log.append_block(f, "require.fail");
                let ghost s3 = self.log;
                self.log.cond_branch(c, ok_bb, fail_bb);
                let ghost s4 = self.log;
                self.log.position_at_end(fail_bb);
                let ghost s5 = self.log;
                match message {
                    Some(m) => {
                        let printf = self.libc(LibcFn::Printf);
                        self.compile_print_arg(printf, m)?;
                        self.print_newline(printf)?;
                    },
                    None => {},
                }
                match self.module_fns.get("exit") {
                    Some(exit) => {
                        let exit = *exit;
                        let one = self.int_const(LlvmType::I32, 1);
                        self.log.call(exit, vec![one], "exit");
                    },
                    None => {},
                }
                self.log.unreachable();
                let ghost s6 = self.log;
                self.log.position_at_end(ok_bb);
                let ghost s7 = self.log;
                let zero = self.int_const(LlvmType::I8, 0);
                assert(self.log.ops_view()[ok_bb as int] == s2.ops_view()[ok_bb as int]);
                proof {
                    if crate::ast::lambda_free(*e) {
                        let a = old(self).log;
                        crate::ir::lemma_keeps_settled(a, s1);
                        crate::ir::lemma_settled_but_start(a, s1);
                        let p1 = crate::ir::position_set(s1);
                        crate::ir::lemma_settled_but_append(a, s1, s2, p1, ok_bb);
                        crate::ir::lemma_settled_but_append(a, s2, s3, p1.insert(ok_bb), fail_bb);
                        let p3 = p1.insert(ok_bb).insert(fail_bb);
                        crate::ir::lemma_settled_but_segment(a, s3, s4, p3);
                        let p4 = p3.difference(crate::ir::position_set(s3));
                        crate::ir::lemma_settled_but_move(a, s4, s5, p4);
                        crate::ir::lemma_settled_but_segment(a, s5, s6, p4);
                        let p6 = p4.difference(crate::ir::position_set(s5));
                        crate::ir::lemma_settled_but_move(a, s6, s7, p6);
                        crate::ir::lemma_settled_but_open(a, s7, self.log, p6);
                        let p8 = p6.difference(crate::ir::position_set(s7)).union(crate::ir::position_set(self.log));
                        assert(p8.subset_of(set![ok_bb]));
                        crate::ir::lemma_settled_but_done(a, self.log, p8, ok_bb);
                        crate::ir::lemma_keeps_settled(a, self.log);
                    }
                }
                Ok(zero)
            },
            _ => Err(error("Expected a require expression")),
        }
    }

    /// Lowers `if cond { .. } else { .. }` used as a value: each branch's
    /// value is that of its last expression statement, merged by a phi when
    /// both have the same type (otherwise the `then` value is used).
    pub fn compile_if_expr(&mut self, e: &Expr) -> (r: Result<usize, CodegenError>)
        requires
            old(self).wf(),
        ensures
            r is Ok && crate::ast::lambda_free(*e) ==> crate::ir::keeps_settled(old(self).log, final(self).log),
            crate::stmts::yields(*final(self), r),
            keeps_tables(*old(self), *final(self)),
            r is Ok ==> crate::stmts::continues_in(old(self).log, final(self).log, "if.merge"@),
            e matches Expr::IfExpr { condition, then_branch, else_branch } ==> (int_literal(**condition) && crate::stmts::can_lower_constants(*old(self))
                && then_branch@.len() == 0 && crate::stmts::no_statements(*else_branch) ==> r is Ok),
            e matches Expr::IfExpr { condition, then_branch: _, else_branch: _ } ==> (r is Ok ==> crate::stmts::branch_lowered(old(self).log, final(self).log, **condition, "if.then"@, "if.else"@)),
        decreases e, 8int,
    {
        match e {
            Expr::IfExpr { condition, then_branch, else_branch } => {
                let c = self.compile_expr(condition)?;
                let ghost s_c = self.log;
                let c = self.expect_int(c)?;
                assert(crate::stmts::condition_is(s_c, c, **condition));
                let f = self.function_for("if expression")?;
                let ghost s1 = self.log;
                let then_bb = self.log.append_block(f, "if.then");
                let ghost s2 = self.log;
                let else_bb = self.log.append_block(f, "if.else");
                let ghost s3 = self.log;
                let merge_bb = self.log.append_block(f, "if.merge");
                let ghost s4 = self.log;
                self.log.cond_branch(c, then_bb, else_bb);
                let ghost s5 = self.log;
                self.log.position_at_end(then_bb);
                let ghost s6 = self.log;
                let ghost branch_at = s4.ops_view().len() as int;
                assert(crate::stmts::cond_branch_at(old(self).log, s6, c, branch_at, "if.then"@, "if.else"@)) by {
                    assert(s6.ops_view()[then_bb as int] == s2.ops_view()[then_bb as int]);
                    assert(s6.ops_view()[else_bb as int] == s3.ops_view()[else_bb as int]);
                    assert(s6.ops_view()[branch_at] == s5.ops_view()[branch_at]);
                };
                let then_value = self.compile_block_value(then_branch)?;
                self.log.branch(merge_bb);
                let ghost s7 = self.log;
                let then_end = match self.log.insert_block() {
                    Some(b) => b,
                    None => then_bb,
                };
                self.log.position_at_end(else_bb);
                let ghost s8 = self.log;
                let else_value = match else_branch {
                    Some(b) => self.compile_block_value(b)?,
                    None => self.log.const_int(LlvmType::I8, 0, false),
                };
                self.log.branch(merge_bb);
                let ghost s9 = self.log;
                let else_end = match self.log.insert_block() {
                    Some(b) => b,
                    None => else_bb,
                };
                self.log.position_at_end(merge_bb);
                let ghost s10 = self.log;
                let tt = self.type_of(then_value)?;
                let et = self.type_of(else_value)?;
                let v = if tt.same_as(&et) {
                    self.log.phi(tt, vec![(then_value, then_end), (else_value, else_end)], "if.result")
                } else {
                    then_value
                };
                assert(self.log.ops_view()[merge_bb as int] == s4.ops_view()[merge_bb as int]);
                assert(crate::stmts::branch_lowered(old(self).log, self.log, **condition, "if.then"@, "if.else"@)) by {
                    crate::stmts::lemma_if_kept(old(self).log, s_c, self.log, c, branch_at, **condition);
                    crate::stmts::lemma_cond_branch_kept(old(self).log, s6, self.log, c, branch_at, "if.then"@, "if.else"@);
                };
                proof {
                    if crate::ast::lambda_free(*e) {
                        let a = old(self).log;
                        crate::ir::lemma_keeps_settled(a, s1);
                        crate::ir::lemma_settled_but_start(a, s1);
                        let p1 = crate::ir::position_set(s1);
                        crate::ir::lemma_settled_but_append(a, s1, s2, p1, then_bb);
                        crate::ir::lemma_settled_but_append(a, s2, s3, p1.insert(then_bb), else_bb);
                        crate::ir::lemma_settled_but_append(a, s3, s4, p1.insert(then_bb).insert(else_bb), merge_bb);
                        let p4 = p1.insert(then_bb).insert(else_bb).insert(merge_bb);
                        crate::ir::lemma_settled_but_segment(a, s4, s5, p4);
                        let p5 = p4.difference(crate::ir::position_set(s4));
                        crate::ir::lemma_settled_but_move(a, s5, s6, p5);
                        crate::ir::lemma_settled_but_segment(a, s6, s7, p5);
                        let p7 = p5.difference(crate::ir::position_set(s6));
                        crate::ir::lemma_settled_but_move(a, s7, s8, p7);
                        crate::ir::lemma_settled_but_segment(a, s8, s9, p7);
                        let p9 = p7.difference(crate::ir::position_set(s8));
                        crate::ir::lemma_settled_but_move(a, s9, s10, p9);
                        crate::ir::lemma_settled_but_open(a, s10, self.log, p9);
                        let p11 = p9.difference(crate::ir::position_set(s10)).union(crate::ir::position_set(self.log));
                        assert(p11.subset_of(set![merge_bb]));
                        crate::ir::lemma_settled_but_done(a, self.log, p11, merge_bb);
                        crate::ir::lemma_keeps_settled(a, self.log);
                    }
                }
                Ok(v)
            },
            _ => Err(error("Expected an if expression")),
        }
    }

    /// Lowers `left op right`: integer and floating-point operators become
    /// the instructions [`select_binary`] chooses; `+` on two strings
    /// concatenates them.
    pub fn compile_binary(&mut self, e: &Expr) -> (r: Result<usize, CodegenError>)
        requires
            old(self).wf(),
        ensures
            r is Ok && crate::ast::lambda_free(*e) ==> crate::ir::keeps_settled(old(self).log, final(self).log),
            crate::stmts::yields(*final(self), r),
            keeps_tables(*old(self), *final(self)),
            e matches Expr::Binary { op, left: _, right: _ } ==> (r matches Ok(v) ==> binary_lowered(final(self).log, *op, v)),
            e matches Expr::Binary { op: _, left, right } ==> (r matches Ok(v) ==> binary_operands(final(self).log, v, **left, **right)),
            !(e is Binary) ==> (r matches Err(x) && x.message@ == "Expected a binary expression"@),
        decreases e, 8int,
    {
        match e {
            Expr::Binary { op, left, right } => {
                let l = self.compile_expr(left)?;
                let ghost l_left = self.log;
                let r = self.compile_expr(right)?;
                let ghost l_right = self.log;
                let lk = self.kind_of(l);
                let rk = self.kind_of(r);
                let lowering = select_binary(*op, lk, rk)?;
                let v = match lowering {
                    BinaryLowering::IntAdd => self.log.arith(ArithOp::IntAdd, l, r, "add"),
                    BinaryLowering::IntSub => self.log.arith(ArithOp::IntSub, l, r, "sub"),
                    BinaryLowering::IntMul => self.log.arith(ArithOp::IntMul, l, r, "mul"),
                    BinaryLowering::IntSignedDiv => self.log.arith(ArithOp::IntSignedDiv, l, r, "div"),
                    BinaryLowering::IntSignedRem => self.log.arith(ArithOp::IntSignedRem, l, r, "mod"),
                    BinaryLowering::IntCompare(p) => self.log.int_compare(p, l, r, int_compare_name(p)),
                    BinaryLowering::IntAnd => self.log.arith(ArithOp::And, l, r, "and"),
                    BinaryLowering::IntOr => self.log.arith(ArithOp::Or, l, r, "or"),
                    BinaryLowering::FloatAdd => self.log.arith(ArithOp::FloatAdd, l, r, "fadd"),
                    BinaryLowering::FloatSub => self.log.arith(ArithOp::FloatSub, l, r, "fsub"),
                    BinaryLowering::FloatMul => self.log.arith(ArithOp::FloatMul, l, r, "fmul"),
                    BinaryLowering::FloatDiv => self.log.arith(ArithOp::FloatDiv, l, r, "fdiv"),
                    BinaryLowering::FloatCompare(p) => self.log.float_compare(p, l, r, float_compare_name(p)),
                    BinaryLowering::StringConcat => self.emit_concat(l, r),
                };
                proof {
                    let fin = self.log;
                    assert(fin.ops_view()[l as int] == l_left.ops_view()[l as int]);
                    assert(fin.ops_view()[r as int] == l_right.ops_view()[r as int]);
                    assert(operands_of(fin, v, l, r));
                }
                Ok(v)
            },
            _ => Err(error("Expected a binary expression")),
        }
    }

    /// Lowers `-x` and `!x`.
    pub fn compile_unary(&mut self, e: &Expr) -> (r: Result<usize, CodegenError>)
        requires
            old(self).wf(),
        ensures
            r is Ok && crate::ast::lambda_free(*e) ==> crate::ir::keeps_settled(old(self).log, final(self).log),
            crate::stmts::yields(*final(self), r),
            keeps_tables(*old(self), *final(self)),
            e matches Expr::Unary { op, expr: _ } ==> (r matches Ok(v) ==> unary_lowered(final(self).log, *op, v)),
            !(e is Unary) ==> (r matches Err(x) && x.message@ == "Expected a unary expression"@),
        decreases e, 8int,
    {
        match e {
            Expr::Unary { op, expr } => {
                let v = self.compile_expr(expr)?;
                let k = self.kind_of(v);
                if *op == crate::ast::UnaryOp::Not && k != ValueKind::Int {
                    return Err(error("Expected an integer value"));
                }
                let v = match select_unary(*op, k)? {
                    UnaryLowering::IntNeg => self.log.int_neg(v, "neg"),
                    UnaryLowering::FloatNeg => self.log.float_neg(v, "fneg"),
                    UnaryLowering::Not => self.log.not(v, "not"),
                };
                Ok(v)
            },
            _ => Err(error("Expected a unary expression")),
        }
    }

    /// Lowers `object.field`: the object's class, found from its type,
    /// gives the field's position and layout.
    pub fn compile_field(&mut self, e: &Expr) -> (r: Result<usize, CodegenError>)
        requires
            old(self).wf(),
        ensures
            crate::ast::access_path(*e) ==> crate::ir::keeps_settled(old(self).log, final(self).log),
            r is Ok && crate::ast::lambda_free(*e) ==> crate::ir::keeps_settled(old(self).log, final(self).log),
            crate::stmts::yields(*final(self), r),
            keeps_tables(*old(self), *final(self)),
            r matches Ok(v) ==> final(self).log.ops_view()[v as int] is Load,
            !(e is Field) ==> (r matches Err(x) && x.message@ == "Expected a field access"@),
        decreases e, 8int,
    {
        match e {
            Expr::Field { object, field } => {
                let obj = self.compile_expr(object)?;
                let obj = self.expect_pointer(obj)?;
                let access = resolve_field(&self.state, object, field.as_str(), false)?;
                let layout = self.class_layout(access.class.as_str())?;
                let p = self.field_address(&layout, obj, access.index as u64, field.as_str());
                Ok(self.log.load(access.layout, p, field.as_str()))
            },
            _ => Err(error("Expected a field access")),
        }
    }

    /// The address of `object.field`, for the field access `e`.
    pub fn compile_field_ptr(&mut self, e: &Expr) -> (r: Result<usize, CodegenError>)
        requires
            old(self).wf(),
        ensures
            (e matches Expr::Field { object, field: _ } && crate::ast::access_path(**object)) ==> crate::ir::keeps_settled(old(self).log, final(self).log),
            r is Ok && crate::ast::lambda_free(*e) ==> crate::ir::keeps_settled(old(self).log, final(self).log),
            crate::stmts::yields(*final(self), r),
            keeps_tables(*old(self), *final(self)),
            r matches Ok(v) ==> final(self).log.ops_view()[v as int] is Gep,
            !(e is Field) ==> (r matches Err(x) && x.message@ == "Expected a field access"@),
        decreases e, 8int,
    {
        match e {
            Expr::Field { object, field } => {
                let obj = self.compile_expr(object)?;
                let obj = self.expect_pointer(obj)?;
                let access = resolve_field(&self.state, object, field.as_str(), true)?;
                let layout = self.class_layout(access.class.as_str())?;
                Ok(self.field_address(&layout, obj, access.index as u64, field.as_str()))
            },
            _ => Err(error("Expected a field access")),
        }
    }

    /// Lowers `object[index]`: an `i64` element of the array at `object`.
    pub fn compile_index(&mut self, e: &Expr) -> (r: Result<usize, CodegenError>)
        requires
            old(self).wf(),
        ensures
            r is Ok && crate::ast::lambda_free(*e) ==> crate::ir::keeps_settled(old(self).log, final(self).log),
            crate::stmts::yields(*final(self), r),
            keeps_tables(*old(self), *final(self)),
            r matches Ok(v) ==> (final(self).log.ops_view()[v as int] is Load && (final(self).log.value_type_of(v) matches Some(t) && t@ == LlvmTypeV::I64)),
            !(e is Index) ==> (r matches Err(x) && x.message@ == "Expected an index expression"@),
        decreases e, 8int,
    {
        match e {
            Expr::Index { object, index } => {
                let obj = self.compile_expr(object)?;
                let obj = self.expect_pointer(obj)?;
                let idx = self.compile_expr(index)?;
                let idx = self.expect_int(idx)?;
                let p = self.log.gep(LlvmType::I64, obj, vec![idx], "elem");
                Ok(self.log.load(LlvmType::I64, p, "load"))
            },
            _ => Err(error("Expected an index expression")),
        }
    }

    /// The address an assignment to `e` writes: a variable's stack slot, or
    /// a field of an object held in a variable or in `this`.
    pub fn compile_lvalue(&mut self, e: &Expr) -> (r: Result<usize, CodegenError>)
        requires
            old(self).wf(),
        ensures
            r is Ok && crate::ast::lambda_free(*e) ==> crate::ir::keeps_settled(old(self).log, final(self).log),
            crate::stmts::yields(*final(self), r),
            keeps_tables(*old(self), *final(self)),
            e matches Expr::Ident(n) ==> (old(self).state.vars().contains_key(n@) ==> {
                &&& r is Ok <==> old(self).var_slots@.contains_key(n@)
                &&& r matches Ok(v) ==> v == old(self).var_slots@[n@]
                &&& r matches Err(x) ==> x.message@ == "Unknown variable: "@ + n@
                &&& *final(self) == *old(self)
            }),
            e matches Expr::Ident(n) ==> (!old(self).state.vars().contains_key(n@) ==> (r matches Err(x) && x.message@ == "Unknown variable: "@ + n@ && *final(self) == *old(self))),
            !(e is Ident || e is Field) ==> (r matches Err(x) && x.message@ == "Invalid lvalue"@ && *final(self) == *old(self)),
            e is Field ==> (r matches Ok(v) ==> final(self).log.ops_view()[v as int] is Gep),
        decreases e, 8int,
    {
        match plan_lvalue(&self.state, e)? {
            LvaluePlan::Variable => match e {
                Expr::Ident(n) => self.var_slot(n.as_str()),
                _ => Err(error("Invalid lvalue")),
            },
            LvaluePlan::Field { object: _, field: _ } => match e {
                Expr::Field { object, field } => {
                    let obj = self.compile_expr(object)?;
                    let obj = self.expect_pointer(obj)?;
                    let index = resolve_lvalue_field(&self.state, object, field.as_str())?;
                    let class = match &**object {
                        Expr::Ident(n) => self.var_type(n.as_str()),
                        Expr::This => {
                            let this = this_string();
                            self.var_type(this.as_str())
                        },
                        _ => None,
                    };
                    let layout = match class {
                        Some(Type::Named(c)) => self.class_layout(c.as_str())?,
                        _ => return Err(error("Cannot determine object type")),
                    };
                    Ok(self.field_address(&layout, obj, index as u64, field.as_str()))
                },
                _ => Err(error("Invalid lvalue")),
            },
        }
    }

    /// Lowers `new T(args)`: built-in containers and smart pointers are
    /// created empty; a class instance comes from its constructor, called
    /// with a null environment pointer first.
    pub fn compile_construct(&mut self, e: &Expr) -> (r: Result<usize, CodegenError>)
        requires
            old(self).wf(),
        ensures
            r is Ok && crate::ast::lambda_free(*e) ==> crate::ir::keeps_settled(old(self).log, final(self).log),
            crate::stmts::yields(*final(self), r),
            keeps_tables(*old(self), *final(self)),
            (e matches Expr::Construct { ty, args: _ } && crate::dispatch::spec_construct_kind(ty@) == ConstructKind::Constructor && !old(self).state.fns().contains_key(crate::text::spec_qualified(ty@, "new"@)))
                ==> (r matches Err(x) && x.message@ == "Unknown type: "@ + (e->Construct_ty)@ && *final(self) == *old(self)),
            (e matches Expr::Construct { ty, args: _ } && (crate::dispatch::spec_construct_kind(ty@) == ConstructKind::EmptyList || crate::dispatch::spec_construct_kind(ty@) == ConstructKind::EmptySet))
                ==> (r matches Ok(v) && (final(self).log.value_type_of(v) matches Some(t) && t@ == LlvmTypeV::Struct(seq![LlvmTypeV::I64, LlvmTypeV::I64, LlvmTypeV::Ptr]))),
            (e matches Expr::Construct { ty, args: _ } && crate::dispatch::spec_construct_kind(ty@) == ConstructKind::EmptyMap)
                ==> (r matches Ok(v) && (final(self).log.value_type_of(v) matches Some(t) && t@ == LlvmTypeV::Struct(seq![LlvmTypeV::I64, LlvmTypeV::I64, LlvmTypeV::Ptr, LlvmTypeV::Ptr]))),
            (e matches Expr::Construct { ty, args: _ } && crate::dispatch::spec_construct_kind(ty@) == ConstructKind::NoneOption)
                ==> (r matches Ok(v) && (final(self).log.value_type_of(v) matches Some(t) && t@ == LlvmTypeV::Struct(seq![LlvmTypeV::I8, LlvmTypeV::I64]))),
            (e matches Expr::Construct { ty, args: _ } && crate::dispatch::spec_construct_kind(ty@) == ConstructKind::DefaultResult)
                ==> (r matches Ok(v) && (final(self).log.value_type_of(v) matches Some(t) && t@ == LlvmTypeV::Struct(seq![LlvmTypeV::I8, LlvmTypeV::I64, LlvmTypeV::Ptr]))),
            (e matches Expr::Construct { ty, args: _ } && (crate::dispatch::spec_construct_kind(ty@) == ConstructKind::EmptyBox || crate::dispatch::spec_construct_kind(ty@) == ConstructKind::EmptyRc || crate::dispatch::spec_construct_kind(ty@) == ConstructKind::EmptyArc))
                ==> (r matches Ok(v) && final(self).log.ops_view()[v as int] is Call),
            !(e is Construct) ==> (r matches Err(x) && x.message@ == "Expected a construction"@),
        decreases e, 8int,
    {
        match e {
            Expr::Construct { ty, args } => {
                let (kind, symbol) = plan_construct(&self.state, ty.as_str())?;
                match kind {
                    ConstructKind::EmptyList => self.create_empty_collection("list"),
                    ConstructKind::EmptyMap => self.create_empty_map(),
                    ConstructKind::NoneOption => self.create_option_none(),
                    ConstructKind::DefaultResult => self.create_default_result(),
                    ConstructKind::EmptySet => self.create_empty_collection("set"),
                    ConstructKind::EmptyBox => Ok(self.malloc_bytes(8, "box")),
                    ConstructKind::EmptyRc => Ok(self.malloc_bytes(16, "rc")),
                    ConstructKind::EmptyArc => Ok(self.malloc_bytes(16, "arc")),
                    ConstructKind::Constructor => {
                        let name = match symbol {
                            Some(s) => s,
                            None => return Err(crate::dispatch::error_naming("Unknown type: ", ty.as_str())),
                        };
                        let f = match self.fn_slots.get(name.as_str()) {
                            Some(f) => *f,
                            None => return Err(crate::dispatch::error_naming("Unknown type: ", ty.as_str())),
                        };
                        let null = self.log.const_null();
                        let mut call_args = vec![null];
                        self.compile_args(args, &mut call_args)?;
                        Ok(self.log.call(f, call_args, "new"))
                    },
                }
            },
            _ => Err(error("Expected a construction")),
        }
    }

    /// Evaluates `args` in order, appending their values to `out`.
    pub fn compile_args(&mut self, args: &Vec<Expr>, out: &mut Vec<usize>) -> (r: Result<(), CodegenError>)
        requires
            old(self).wf(),
        ensures
            r is Ok && crate::ast::exprs_lambda_free(args@) ==> crate::ir::keeps_settled(old(self).log, final(self).log),
            keeps_tables(*old(self), *final(self)),
            args@.len() == 0 ==> r is Ok && *final(self) == *old(self) && final(out)@ == old(out)@,
            r is Ok ==> final(out)@.len() == old(out)@.len() + args@.len() && final(out)@.subrange(0, old(out)@.len() as int) == old(out)@,
            r is Ok ==> forall|k: int| old(out)@.len() <= k < final(out)@.len() ==> #[trigger] final(out)@[k] < final(self).log.ops_view().len(),
            r is Ok ==> literals_passed(final(self).log, final(out)@, args@, old(out)@.len() as int),
        decreases args, 6int,
    {
        proof {
            crate::ast::lemma_exprs_lambda_free(args@);
        }
        let mut i: usize = 0;
        while i < args.len()
            invariant
                i <= args@.len(),
                out@.len() == old(out)@.len() + i,
                out@.subrange(0, old(out)@.len() as int) == old(out)@,
                forall|k: int| old(out)@.len() <= k < out@.len() ==> #[trigger] out@[k] < self.log.ops_view().len(),
                args@.len() == 0 ==> *self == *old(self),
                crate::ast::exprs_lambda_free(args@) <==> forall|k: int| 0 <= k < args@.len() ==> crate::ast::lambda_free(#[trigger] args@[k]),
                crate::ast::exprs_lambda_free(args@) ==> crate::ir::keeps_settled(old(self).log, self.log),
                keeps_tables(*old(self), *self),
                literals_passed(self.log, out@, args@.subrange(0, i as int), old(out)@.len() as int),
            decreases args@.len() - i,
        {
            let ghost l_before = self.log;
            let ghost o_before = out@;
            let v = self.compile_expr(&args[i])?;
            out.push(v);
            proof {
                let n = old(out)@.len() as int;
                assert forall|k: int| 0 <= k < i + 1 && (#[trigger] args@.subrange(0, i + 1)[k]) is Literal implies
                    materialises(args@.subrange(0, i + 1)[k]->Literal_0, self.log.ops_view()[out@[n + k] as int]) by {
                    if k < i {
                        assert(args@.subrange(0, i + 1)[k] == args@.subrange(0, i as int)[k]);
                        assert(out@[n + k] == o_before[n + k]);
                        assert(self.log.ops_view()[out@[n + k] as int] == l_before.ops_view()[out@[n + k] as int]);
                    } else {
                        assert(args@.subrange(0, i + 1)[k] == args@[i as int]);
                    }
                }
            }
            i = i + 1;
        }
        assert(args@.subrange(0, args@.len() as int) =~= args@);
        Ok(())
    }

    /// Prints one value with `printf`: integers as `%lld`, floats as `%f`,
    /// anything else as a string, through a fresh format global `fmt.N`.
    pub fn compile_print_arg(&mut self, printf: usize, arg: &Expr) -> (r: Result<(), CodegenError>)
        requires
            old(self).wf(),
        ensures
            r is Ok && crate::ast::lambda_free(*arg) ==> crate::ir::keeps_settled(old(self).log, final(self).log),
            keeps_tables(*old(self), *final(self)),
            r is Ok ==> final(self).log.ops_view().len() > old(self).log.ops_view().len()
                && (final(self).log.ops_view().last() matches Op::Call { function: g, args: a, name: _ } && g == printf && a@.len() == 2),
        decreases arg, 10int,
    {
        let v = self.compile_expr(arg)?;
        let k = self.kind_of(v);
        let fmt = self.format_global("fmt.", value_format(k))?;
        self.log.call(printf, vec![fmt, v], "printf");
        Ok(())
    }

    /// Prints a newline with `printf`, through a fresh global `nl.N`.
    pub fn print_newline(&mut self, printf: usize) -> (r: Result<(), CodegenError>)
        requires
            old(self).wf(),
        ensures
            final(self).log.position() == old(self).log.position(),
            crate::ir::keeps_settled(old(self).log, final(self).log),
            keeps_tables(*old(self), *final(self)),
            r is Ok <==> old(self).state.strings_named() < u32::MAX,
            r matches Err(e) ==> e.message@ == "Too many string constants"@,
            r is Ok ==> (final(self).log.ops_view().last() matches Op::Call { function, args, name: _ } && function == printf && args@.len() == 1),
    {
        let nl = self.format_global("nl.", "\n")?;
        self.log.call(printf, vec![nl], "printf");
        Ok(())
    }

    /// Lowers `print(args)` and `println(args)`: each argument is printed in
    /// turn, then a newline for `println`; the value is `i32 0`.
    pub fn compile_print(&mut self, args: &Vec<Expr>, newline: bool) -> (r: Result<usize, CodegenError>)
        requires
            old(self).wf(),
        ensures
            r is Ok && crate::ast::exprs_lambda_free(args@) ==> crate::ir::keeps_settled(old(self).log, final(self).log),
            crate::stmts::yields(*final(self), r),
            keeps_tables(*old(self), *final(self)),
            r matches Ok(v) ==> final(self).log.ops_view()[v as int] == (Op::ConstInt { ty: LlvmType::I32, value: 0, signed: false }),
            args@.len() == 0 ==> (r is Ok <==> (!newline || old(self).state.strings_named() < u32::MAX)),
        decreases args, 6int,
    {
        proof {
            crate::ast::lemma_exprs_lambda_free(args@);
        }
        let printf = self.libc(LibcFn::Printf);
        let mut i: usize = 0;
        while i < args.len()
            invariant
                args@.len() == 0 ==> self.state.strings_named() == old(self).state.strings_named(),
                crate::ast::exprs_lambda_free(args@) <==> forall|k: int| 0 <= k < args@.len() ==> crate::ast::lambda_free(#[trigger] args@[k]),
                crate::ast::exprs_lambda_free(args@) ==> crate::ir::keeps_settled(old(self).log, self.log),
                keeps_tables(*old(self), *self),
            decreases args@.len() - i,
        {
            self.compile_print_arg(printf, &args[i])?;
            i = i + 1;
        }
        if newline {
            self.print_newline(printf)?;
        }
        Ok(self.int_const(LlvmType::I32, 0))
    }

    /// Lowers an interpolated string: the parts are formatted with
    /// `sprintf` into a fresh 4096-byte buffer, text with `%` doubled and
    /// each value by its conversion.
    #[verifier::loop_isolation(false)]
    pub fn compile_string_interp(&mut self, e: &Expr) -> (r: Result<usize, CodegenError>)
        requires
            old(self).wf(),
        ensures
            r is Ok && crate::ast::lambda_free(*e) ==> crate::ir::keeps_settled(old(self).log, final(self).log),
            crate::stmts::yields(*final(self), r),
            keeps_tables(*old(self), *final(self)),
            e matches Expr::StringInterp(parts) ==> ((forall|k: int| 0 <= k < parts@.len() ==> #[trigger] parts@[k] is Literal) && old(self).state.strings_named() < u32::MAX ==> r is Ok),
            r matches Ok(v) ==> final(self).log.ops_view()[v as int] is Call && (final(self).log.ops_view().last() matches Op::Call { function: _, args: a, name: _ } && a@.len() >= 2 && a@[0] == v),
        decreases e, 8int,
    {
        match e {
            Expr::StringInterp(parts) => {
                let mut pieces: Vec<FormatPiece> = Vec::new();
                let mut values: Vec<usize> = Vec::new();
                let mut i: usize = 0;
                proof {
                    crate::ast::lemma_parts_lambda_free(parts@);
                }
                while i < parts.len()
                    invariant
                        keeps_tables(*old(self), *self),
                        crate::ast::parts_lambda_free(parts@) <==> forall|k: int| 0 <= k < parts@.len() ==> (#[trigger] parts@[k] matches StringPart::Expr(x) ==> crate::ast::lambda_free(x)),
                        crate::ast::parts_lambda_free(parts@) ==> crate::ir::keeps_settled(old(self).log, self.log),
                        i <= parts@.len(),
                        (forall|k: int| 0 <= k < i ==> #[trigger] parts@[k] is Literal) ==> *self == *old(self),
                    decreases parts@.len() - i,
                {
                    match &parts[i] {
                        StringPart::Literal(s) => pieces.push(FormatPiece::Text(s.clone())),
                        StringPart::Expr(x) => {
                            let v = self.compile_expr(x)?;
                            pieces.push(FormatPiece::Value(self.kind_of(v)));
                            values.push(v);
                        },
                    }
                    i = i + 1;
                }
                let sprintf = self.libc(LibcFn::Sprintf);
                let malloc = self.libc(LibcFn::Malloc);
                let size = self.log.const_int(LlvmType::I64, 4096, false);
                let buffer = self.log.call(malloc, vec![size], "strbuf");
                let ghost with_buffer = self.log;
                let format = interpolation_format(&pieces);
                let fmt = self.format_global("fmt.", format.as_str())?;
                let mut args = vec![buffer, fmt];
                let mut j: usize = 0;
                while j < values.len()
                    invariant
                        args@.len() >= 2,
                        args@[0] == buffer,
                    decreases values@.len() - j,
                {
                    args.push(values[j]);
                    j = j + 1;
                }
                self.log.call(sprintf, args, "sprintf");
                assert(self.log.ops_view()[buffer as int] == with_buffer.ops_view()[buffer as int]);
                Ok(buffer)
            },
            _ => Err(error("Expected an interpolated string")),
        }
    }

    /// Lowers a `match` used as a value: the first arm with a catch-all
    /// pattern whose body ends in an expression gives the value; catch-all
    /// arms before it run their statements; without one the value is
    /// `i64 0`.
    #[verifier::loop_isolation(false)]
    pub fn compile_match_expr(&mut self, e: &Expr) -> (r: Result<usize, CodegenError>)
        requires
            old(self).wf(),
        ensures
            r is Ok && crate::ast::lambda_free(*e) ==> crate::ir::keeps_settled(old(self).log, final(self).log),
            crate::stmts::yields(*final(self), r),
            keeps_tables(*old(self), *final(self)),
            (e matches Expr::Match { expr: _, arms } && forall|k: int| 0 <= k < arms@.len() ==> !(#[trigger] arms@[k].pattern is Wildcard) && !(arms@[k].pattern is Ident))
                ==> (r matches Ok(v) ==> final(self).log.ops_view()[v as int] == (Op::ConstInt { ty: LlvmType::I64, value: 0, signed: false })),
            e matches Expr::Match { expr, arms } ==> (int_literal(**expr) && old(self).state.strings_named() < u32::MAX && arms@.len() == 0 ==> r is Ok),
        decreases e, 8int,
    {
        match e {
            Expr::Match { expr, arms } => {
                self.compile_expr(expr)?;
                let ghost lf = crate::ast::lambda_free(*e);
                proof {
                    crate::ast::lemma_arms_lambda_free(arms@);
                }
                let mut i: usize = 0;
                while i < arms.len()
                    invariant
                        keeps_tables(*old(self), *self),
                        lf ==> crate::ir::keeps_settled(old(self).log, self.log),
                    decreases arms@.len() - i,
                {
                    let arm = &arms[i];
                    let catch_all = match &arm.pattern {
                        Pattern::Wildcard => true,
                        Pattern::Ident(_) => true,
                        _ => false,
                    };
                    if catch_all {
                        let body = &arm.body;
                        proof {
                            crate::ast::lemma_stmts_lambda_free(body@);
                        }
                        let mut j: usize = 0;
                        while j < body.len()
                            invariant
                                keeps_tables(*old(self), *self),
                                lf ==> crate::ir::keeps_settled(old(self).log, self.log),
                            decreases body@.len() - j,
                        {
                            if j + 1 == body.len() {
                                match &body[j] {
                                    Stmt::Expr(x) => {
                                        return self.compile_expr(x);
                                    },
                                    _ => {},
                                }
                            }
                            self.compile_stmt(&body[j])?;
                            j = j + 1;
                        }
                    }
                    i = i + 1;
                }
                Ok(self.log.const_int(LlvmType::I64, 0, false))
            },
            _ => Err(error("Expected a match expression")),
        }
    }

    /// Lowers `inner?`: when the option or result `inner` holds no value the
    /// function returns `None`, or an error carrying `inner`'s error; else
    /// the expression's value is the held value.
    #[verifier::spinoff_prover]
    #[verifier::rlimit(100)]
    pub fn compile_try(&mut self, e: &Expr) -> (r: Result<usize, CodegenError>)
        requires
            old(self).wf(),
        ensures
            r is Ok && crate::ast::lambda_free(*e) ==> crate::ir::keeps_settled(old(self).log, final(self).log),
            crate::stmts::yields(*final(self), r),
            keeps_tables(*old(self), *final(self)),
            r is Ok ==> crate::stmts::continues_in(old(self).log, final(self).log, "try.merge"@),
            (e is Try && (old(self).current_fn is None || old(self).state.return_type() is None)) ==> (r matches Err(x) && x.message@ == "? operator used outside function"@ && *final(self) == *old(self)),
            e matches Expr::Try(inner) ==> (tries_variable(*old(self), **inner) ==> r is Ok),
            r matches Ok(v) ==> (final(self).log.ops_view()[v as int] matches Op::ExtractValue { aggregate: _, index: i, name: _ } && i == 1),
            r is Ok ==> exists|k: int| old(self).log.ops_view().len() <= k < final(self).log.ops_view().len()
                && (#[trigger] final(self).log.ops_view()[k] matches Op::Return { value: _ }),
        decreases e, 8int,
    {
        match e {
            Expr::Try(inner) => {
                let f = match self.current_fn {
                    Some(f) => f,
                    None => return Err(error("? operator used outside function")),
                };
                let ret_ty = match self.state.current_return_type() {
                    Some(t) => t.duplicate(),
                    None => return Err(error("? operator used outside function")),
                };
                let value = self.compile_expr(inner)?;
                let ghost l_value = self.log;
                proof {
                    if tries_variable(*old(self), **inner) {
                        let vt = self.log.value_type_of(value)->0;
                        let fs = vt->Struct_0;
                        crate::layout::lemma_views_len(fs@);
                        crate::layout::lemma_views_index(fs@, 0);
                    }
                }
                let tag = self.extract(value, 0, "tag")?;
                proof {
                    if tries_variable(*old(self), **inner) {
                        let tt = self.log.value_type_of(tag)->0;
                        assert(tt@ == LlvmTypeV::I8);
                        assert(tt is I8);
                    }
                }
                let extracted = self.extract(value, 1, "unwrapped")?;
                let ghost l_extracted = self.log;
                let err_val = match &ret_ty {
                    Type::Result(_, _) => Some(self.extract(value, 2, "err_val")?),
                    _ => None,
                };
                let tag = self.expect_int(tag)?;
                let one = self.int_const(LlvmType::I8, 1);
                let held = self.log.int_compare(IntPredicate::Eq, tag, one, "is_some_or_ok");
                let ghost s1 = self.log;
                let success_bb = self.log.append_block(f, "try.success");
                let ghost s2 = self.log;
                let error_bb = self.log.append_block(f, "try.error");
                let ghost s3 = self.log;
                let merge_bb = self.log.append_block(f, "try.merge");
                let ghost s4 = self.log;
                self.log.cond_branch(held, success_bb, error_bb);
                let ghost s5 = self.log;
                self.log.position_at_end(error_bb);
                let ghost s6 = self.log;
                match &ret_ty {
                    Type::Option(inner_ty) => {
                        let opt_ty = LlvmType::Struct(vec![LlvmType::I8, llvm_type(inner_ty)]);
                        let slot = self.log.alloca(opt_ty.duplicate(), "none_ret");
                        let zero = self.int_const(LlvmType::I8, 0);
                        self.store_field(&opt_ty, slot, 0, "tag", zero);
                        let loaded = self.log.load(opt_ty, slot, "ret");
                        self.log.ret(Some(loaded));
                    },
                    Type::Result(ok_ty, err_ty) => {
                        let res_ty = LlvmType::Struct(vec![LlvmType::I8, llvm_type(ok_ty), llvm_type(err_ty)]);
                        let err_val = match err_val {
                            Some(x) => x,
                            None => return Err(error("Expected a struct value")),
                        };
                        let slot = self.log.alloca(res_ty.duplicate(), "err_ret");
                        let zero = self.int_const(LlvmType::I8, 0);
                        self.store_field(&res_ty, slot, 0, "tag", zero);
                        self.store_field(&res_ty, slot, 2, "err", err_val);
                        let loaded = self.log.load(res_ty, slot, "ret");
                        self.log.ret(Some(loaded));
                    },
                    _ => return Err(error("? operator can only be used in functions returning Option or Result")),
                }
                let ghost s7 = self.log;
                let ghost ret_at = s7.ops_view().len() - 1;
                self.log.position_at_end(success_bb);
                let ghost s8 = self.log;
                self.log.branch(merge_bb);
                let ghost s9 = self.log;
                self.log.position_at_end(merge_bb);
                assert(self.log.ops_view()[merge_bb as int] == s4.ops_view()[merge_bb as int]);
                assert(self.log.ops_view()[extracted as int] == l_extracted.ops_view()[extracted as int]);
                assert(self.log.ops_view()[ret_at] == s7.ops_view()[ret_at]);
                proof {
                    if crate::ast::lambda_free(*e) {
                        let a = old(self).log;
                        crate::ir::lemma_keeps_settled(a, s1);
                        crate::ir::lemma_settled_but_start(a, s1);
                        let p1 = crate::ir::position_set(s1);
                        crate::ir::lemma_settled_but_append(a, s1, s2, p1, success_bb);
                        crate::ir::lemma_settled_but_append(a, s2, s3, p1.insert(success_bb), error_bb);
                        crate::ir::lemma_settled_but_append(a, s3, s4, p1.insert(success_bb).insert(error_bb), merge_bb);
                        let p4 = p1.insert(success_bb).insert(error_bb).insert(merge_bb);
                        crate::ir::lemma_settled_but_segment(a, s4, s5, p4);
                        let p5 = p4.difference(crate::ir::position_set(s4));
                        crate::ir::lemma_settled_but_move(a, s5, s6, p5);
                        crate::ir::lemma_settled_but_segment(a, s6, s7, p5);
                        let p7 = p5.difference(crate::ir::position_set(s6));
                        crate::ir::lemma_settled_but_move(a, s7, s8, p7);
                        crate::ir::lemma_settled_but_segment(a, s8, s9, p7);
                        let p9 = p7.difference(crate::ir::position_set(s8));
                        crate::ir::lemma_settled_but_move(a, s9, self.log, p9);
                        assert(p9.subset_of(set![merge_bb]));
                        crate::ir::lemma_settled_but_done(a, self.log, p9, merge_bb);
                        crate::ir::lemma_keeps_settled(a, self.log);
                    }
                }
                Ok(extracted)
            },
            _ => Err(error("Expected a ? expression")),
        }
    }
}

} // verus!
