//! The built-in types: options, results, lists, maps, sets and smart
//! pointers, and their methods.
//!
//! An option is `{ i8 tag, T }` and a result `{ i8 tag, T, E }` with tag 1
//! for `Some`/`Ok`; a list or a set is `{ i64 capacity, i64 length, ptr
//! data }` and a map `{ i64 capacity, i64 length, ptr keys, ptr values }`,
//! with 8-byte elements.

use vstd::prelude::*;
use crate::ast::{Type, Expr};
use crate::error::CodegenError;
use crate::codegen::{Codegen, error, reads_field, tests_tag_zero, lemma_reads_field_kept, stores_field, stored_value, addresses_field};
use crate::ir::InstrLog;
use crate::stmts::keeps_tables;
use crate::layout::{LlvmType, LlvmTypeV, llvm_type};
use crate::lowering::IntPredicate;
use crate::externs::LibcFn;
use crate::ir::{ArithOp, Op};
use crate::dispatch::error_naming;
use crate::matching::{TAG_SOME, TAG_NONE, TAG_OK, TAG_ERROR};
use crate::text::str_eq;

verus! {

broadcast use vstd::std_specs::vec::group_vec_axioms;

/// The layout of a list or a set.
pub fn list_layout() -> (t: LlvmType)
    ensures
        t@ == LlvmTypeV::Struct(seq![LlvmTypeV::I64, LlvmTypeV::I64, LlvmTypeV::Ptr]),
{
    let fields = vec![LlvmType::I64, LlvmType::I64, LlvmType::Ptr];
    proof {
        crate::layout::lemma_views_len(fields@);
        crate::layout::lemma_views_index(fields@, 0);
        crate::layout::lemma_views_index(fields@, 1);
        crate::layout::lemma_views_index(fields@, 2);
        assert(crate::layout::llvm_views(fields@) =~= seq![LlvmTypeV::I64, LlvmTypeV::I64, LlvmTypeV::Ptr]);
    }
    LlvmType::Struct(fields)
}

/// The layout of a map.
pub fn map_layout() -> (t: LlvmType)
    ensures
        t@ == LlvmTypeV::Struct(seq![LlvmTypeV::I64, LlvmTypeV::I64, LlvmTypeV::Ptr, LlvmTypeV::Ptr]),
{
    let fields = vec![LlvmType::I64, LlvmType::I64, LlvmType::Ptr, LlvmType::Ptr];
    proof {
        crate::layout::lemma_views_len(fields@);
        crate::layout::lemma_views_index(fields@, 0);
        crate::layout::lemma_views_index(fields@, 1);
        crate::layout::lemma_views_index(fields@, 2);
        crate::layout::lemma_views_index(fields@, 3);
        assert(crate::layout::llvm_views(fields@) =~= seq![LlvmTypeV::I64, LlvmTypeV::I64, LlvmTypeV::Ptr, LlvmTypeV::Ptr]);
    }
    LlvmType::Struct(fields)
}

/// The layout of an option holding a value of layout `inner`:
/// `{ i8 tag, inner }`.
pub fn option_layout(inner: LlvmType) -> (t: LlvmType)
    ensures
        t@ == LlvmTypeV::Struct(seq![LlvmTypeV::I8, inner@]),
{
    let fields = vec![LlvmType::I8, inner];
    proof {
        crate::layout::lemma_views_len(fields@);
        crate::layout::lemma_views_index(fields@, 0);
        crate::layout::lemma_views_index(fields@, 1);
        assert(crate::layout::llvm_views(fields@) =~= seq![LlvmTypeV::I8, inner@]);
    }
    LlvmType::Struct(fields)
}

/// The layout of a result whose ok value has layout `ok`:
/// `{ i8 tag, ok, ptr error }`.
pub fn result_layout(ok: LlvmType) -> (t: LlvmType)
    ensures
        t@ == LlvmTypeV::Struct(seq![LlvmTypeV::I8, ok@, LlvmTypeV::Ptr]),
{
    let fields = vec![LlvmType::I8, ok, LlvmType::Ptr];
    proof {
        crate::layout::lemma_views_len(fields@);
        crate::layout::lemma_views_index(fields@, 0);
        crate::layout::lemma_views_index(fields@, 1);
        crate::layout::lemma_views_index(fields@, 2);
        assert(crate::layout::llvm_views(fields@) =~= seq![LlvmTypeV::I8, ok@, LlvmTypeV::Ptr]);
    }
    LlvmType::Struct(fields)
}

/// Value `e` of `log` is the address of element `i` (an `i64`) of the
/// storage whose pointer field 2 of the struct at `base` holds:
/// `getelementptr i8 data, i * 8`.
pub open spec fn element_of(log: InstrLog, e: int, base: usize, i: usize) -> bool {
    let ops = log.ops_view();
    ops[e] matches Op::Gep { ty: _, ptr: d, indices: ix, name: _ } && ix@.len() == 1 && reads_field(log, d, base, 2)
        && (ops[ix@[0] as int] matches Op::Arith { op, lhs, rhs: _, name: _ } && op == ArithOp::IntMul && lhs == i)
}

/// Op `k` of `log` stores back into the length field (1) of the struct at
/// `base` the length read from it, combined with the constant 1 by `op`.
pub open spec fn updates_length(log: InstrLog, k: int, base: usize, op: ArithOp) -> bool {
    let ops = log.ops_view();
    ops[k] matches Op::Store { ptr: p, value: n } && addresses_field(log, p, base, 1)
        && (ops[n as int] matches Op::Arith { op: o, lhs: l, rhs: one, name: _ } && o == op && reads_field(log, l, base, 1)
            && ops[one as int] == (Op::ConstInt { ty: LlvmType::I64, value: 1, signed: false }))
}

/// `push` on the list at `base` was emitted in `log`: the value is stored
/// at the element the current length indexes, and the length grows by 1.
pub open spec fn pushes(log: InstrLog, base: usize) -> bool {
    exists|k1: int, k2: int| 0 <= k1 < log.ops_view().len() && 0 <= k2 < log.ops_view().len()
        && (#[trigger] log.ops_view()[k1] matches Op::Store { ptr: e, value: _ }
            && element_of(log, e as int, base, log.ops_view()[log.ops_view()[k2]->Store_value as int]->Arith_lhs))
        && #[trigger] updates_length(log, k2, base, ArithOp::IntAdd)
}

/// `pop` on the list at `base` was emitted in `log`: the length shrinks by
/// 1 and the value is the element the new length indexes.
pub open spec fn pops(log: InstrLog, v: usize, base: usize) -> bool {
    exists|k: int| 0 <= k < log.ops_view().len() && #[trigger] updates_length(log, k, base, ArithOp::IntSub)
        && (log.ops_view()[v as int] matches Op::Load { ty: _, ptr: e, name: _ }
            && element_of(log, e as int, base, log.ops_view()[k]->Store_value))
}

/// In `log`, op `k1` stores `key` into the key storage (read from field 2
/// of the map at `base`) and op `k2` stores `value` into the value storage
/// (read from field 3) at the same offset, and op `k3` stores back the
/// length plus 1.
pub open spec fn map_set_at(log: InstrLog, base: usize, key: usize, value: usize, k1: int, k2: int, k3: int) -> bool {
    let ops = log.ops_view();
    &&& 0 <= k1 < ops.len() && 0 <= k2 < ops.len() && 0 <= k3 < ops.len()
    &&& ops[k1] matches Op::Store { ptr: kp, value: kv } && kv == key
        && (ops[kp as int] matches Op::Gep { ty: _, ptr: keys, indices: ki, name: _ } && reads_field(log, keys, base, 2)
        && (ops[k2] matches Op::Store { ptr: vp, value: vv } && vv == value
        && (ops[vp as int] matches Op::Gep { ty: _, ptr: vals, indices: vi, name: _ } && reads_field(log, vals, base, 3) && vi@ == ki@)))
    &&& updates_length(log, k3, base, ArithOp::IntAdd)
}

/// `set(key, value)` on the map at `base` was emitted in `log`: the pair is
/// appended (see `map_set_at`), the key and value being, for literal
/// arguments `args`, the constants they denote.
pub open spec fn map_set_lowered(log: InstrLog, base: usize, args: Seq<Expr>) -> bool {
    exists|key: usize, value: usize, k1: int, k2: int, k3: int| #[trigger] map_set_at(log, base, key, value, k1, k2, k3)
        && (args[0] is Literal ==> crate::exprs::materialises(args[0]->Literal_0, log.ops_view()[key as int]))
        && (args[1] is Literal ==> crate::exprs::materialises(args[1]->Literal_0, log.ops_view()[value as int]))
}

/// Value `x` of `log` is `malloc(bytes)`.
pub open spec fn mallocs(log: InstrLog, x: int, bytes: u64) -> bool {
    log.ops_view()[x] matches Op::Call { function: f, args: a, name: _ }
        && crate::codegen::declares(log, f, "malloc"@) && a@.len() == 1 && a@[0] < x
        && log.ops_view()[a@[0] as int] == (Op::ConstInt { ty: LlvmType::I64, value: bytes, signed: false })
}

/// The struct at `slot` was set up as an empty map: capacity 8, length 0,
/// and keys and values each in a fresh `malloc(64)`.
pub open spec fn map_initialised(log: InstrLog, slot: usize) -> bool {
    exists|i0: int, i1: int, i2: int, i3: int| {
        &&& stores_field(log, i0, slot, 0) && stored_value(log, i0) == (Op::ConstInt { ty: LlvmType::I64, value: INITIAL_CAPACITY, signed: false })
        &&& stores_field(log, i1, slot, 1) && stored_value(log, i1) == (Op::ConstInt { ty: LlvmType::I64, value: 0, signed: false })
        &&& stores_field(log, i2, slot, 2) && mallocs(log, log.ops_view()[i2]->Store_value as int, 64)
        &&& stores_field(log, i3, slot, 3) && mallocs(log, log.ops_view()[i3]->Store_value as int, 64)
    }
}

/// Appending to the log keeps what a `malloc` call is.
pub proof fn lemma_mallocs_kept(a: InstrLog, b: InstrLog, x: int, bytes: u64)
    requires
        0 <= x < a.ops_view().len(),
        mallocs(a, x, bytes),
        crate::stmts::prefix_of(a.ops_view(), b.ops_view()),
    ensures
        mallocs(b, x, bytes),
{
    let f = a.ops_view()[x]->Call_function;
    let arg = a.ops_view()[x]->Call_args@[0];
    assert(b.ops_view()[x] == a.ops_view()[x]);
    assert(b.ops_view()[f as int] == a.ops_view()[f as int]);
    assert(b.ops_view()[arg as int] == a.ops_view()[arg as int]);
}

/// The object at `p` was set up as a range from `start` to `end` by `step`:
/// `p` is a fresh `malloc(32)` whose fields 0 to 3 hold the start, the end,
/// the step and the current value, which begins at the start.
pub open spec fn range_initialised(log: InstrLog, p: usize, start: usize, end: usize, step: usize) -> bool {
    &&& mallocs(log, p as int, RANGE_SIZE)
    &&& exists|i0: int, i1: int, i2: int, i3: int| {
        &&& stores_field(log, i0, p, 0) && log.ops_view()[i0]->Store_value == start
        &&& stores_field(log, i1, p, 1) && log.ops_view()[i1]->Store_value == end
        &&& stores_field(log, i2, p, 2) && log.ops_view()[i2]->Store_value == step
        &&& stores_field(log, i3, p, 3) && log.ops_view()[i3]->Store_value == start
    }
}

/// Value `v` of `log` is a range object (see `range_initialised`).
pub open spec fn range_built(log: InstrLog, v: usize) -> bool {
    exists|s: usize, n: usize, st: usize| #[trigger] range_initialised(log, v, s, n, st)
}

/// Value `l` of `log` is `strlen(s)`.
pub open spec fn strlen_of(log: InstrLog, l: int, s: usize) -> bool {
    log.ops_view()[l] matches Op::Call { function: f, args: a, name: _ }
        && crate::codegen::declares(log, f, "strlen"@) && a@.len() == 1 && a@[0] == s
}

/// Value `v` of `log` is the concatenation of the strings `s1` and `s2`: a
/// fresh `malloc(strlen(s1) + strlen(s2) + 1)` buffer, into which `s1` is
/// copied with `strcpy` and then `s2` appended with `strcat`.
pub open spec fn concatenated(log: InstrLog, v: usize, s1: usize, s2: usize) -> bool {
    let ops = log.ops_view();
    &&& ops[v as int] matches Op::Call { function: m, args: a, name: _ }
        && crate::codegen::declares(log, m, "malloc"@) && a@.len() == 1
        && (ops[a@[0] as int] matches Op::Arith { op: ArithOp::IntAdd, lhs: t, rhs: one, name: _ }
        && ops[one as int] == (Op::ConstInt { ty: LlvmType::I64, value: 1, signed: false })
        && (ops[t as int] matches Op::Arith { op: ArithOp::IntAdd, lhs: l1, rhs: l2, name: _ }
        && strlen_of(log, l1 as int, s1) && strlen_of(log, l2 as int, s2)))
    &&& exists|k1: int, k2: int| v < k1 < k2 < ops.len()
        && (#[trigger] ops[k1] matches Op::Call { function: f, args: x, name: _ } && crate::codegen::declares(log, f, "strcpy"@) && x@.len() == 2 && x@[0] == v && x@[1] == s1)
        && (#[trigger] ops[k2] matches Op::Call { function: g, args: y, name: _ } && crate::codegen::declares(log, g, "strcat"@) && y@.len() == 2 && y@[0] == v && y@[1] == s2)
}

/// The size in bytes of a range object: four 8-byte fields.
pub const RANGE_SIZE: u64 = 32;

/// The capacity a new list, set or map starts with.
pub const INITIAL_CAPACITY: u64 = 8;

/// The size in bytes of a list, set or map element.
pub const ELEMENT_SIZE: u64 = 8;

/// The method names are distinct from one another.
proof fn lemma_method_names()
    ensures
        "push"@ =~= seq!['p', 'u', 's', 'h'],
        "length"@ =~= seq!['l', 'e', 'n', 'g', 't', 'h'],
        "get"@ =~= seq!['g', 'e', 't'],
        "set"@ =~= seq!['s', 'e', 't'],
        "pop"@ =~= seq!['p', 'o', 'p'],
        "insert"@ =~= seq!['i', 'n', 's', 'e', 'r', 't'],
        "contains"@ =~= seq!['c', 'o', 'n', 't', 'a', 'i', 'n', 's'],
        "add"@ =~= seq!['a', 'd', 'd'],
        "remove"@ =~= seq!['r', 'e', 'm', 'o', 'v', 'e'],
        "is_some"@ =~= seq!['i', 's', '_', 's', 'o', 'm', 'e'],
        "is_none"@ =~= seq!['i', 's', '_', 'n', 'o', 'n', 'e'],
        "unwrap"@ =~= seq!['u', 'n', 'w', 'r', 'a', 'p'],
        "is_ok"@ =~= seq!['i', 's', '_', 'o', 'k'],
        "is_error"@ =~= seq!['i', 's', '_', 'e', 'r', 'r', 'o', 'r'],
{
    reveal_strlit("push");
    assert("push"@ =~= seq!['p', 'u', 's', 'h']);
    reveal_strlit("length");
    assert("length"@ =~= seq!['l', 'e', 'n', 'g', 't', 'h']);
    reveal_strlit("get");
    assert("get"@ =~= seq!['g', 'e', 't']);
    reveal_strlit("set");
    assert("set"@ =~= seq!['s', 'e', 't']);
    reveal_strlit("pop");
    assert("pop"@ =~= seq!['p', 'o', 'p']);
    reveal_strlit("insert");
    assert("insert"@ =~= seq!['i', 'n', 's', 'e', 'r', 't']);
    reveal_strlit("contains");
    assert("contains"@ =~= seq!['c', 'o', 'n', 't', 'a', 'i', 'n', 's']);
    reveal_strlit("add");
    assert("add"@ =~= seq!['a', 'd', 'd']);
    reveal_strlit("remove");
    assert("remove"@ =~= seq!['r', 'e', 'm', 'o', 'v', 'e']);
    reveal_strlit("is_some");
    assert("is_some"@ =~= seq!['i', 's', '_', 's', 'o', 'm', 'e']);
    reveal_strlit("is_none");
    assert("is_none"@ =~= seq!['i', 's', '_', 'n', 'o', 'n', 'e']);
    reveal_strlit("unwrap");
    assert("unwrap"@ =~= seq!['u', 'n', 'w', 'r', 'a', 'p']);
    reveal_strlit("is_ok");
    assert("is_ok"@ =~= seq!['i', 's', '_', 'o', 'k']);
    reveal_strlit("is_error");
    assert("is_error"@ =~= seq!['i', 's', '_', 'e', 'r', 'r', 'o', 'r']);
}

/// The methods of a list.
pub open spec fn spec_list_method(m: Seq<char>) -> bool {
    m == "push"@ || m == "length"@ || m == "get"@ || m == "set"@ || m == "pop"@
}

/// The methods of a map.
pub open spec fn spec_map_method(m: Seq<char>) -> bool {
    m == "length"@ || m == "set"@ || m == "insert"@ || m == "get"@ || m == "contains"@
}

/// The methods of a set.
pub open spec fn spec_set_method(m: Seq<char>) -> bool {
    m == "length"@ || m == "add"@ || m == "contains"@ || m == "remove"@
}

/// The methods of an option.
pub open spec fn spec_option_method(m: Seq<char>) -> bool {
    m == "is_some"@ || m == "is_none"@ || m == "unwrap"@
}

/// The methods of a result.
pub open spec fn spec_result_method(m: Seq<char>) -> bool {
    m == "is_ok"@ || m == "is_error"@ || m == "unwrap"@
}

/// Fails unless at least `n` arguments were passed to `what`.
fn need_args(args: &Vec<Expr>, n: usize, what: &str) -> (r: Result<(), CodegenError>)
    ensures
        r is Ok <==> args@.len() >= n,
        r matches Err(e) ==> e.message@ == "Missing arguments for "@ + what@,
{
    if args.len() < n {
        Err(error_naming("Missing arguments for ", what))
    } else {
        Ok(())
    }
}

impl Codegen {
    /// `malloc(n)`, named `name`.
    pub fn malloc_bytes(&mut self, n: u64, name: &str) -> (v: usize)
        requires
            old(self).wf(),
        ensures
            final(self).log.position() == old(self).log.position(),
            crate::ir::keeps_settled(old(self).log, final(self).log),
            keeps_tables(*old(self), *final(self)),
            v < final(self).log.ops_view().len(),
            final(self).log.ops_view()[v as int] is Call,
    {
        let malloc = self.libc(LibcFn::Malloc);
        let size = self.log.const_int(LlvmType::I64, n, false);
        self.log.call(malloc, vec![size], name)
    }

    /// `Some(value)`: an option struct with tag 1.
    pub fn create_option_some(&mut self, value: usize) -> (r: Result<usize, CodegenError>)
        requires
            old(self).wf(),
        ensures
            final(self).log.position() == old(self).log.position(),
            crate::ir::keeps_settled(old(self).log, final(self).log),
            crate::stmts::yields(*final(self), r),
            keeps_tables(*old(self), *final(self)),
            r is Ok <==> old(self).log.value_type_of(value) is Some,
            r matches Err(e) ==> e.message@ == "Expected a value"@,
            r matches Ok(v) ==> (final(self).log.value_type_of(v) matches Some(t) && (old(self).log.value_type_of(value) matches Some(vt)
                && t@ == LlvmTypeV::Struct(seq![LlvmTypeV::I8, vt@]))),
    {
        let vt = self.type_of(value)?;
        let ty = option_layout(vt);
        let slot = self.log.alloca(ty.duplicate(), "option");
        let tag = self.int_const(LlvmType::I8, TAG_SOME as u64);
        self.store_field(&ty, slot, 0, "tag", tag);
        self.store_field(&ty, slot, 1, "value", value);
        Ok(self.log.load(ty, slot, "option"))
    }

    /// `None`: an option of an `i64` with tag 0 and value 0.
    pub fn create_option_none(&mut self) -> (r: Result<usize, CodegenError>)
        requires
            old(self).wf(),
        ensures
            final(self).log.position() == old(self).log.position(),
            crate::ir::keeps_settled(old(self).log, final(self).log),
            crate::stmts::yields(*final(self), r),
            keeps_tables(*old(self), *final(self)),
            r matches Ok(v) && (final(self).log.value_type_of(v) matches Some(t) && t@ == LlvmTypeV::Struct(seq![LlvmTypeV::I8, LlvmTypeV::I64])),
    {
        let ty = option_layout(LlvmType::I64);
        let slot = self.log.alloca(ty.duplicate(), "option");
        let tag = self.int_const(LlvmType::I8, TAG_NONE as u64);
        self.store_field(&ty, slot, 0, "tag", tag);
        let zero = self.int_const(LlvmType::I64, 0);
        self.store_field(&ty, slot, 1, "value", zero);
        Ok(self.log.load(ty, slot, "option"))
    }

    /// A result struct `{ i8, ok, ptr }` stored in a fresh slot named
    /// `slot_name` with tag `tag`, ok value `ok` and error `err`.
    fn build_result(&mut self, ok_ty: LlvmType, slot_name: &str, tag: u8, ok: usize, err: usize) -> (r: usize)
        requires
            old(self).wf(),
        ensures
            final(self).log.position() == old(self).log.position(),
            crate::ir::keeps_settled(old(self).log, final(self).log),
            keeps_tables(*old(self), *final(self)),
            r < final(self).log.ops_view().len(),
            final(self).log.value_type_of(r) matches Some(t) && t@ == LlvmTypeV::Struct(seq![LlvmTypeV::I8, ok_ty@, LlvmTypeV::Ptr]),
    {
        let ty = result_layout(ok_ty);
        let slot = self.log.alloca(ty.duplicate(), slot_name);
        let t = self.int_const(LlvmType::I8, tag as u64);
        self.store_field(&ty, slot, 0, "tag", t);
        self.store_field(&ty, slot, 1, "ok", ok);
        self.store_field(&ty, slot, 2, "err", err);
        self.log.load(ty, slot, "result")
    }

    /// `Ok(value)`: a result with tag 1, the value and a null error.
    pub fn create_result_ok(&mut self, value: usize) -> (r: Result<usize, CodegenError>)
        requires
            old(self).wf(),
        ensures
            final(self).log.position() == old(self).log.position(),
            crate::ir::keeps_settled(old(self).log, final(self).log),
            crate::stmts::yields(*final(self), r),
            keeps_tables(*old(self), *final(self)),
            r is Ok <==> old(self).log.value_type_of(value) is Some,
            r matches Err(e) ==> e.message@ == "Expected a value"@,
            r matches Ok(v) ==> (final(self).log.value_type_of(v) matches Some(t) && (old(self).log.value_type_of(value) matches Some(vt)
                && t@ == LlvmTypeV::Struct(seq![LlvmTypeV::I8, vt@, LlvmTypeV::Ptr]))),
    {
        let vt = self.type_of(value)?;
        let ty = result_layout(vt);
        let slot = self.log.alloca(ty.duplicate(), "result");
        let t = self.int_const(LlvmType::I8, TAG_OK as u64);
        self.store_field(&ty, slot, 0, "tag", t);
        self.store_field(&ty, slot, 1, "ok", value);
        let null = self.log.const_null();
        self.store_field(&ty, slot, 2, "err", null);
        Ok(self.log.load(ty, slot, "result"))
    }

    /// `Error(error)`: a result of an `i64` with tag 0, value 0 and the
    /// error.
    pub fn create_result_error(&mut self, err: usize) -> (r: Result<usize, CodegenError>)
        requires
            old(self).wf(),
        ensures
            final(self).log.position() == old(self).log.position(),
            crate::ir::keeps_settled(old(self).log, final(self).log),
            crate::stmts::yields(*final(self), r),
            keeps_tables(*old(self), *final(self)),
            r matches Ok(v) && (final(self).log.value_type_of(v) matches Some(t) && t@ == LlvmTypeV::Struct(seq![LlvmTypeV::I8, LlvmTypeV::I64, LlvmTypeV::Ptr])),
    {
        let zero = self.int_const(LlvmType::I64, 0);
        Ok(self.build_result(LlvmType::I64, "result", TAG_ERROR, zero, err))
    }

    /// The result a `new Result` starts as: an error of an `i64` with value
    /// 0 and a null error.
    pub fn create_default_result(&mut self) -> (r: Result<usize, CodegenError>)
        requires
            old(self).wf(),
        ensures
            final(self).log.position() == old(self).log.position(),
            crate::ir::keeps_settled(old(self).log, final(self).log),
            crate::stmts::yields(*final(self), r),
            keeps_tables(*old(self), *final(self)),
            r matches Ok(v) && (final(self).log.value_type_of(v) matches Some(t) && t@ == LlvmTypeV::Struct(seq![LlvmTypeV::I8, LlvmTypeV::I64, LlvmTypeV::Ptr])),
    {
        let zero = self.int_const(LlvmType::I64, 0);
        let null = self.log.const_null();
        Ok(self.build_result(LlvmType::I64, "default_result", TAG_ERROR, zero, null))
    }

    /// An empty list or set (`name` is `list` or `set`): capacity 8,
    /// length 0, and storage for 8 elements from `malloc`.
    pub fn create_empty_collection(&mut self, name: &str) -> (r: Result<usize, CodegenError>)
        requires
            old(self).wf(),
        ensures
            final(self).log.position() == old(self).log.position(),
            crate::ir::keeps_settled(old(self).log, final(self).log),
            crate::stmts::yields(*final(self), r),
            keeps_tables(*old(self), *final(self)),
            r matches Ok(v) && (final(self).log.value_type_of(v) matches Some(t) && t@ == LlvmTypeV::Struct(seq![LlvmTypeV::I64, LlvmTypeV::I64, LlvmTypeV::Ptr])),
    {
        let ty = list_layout();
        let slot = self.log.alloca(ty.duplicate(), name);
        let cap = self.int_const(LlvmType::I64, INITIAL_CAPACITY);
        self.store_field(&ty, slot, 0, "capacity", cap);
        let zero = self.int_const(LlvmType::I64, 0);
        self.store_field(&ty, slot, 1, "length", zero);
        let data = self.malloc_bytes(INITIAL_CAPACITY * ELEMENT_SIZE, "data");
        self.store_field(&ty, slot, 2, "data_ptr", data);
        Ok(self.log.load(ty, slot, name))
    }

    /// An empty map: capacity 8, length 0, and storage for 8 keys and 8
    /// values from `malloc`.
    pub fn create_empty_map(&mut self) -> (r: Result<usize, CodegenError>)
        requires
            old(self).wf(),
        ensures
            final(self).log.position() == old(self).log.position(),
            crate::ir::keeps_settled(old(self).log, final(self).log),
            crate::stmts::yields(*final(self), r),
            keeps_tables(*old(self), *final(self)),
            r matches Ok(v) && (final(self).log.value_type_of(v) matches Some(t) && t@ == LlvmTypeV::Struct(seq![LlvmTypeV::I64, LlvmTypeV::I64, LlvmTypeV::Ptr, LlvmTypeV::Ptr])),
            r matches Ok(v) && (final(self).log.ops_view()[v as int] matches Op::Load { ty: _, ptr: s, name: _ }
                && final(self).log.ops_view()[s as int] is Alloca && map_initialised(final(self).log, s)),
    {
        let ty = map_layout();
        let slot = self.log.alloca(ty.duplicate(), "map");
        let ghost l_slot = self.log;
        let cap = self.int_const(LlvmType::I64, INITIAL_CAPACITY);
        self.store_field(&ty, slot, 0, "capacity", cap);
        let ghost l0 = self.log;
        let ghost i0 = l0.ops_view().len() - 1;
        let zero = self.int_const(LlvmType::I64, 0);
        self.store_field(&ty, slot, 1, "length", zero);
        let ghost l1 = self.log;
        let ghost i1 = l1.ops_view().len() - 1;
        let malloc = self.libc(LibcFn::Malloc);
        let size = self.log.const_int(LlvmType::I64, INITIAL_CAPACITY * ELEMENT_SIZE, false);
        let keys = self.log.call(malloc, vec![size], "keys");
        let ghost lk = self.log;
        self.store_field(&ty, slot, 2, "keys_ptr", keys);
        let ghost l2 = self.log;
        let ghost i2 = l2.ops_view().len() - 1;
        let values = self.log.call(malloc, vec![size], "values");
        let ghost lv = self.log;
        self.store_field(&ty, slot, 3, "values_ptr", values);
        let ghost l3 = self.log;
        let ghost i3 = l3.ops_view().len() - 1;
        let v = self.log.load(ty, slot, "map");
        proof {
            let fin = self.log;
            assert(mallocs(lk, keys as int, 64));
            assert(mallocs(lv, values as int, 64));
            crate::codegen::lemma_stores_field_kept(l0, fin, i0, slot, 0);
            crate::codegen::lemma_stores_field_kept(l1, fin, i1, slot, 1);
            crate::codegen::lemma_stores_field_kept(l2, fin, i2, slot, 2);
            crate::codegen::lemma_stores_field_kept(l3, fin, i3, slot, 3);
            lemma_mallocs_kept(lk, fin, keys as int, 64);
            lemma_mallocs_kept(lv, fin, values as int, 64);
            assert(fin.ops_view()[slot as int] == l_slot.ops_view()[slot as int]);
            assert(map_initialised(fin, slot));
        }
        Ok(v)
    }

    /// A range object from `start` to `end` by `step`, values of one
    /// element type (`f64` where `start` is a float, else `i64`): a fresh
    /// `malloc(32)` holding the start, the end, the step and the current
    /// value, which begins at the start.
    pub fn create_range(&mut self, start: usize, end: usize, step: usize) -> (r: usize)
        requires
            old(self).wf(),
            start < old(self).log.ops_view().len(),
            end < old(self).log.ops_view().len(),
            step < old(self).log.ops_view().len(),
        ensures
            final(self).log.position() == old(self).log.position(),
            crate::ir::keeps_settled(old(self).log, final(self).log),
            keeps_tables(*old(self), *final(self)),
            final(self).current_fn == old(self).current_fn,
            final(self).var_slots == old(self).var_slots,
            final(self).fn_slots == old(self).fn_slots,
            final(self).state == old(self).state,
            r < final(self).log.ops_view().len(),
            range_initialised(final(self).log, r, start, end, step),
    {
        let elem = if self.log.is_float_value(start) { LlvmType::F64 } else { LlvmType::I64 };
        let ty = LlvmType::Struct(vec![elem.duplicate(), elem.duplicate(), elem.duplicate(), elem]);
        let malloc = self.libc(LibcFn::Malloc);
        let size = self.log.const_int(LlvmType::I64, RANGE_SIZE, false);
        let p = self.log.call(malloc, vec![size], "range");
        let ghost lp = self.log;
        self.store_field(&ty, p, 0, "range_start", start);
        let ghost l0 = self.log;
        let ghost i0 = l0.ops_view().len() - 1;
        self.store_field(&ty, p, 1, "range_end", end);
        let ghost l1 = self.log;
        let ghost i1 = l1.ops_view().len() - 1;
        self.store_field(&ty, p, 2, "range_step", step);
        let ghost l2 = self.log;
        let ghost i2 = l2.ops_view().len() - 1;
        self.store_field(&ty, p, 3, "range_current", start);
        let ghost l3 = self.log;
        let ghost i3 = l3.ops_view().len() - 1;
        proof {
            let fin = self.log;
            assert(mallocs(lp, p as int, RANGE_SIZE));
            lemma_mallocs_kept(lp, fin, p as int, RANGE_SIZE);
            crate::codegen::lemma_stores_field_kept(l0, fin, i0, p, 0);
            crate::codegen::lemma_stores_field_kept(l1, fin, i1, p, 1);
            crate::codegen::lemma_stores_field_kept(l2, fin, i2, p, 2);
            assert(fin.ops_view()[i0] == l0.ops_view()[i0]);
            assert(fin.ops_view()[i1] == l1.ops_view()[i1]);
            assert(fin.ops_view()[i2] == l2.ops_view()[i2]);
            assert(range_initialised(fin, p, start, end, step));
        }
        p
    }

    /// The address of element `index` (an `i64`) of the storage at `data`.
    fn element_address(&mut self, data: usize, index: usize, name: &str) -> (v: usize)
        requires
            old(self).wf(),
        ensures
            final(self).log.position() == old(self).log.position(),
            crate::ir::keeps_settled(old(self).log, final(self).log),
            keeps_tables(*old(self), *final(self)),
            final(self).log.ops_view().len() == old(self).log.ops_view().len() + 3,
            v == old(self).log.ops_view().len() + 2,
            final(self).log.ops_view()[old(self).log.ops_view().len() as int] == (Op::ConstInt { ty: LlvmType::I64, value: ELEMENT_SIZE, signed: false }),
            final(self).log.ops_view()[v - 1] matches Op::Arith { op, lhs, rhs, name: _ }
                && op == ArithOp::IntMul && lhs == index && rhs == old(self).log.ops_view().len(),
            final(self).log.ops_view()[v as int] matches Op::Gep { ty, ptr, indices, name: _ }
                && ty == LlvmType::I8 && ptr == data && indices@ == seq![(v - 1) as usize],
    {
        let size = self.log.const_int(LlvmType::I64, ELEMENT_SIZE, false);
        let offset = self.log.arith(ArithOp::IntMul, index, size, "offset");
        self.log.gep(LlvmType::I8, data, vec![offset], name)
    }

    /// A list method on the list at `list`: `push`, `get`, `length`, `set`
    /// and `pop` (which does not check for an empty list).
    pub fn compile_list_method_ptr(&mut self, list: usize, method: &str, args: &Vec<Expr>) -> (r: Result<usize, CodegenError>)
        requires
            old(self).wf(),
        ensures
            r is Ok && crate::ast::exprs_lambda_free(args@) ==> crate::ir::keeps_settled(old(self).log, final(self).log),
            !spec_list_method(method@) ==> (r matches Err(e) && e.message@ == "Unknown List method: "@ + method@),
            !spec_list_method(method@) ==> *final(self) == *old(self),
            method@ == "length"@ || method@ == "pop"@ ==> r is Ok,
            method@ == "push"@ && args.len() == 0 ==> (r matches Err(e) && e.message@ == "Missing arguments for "@ + "List.push"@),
            method@ == "get"@ && args.len() == 0 ==> (r matches Err(e) && e.message@ == "Missing arguments for "@ + "List.get"@),
            method@ == "set"@ && args.len() < 2 ==> (r matches Err(e) && e.message@ == "Missing arguments for "@ + "List.set"@),
            method@ == "length"@ ==> (r matches Ok(v) && reads_field(final(self).log, v, list, 1)),
            method@ == "push"@ && r is Ok ==> pushes(final(self).log, list),
            method@ == "pop"@ ==> (r matches Ok(v) && pops(final(self).log, v, list)),
            method@ == "get"@ ==> (r matches Ok(v) ==> (final(self).log.ops_view()[v as int] matches Op::Load { ty: _, ptr: e, name: _ }
                && element_of(final(self).log, e as int, list, final(self).log.ops_view()[e - 1]->Arith_lhs))),
            crate::stmts::yields(*final(self), r),
            keeps_tables(*old(self), *final(self)),
        decreases args, 6int,
    {
        proof {
            crate::ast::lemma_exprs_lambda_free(args@);
        }
        proof {
            lemma_method_names();
        }
        let ty = list_layout();
        if str_eq(method, "push") {
            let len_ptr = self.field_address(&ty, list, 1, "len_ptr");
            let ghost l_ptr = self.log;
            let len = self.log.load(LlvmType::I64, len_ptr, "len");
            let ghost l_len = self.log;
            let data = self.load_field(&ty, list, 2, "data_ptr_ptr", LlvmType::Ptr, "data");
            let ghost l_data = self.log;
            let elem = self.element_address(data, len, "elem_ptr");
            let ghost l_elem = self.log;
            need_args(args, 1, "List.push")?;
            let value = self.compile_expr(&args[0])?;
            self.log.store(elem, value);
            let ghost l_store = self.log;
            let ghost k1 = l_store.ops_view().len() - 1;
            let one = self.log.const_int(LlvmType::I64, 1, false);
            let new_len = self.log.arith(ArithOp::IntAdd, len, one, "new_len");
            self.log.store(len_ptr, new_len);
            let ghost l_end = self.log;
            let ghost k2 = l_end.ops_view().len() - 1;
            let v = self.int_const(LlvmType::I8, 0);
            proof {
                let fin = self.log;
                crate::codegen::lemma_addresses_field_kept(l_ptr, l_len, len_ptr, list, 1);
                crate::codegen::lemma_reads_field_kept(l_len, fin, len, list, 1);
                crate::codegen::lemma_reads_field_kept(l_data, fin, data, list, 2);
                crate::codegen::lemma_addresses_field_kept(l_ptr, fin, len_ptr, list, 1);
                assert(fin.ops_view()[elem as int] == l_elem.ops_view()[elem as int]);
                assert(fin.ops_view()[elem - 1] == l_elem.ops_view()[elem - 1]);
                assert(fin.ops_view()[k1] == l_store.ops_view()[k1]);
                assert(fin.ops_view()[k2] == l_end.ops_view()[k2]);
                assert(fin.ops_view()[new_len as int] == l_end.ops_view()[new_len as int]);
                assert(fin.ops_view()[one as int] == l_end.ops_view()[one as int]);
                assert(updates_length(fin, k2, list, ArithOp::IntAdd));
                assert(pushes(fin, list));
            }
            Ok(v)
        } else if str_eq(method, "length") {
            Ok(self.load_field(&ty, list, 1, "len_ptr", LlvmType::I64, "len"))
        } else if str_eq(method, "get") {
            let data = self.load_field(&ty, list, 2, "data_ptr_ptr", LlvmType::Ptr, "data");
            need_args(args, 1, "List.get")?;
            let index = self.compile_expr(&args[0])?;
            let index = self.expect_int(index)?;
            let ghost l_data = self.log;
            let elem = self.element_address(data, index, "elem_ptr");
            let ghost l_elem = self.log;
            let v = self.log.load(LlvmType::I64, elem, "val");
            proof {
                let fin = self.log;
                crate::codegen::lemma_reads_field_kept(l_data, fin, data, list, 2);
                assert(fin.ops_view()[elem as int] == l_elem.ops_view()[elem as int]);
                assert(fin.ops_view()[elem - 1] == l_elem.ops_view()[elem - 1]);
            }
            Ok(v)
        } else if str_eq(method, "set") {
            let data = self.load_field(&ty, list, 2, "data_ptr_ptr", LlvmType::Ptr, "data");
            need_args(args, 2, "List.set")?;
            let index = self.compile_expr(&args[0])?;
            let index = self.expect_int(index)?;
            let elem = self.element_address(data, index, "elem_ptr");
            let value = self.compile_expr(&args[1])?;
            self.log.store(elem, value);
            Ok(self.int_const(LlvmType::I8, 0))
        } else if str_eq(method, "pop") {
            let len_ptr = self.field_address(&ty, list, 1, "len_ptr");
            let ghost l_ptr = self.log;
            let len = self.log.load(LlvmType::I64, len_ptr, "len");
            let ghost l_len = self.log;
            let one = self.log.const_int(LlvmType::I64, 1, false);
            let new_len = self.log.arith(ArithOp::IntSub, len, one, "new_len");
            self.log.store(len_ptr, new_len);
            let ghost l_store = self.log;
            let ghost k = l_store.ops_view().len() - 1;
            let data = self.load_field(&ty, list, 2, "data_ptr_ptr", LlvmType::Ptr, "data");
            let ghost l_data = self.log;
            let elem = self.element_address(data, new_len, "elem_ptr");
            let ghost l_elem = self.log;
            let v = self.log.load(LlvmType::I64, elem, "val");
            proof {
                let fin = self.log;
                crate::codegen::lemma_addresses_field_kept(l_ptr, l_len, len_ptr, list, 1);
                crate::codegen::lemma_reads_field_kept(l_len, fin, len, list, 1);
                crate::codegen::lemma_reads_field_kept(l_data, fin, data, list, 2);
                crate::codegen::lemma_addresses_field_kept(l_ptr, fin, len_ptr, list, 1);
                assert(fin.ops_view()[elem as int] == l_elem.ops_view()[elem as int]);
                assert(fin.ops_view()[elem - 1] == l_elem.ops_view()[elem - 1]);
                assert(fin.ops_view()[k] == l_store.ops_view()[k]);
                assert(fin.ops_view()[new_len as int] == l_store.ops_view()[new_len as int]);
                assert(fin.ops_view()[one as int] == l_store.ops_view()[one as int]);
                assert(updates_length(fin, k, list, ArithOp::IntSub));
                assert(pops(fin, v, list));
            }
            Ok(v)
        } else {
            Err(error_naming("Unknown List method: ", method))
        }
    }

    /// A list method on the list held by variable `name`.
    pub fn compile_list_method(&mut self, name: &str, method: &str, args: &Vec<Expr>) -> (r: Result<usize, CodegenError>)
        requires
            old(self).wf(),
        ensures
            r is Ok && crate::ast::exprs_lambda_free(args@) ==> crate::ir::keeps_settled(old(self).log, final(self).log),
            !old(self).var_slots@.contains_key(name@) ==> (r matches Err(e) && e.message@ == "Unknown variable: "@ + name@),
            !old(self).var_slots@.contains_key(name@) || !spec_list_method(method@) ==> *final(self) == *old(self),
            old(self).var_slots@.contains_key(name@) && !spec_list_method(method@) ==> (r matches Err(e) && e.message@ == "Unknown List method: "@ + method@),
            old(self).var_slots@.contains_key(name@) && (method@ == "length"@ || method@ == "pop"@) ==> r is Ok,
            old(self).var_slots@.contains_key(name@) && method@ == "length"@ ==> (r matches Ok(v) && reads_field(final(self).log, v, old(self).var_slots@[name@], 1)),
            old(self).var_slots@.contains_key(name@) && method@ == "push"@ && r is Ok ==> pushes(final(self).log, old(self).var_slots@[name@]),
            old(self).var_slots@.contains_key(name@) && method@ == "pop"@ ==> (r matches Ok(v) && pops(final(self).log, v, old(self).var_slots@[name@])),
            old(self).var_slots@.contains_key(name@) && method@ == "get"@ ==> (r matches Ok(v) ==> (final(self).log.ops_view()[v as int] matches Op::Load { ty: _, ptr: e, name: _ }
                && element_of(final(self).log, e as int, old(self).var_slots@[name@], final(self).log.ops_view()[e - 1]->Arith_lhs))),
            crate::stmts::yields(*final(self), r),
            keeps_tables(*old(self), *final(self)),
    {
        proof {
            lemma_method_names();
        }
        let list = self.var_slot(name)?;
        self.compile_list_method_ptr(list, method, args)
    }

    /// A map method on the map held by variable `name`: `length`, `set`
    /// (also `insert`), which appends the pair without looking for the key,
    /// and `get` and `contains`, which answer 0 and false.
    #[verifier::spinoff_prover]
    #[verifier::rlimit(100)]
    pub fn compile_map_method(&mut self, name: &str, method: &str, args: &Vec<Expr>) -> (r: Result<usize, CodegenError>)
        requires
            old(self).wf(),
        ensures
            r is Ok && crate::ast::exprs_lambda_free(args@) ==> crate::ir::keeps_settled(old(self).log, final(self).log),
            !old(self).var_slots@.contains_key(name@) ==> (r matches Err(e) && e.message@ == "Unknown variable: "@ + name@),
            !old(self).var_slots@.contains_key(name@) || !spec_map_method(method@) ==> *final(self) == *old(self),
            old(self).var_slots@.contains_key(name@) && !spec_map_method(method@) ==> (r matches Err(e) && e.message@ == "Unknown Map method: "@ + method@),
            old(self).var_slots@.contains_key(name@) && (method@ == "length"@ || method@ == "get"@ || method@ == "contains"@) ==> r is Ok,
            old(self).var_slots@.contains_key(name@) && (method@ == "set"@ || method@ == "insert"@) && args.len() < 2 ==> (r matches Err(e) && e.message@ == "Missing arguments for "@ + "Map.set"@),
            old(self).var_slots@.contains_key(name@) && method@ == "length"@ ==> (r matches Ok(v) && reads_field(final(self).log, v, old(self).var_slots@[name@], 1)),
            (method@ == "set"@ || method@ == "insert"@) && r is Ok ==> map_set_lowered(final(self).log, old(self).var_slots@[name@], args@),
            crate::stmts::yields(*final(self), r),
            keeps_tables(*old(self), *final(self)),
        decreases args, 6int,
    {
        proof {
            crate::ast::lemma_exprs_lambda_free(args@);
        }
        proof {
            lemma_method_names();
        }
        let map = self.var_slot(name)?;
        let ty = map_layout();
        if str_eq(method, "length") {
            Ok(self.load_field(&ty, map, 1, "len_ptr", LlvmType::I64, "len"))
        } else if str_eq(method, "set") || str_eq(method, "insert") {
            let len_ptr = self.field_address(&ty, map, 1, "len_ptr");
            let ghost l_ptr = self.log;
            let len = self.log.load(LlvmType::I64, len_ptr, "len");
            let ghost l_len = self.log;
            let keys = self.load_field(&ty, map, 2, "keys_ptr_ptr", LlvmType::Ptr, "keys");
            let ghost l_keys = self.log;
            let values = self.load_field(&ty, map, 3, "vals_ptr_ptr", LlvmType::Ptr, "vals");
            let ghost l_values = self.log;
            let size = self.log.const_int(LlvmType::I64, ELEMENT_SIZE, false);
            let offset = self.log.arith(ArithOp::IntMul, len, size, "offset");
            let key_ptr = self.log.gep(LlvmType::I8, keys, vec![offset], "key_ptr");
            let ghost l_kp = self.log;
            need_args(args, 2, "Map.set")?;
            let key = self.compile_expr(&args[0])?;
            let ghost l_key = self.log;
            self.log.store(key_ptr, key);
            let ghost l_k1 = self.log;
            let ghost k1 = l_k1.ops_view().len() - 1;
            let value_ptr = self.log.gep(LlvmType::I8, values, vec![offset], "val_ptr");
            let ghost l_vp = self.log;
            let value = self.compile_expr(&args[1])?;
            let ghost l_value = self.log;
            self.log.store(value_ptr, value);
            let ghost l_k2 = self.log;
            let ghost k2 = l_k2.ops_view().len() - 1;
            let one = self.log.const_int(LlvmType::I64, 1, false);
            let new_len = self.log.arith(ArithOp::IntAdd, len, one, "new_len");
            self.log.store(len_ptr, new_len);
            let ghost l_end = self.log;
            let ghost k3 = l_end.ops_view().len() - 1;
            let v = self.int_const(LlvmType::I8, 0);
            proof {
                let fin = self.log;
                crate::codegen::lemma_addresses_field_kept(l_ptr, l_len, len_ptr, map, 1);
                crate::codegen::lemma_reads_field_kept(l_len, fin, len, map, 1);
                crate::codegen::lemma_reads_field_kept(l_keys, fin, keys, map, 2);
                crate::codegen::lemma_reads_field_kept(l_values, fin, values, map, 3);
                crate::codegen::lemma_addresses_field_kept(l_ptr, fin, len_ptr, map, 1);
                assert(fin.ops_view()[key_ptr as int] == l_kp.ops_view()[key_ptr as int]);
                assert(fin.ops_view()[value_ptr as int] == l_vp.ops_view()[value_ptr as int]);
                assert(fin.ops_view()[k1] == l_k1.ops_view()[k1]);
                assert(fin.ops_view()[k2] == l_k2.ops_view()[k2]);
                assert(fin.ops_view()[k3] == l_end.ops_view()[k3]);
                assert(fin.ops_view()[key as int] == l_key.ops_view()[key as int]);
                assert(fin.ops_view()[value as int] == l_value.ops_view()[value as int]);
                assert(fin.ops_view()[new_len as int] == l_end.ops_view()[new_len as int]);
                assert(fin.ops_view()[one as int] == l_end.ops_view()[one as int]);
                assert(updates_length(fin, k3, map, ArithOp::IntAdd));
                assert(map_set_at(fin, map, key, value, k1, k2, k3));
                assert(map_set_lowered(fin, map, args@));
            }
            Ok(v)
        } else if str_eq(method, "get") {
            self.load_field(&ty, map, 1, "len_ptr", LlvmType::I64, "len");
            self.load_field(&ty, map, 2, "keys_ptr_ptr", LlvmType::Ptr, "keys");
            self.load_field(&ty, map, 3, "vals_ptr_ptr", LlvmType::Ptr, "vals");
            Ok(self.int_const(LlvmType::I64, 0))
        } else if str_eq(method, "contains") {
            Ok(self.int_const(LlvmType::I1, 0))
        } else {
            Err(error_naming("Unknown Map method: ", method))
        }
    }

    /// A set method on the set held by variable `name`: `length`; `add`,
    /// `contains` and `remove` answer false.
    pub fn compile_set_method(&mut self, name: &str, method: &str) -> (r: Result<usize, CodegenError>)
        requires
            old(self).wf(),
        ensures
            final(self).log.position() == old(self).log.position(),
            crate::ir::keeps_settled(old(self).log, final(self).log),
            !old(self).var_slots@.contains_key(name@) ==> (r matches Err(e) && e.message@ == "Unknown variable: "@ + name@),
            old(self).var_slots@.contains_key(name@) ==> (r is Ok <==> spec_set_method(method@)),
            old(self).var_slots@.contains_key(name@) && !spec_set_method(method@) ==> (r matches Err(e) && e.message@ == "Unknown Set method: "@ + method@),
            r is Err ==> *final(self) == *old(self),
            old(self).var_slots@.contains_key(name@) && method@ == "length"@ ==> (r matches Ok(v) && reads_field(final(self).log, v, old(self).var_slots@[name@], 1)),
            crate::stmts::yields(*final(self), r),
            keeps_tables(*old(self), *final(self)),
    {
        proof {
            lemma_method_names();
        }
        let set = self.var_slot(name)?;
        let ty = list_layout();
        if str_eq(method, "length") {
            Ok(self.load_field(&ty, set, 1, "len_ptr", LlvmType::I64, "len"))
        } else if str_eq(method, "add") || str_eq(method, "contains") || str_eq(method, "remove") {
            Ok(self.int_const(LlvmType::I1, 0))
        } else {
            Err(error_naming("Unknown Set method: ", method))
        }
    }

    /// An option method on the option held by variable `name`: `is_some`
    /// (the tag), `is_none` and `unwrap` (the value, unchecked).
    pub fn compile_option_method(&mut self, name: &str, method: &str) -> (r: Result<usize, CodegenError>)
        requires
            old(self).wf(),
        ensures
            final(self).log.position() == old(self).log.position(),
            crate::ir::keeps_settled(old(self).log, final(self).log),
            !old(self).var_slots@.contains_key(name@) ==> (r matches Err(e) && e.message@ == "Unknown variable: "@ + name@),
            old(self).var_slots@.contains_key(name@) && !(old(self).state.vars().contains_key(name@) && old(self).state.vars()[name@] is Option) ==> (r matches Err(e) && e.message@ == "Expected Option type"@),
            old(self).var_slots@.contains_key(name@) && old(self).state.vars().contains_key(name@) && old(self).state.vars()[name@] is Option ==> (r is Ok <==> spec_option_method(method@)),
            old(self).var_slots@.contains_key(name@) && old(self).state.vars().contains_key(name@) && old(self).state.vars()[name@] is Option && !spec_option_method(method@) ==> (r matches Err(e) && e.message@ == "Unknown Option method: "@ + method@),
            r is Err ==> *final(self) == *old(self),
            old(self).var_slots@.contains_key(name@) && old(self).state.vars().contains_key(name@) && old(self).state.vars()[name@] is Option && method@ == "is_some"@ ==> (r matches Ok(v) && reads_field(final(self).log, v, old(self).var_slots@[name@], 0)),
            old(self).var_slots@.contains_key(name@) && old(self).state.vars().contains_key(name@) && old(self).state.vars()[name@] is Option && method@ == "unwrap"@ ==> (r matches Ok(v) && reads_field(final(self).log, v, old(self).var_slots@[name@], 1)),
            old(self).var_slots@.contains_key(name@) && old(self).state.vars().contains_key(name@) && old(self).state.vars()[name@] is Option && method@ == "is_none"@ ==> (r matches Ok(v) && tests_tag_zero(final(self).log, v, old(self).var_slots@[name@])),
            crate::stmts::yields(*final(self), r),
            keeps_tables(*old(self), *final(self)),
    {
        proof {
            lemma_method_names();
        }
        let opt = self.var_slot(name)?;
        let inner = match self.var_type(name) {
            Some(Type::Option(t)) => llvm_type(&t),
            _ => return Err(error("Expected Option type")),
        };
        let ty = LlvmType::Struct(vec![LlvmType::I8, inner.duplicate()]);
        if str_eq(method, "is_some") {
            Ok(self.load_field(&ty, opt, 0, "is_some_ptr", LlvmType::I8, "is_some"))
        } else if str_eq(method, "is_none") {
            let tag = self.load_field(&ty, opt, 0, "is_some_ptr", LlvmType::I8, "is_some");
            let ghost after_tag = self.log;
            let zero = self.int_const(LlvmType::I8, 0);
            let v = self.log.int_compare(IntPredicate::Eq, tag, zero, "is_none");
            proof {
                lemma_reads_field_kept(after_tag, self.log, tag, opt, 0);
            }
            Ok(v)
        } else if str_eq(method, "unwrap") {
            Ok(self.load_field(&ty, opt, 1, "value_ptr", inner, "unwrapped_value"))
        } else {
            Err(error_naming("Unknown Option method: ", method))
        }
    }

    /// A result method on the result held by variable `name`: `is_ok` (the
    /// tag), `is_error` and `unwrap` (the ok value, unchecked).
    pub fn compile_result_method(&mut self, name: &str, method: &str) -> (r: Result<usize, CodegenError>)
        requires
            old(self).wf(),
        ensures
            final(self).log.position() == old(self).log.position(),
            crate::ir::keeps_settled(old(self).log, final(self).log),
            !old(self).var_slots@.contains_key(name@) ==> (r matches Err(e) && e.message@ == "Unknown variable: "@ + name@),
            old(self).var_slots@.contains_key(name@) && !(old(self).state.vars().contains_key(name@) && old(self).state.vars()[name@] is Result) ==> (r matches Err(e) && e.message@ == "Expected Result type"@),
            old(self).var_slots@.contains_key(name@) && old(self).state.vars().contains_key(name@) && old(self).state.vars()[name@] is Result ==> (r is Ok <==> spec_result_method(method@)),
            old(self).var_slots@.contains_key(name@) && old(self).state.vars().contains_key(name@) && old(self).state.vars()[name@] is Result && !spec_result_method(method@) ==> (r matches Err(e) && e.message@ == "Unknown Result method: "@ + method@),
            r is Err ==> *final(self) == *old(self),
            old(self).var_slots@.contains_key(name@) && old(self).state.vars().contains_key(name@) && old(self).state.vars()[name@] is Result && method@ == "is_ok"@ ==> (r matches Ok(v) && reads_field(final(self).log, v, old(self).var_slots@[name@], 0)),
            old(self).var_slots@.contains_key(name@) && old(self).state.vars().contains_key(name@) && old(self).state.vars()[name@] is Result && method@ == "unwrap"@ ==> (r matches Ok(v) && reads_field(final(self).log, v, old(self).var_slots@[name@], 1)),
            old(self).var_slots@.contains_key(name@) && old(self).state.vars().contains_key(name@) && old(self).state.vars()[name@] is Result && method@ == "is_error"@ ==> (r matches Ok(v) && tests_tag_zero(final(self).log, v, old(self).var_slots@[name@])),
            crate::stmts::yields(*final(self), r),
            keeps_tables(*old(self), *final(self)),
    {
        proof {
            lemma_method_names();
        }
        let res = self.var_slot(name)?;
        let (ok, err) = match self.var_type(name) {
            Some(Type::Result(a, b)) => (llvm_type(&a), llvm_type(&b)),
            _ => return Err(error("Expected Result type")),
        };
        let ty = LlvmType::Struct(vec![LlvmType::I8, ok.duplicate(), err]);
        if str_eq(method, "is_ok") {
            Ok(self.load_field(&ty, res, 0, "tag_ptr", LlvmType::I8, "tag"))
        } else if str_eq(method, "is_error") {
            let tag = self.load_field(&ty, res, 0, "tag_ptr", LlvmType::I8, "tag");
            let ghost after_tag = self.log;
            let zero = self.int_const(LlvmType::I8, 0);
            let v = self.log.int_compare(IntPredicate::Eq, tag, zero, "is_error");
            proof {
                lemma_reads_field_kept(after_tag, self.log, tag, res, 0);
            }
            Ok(v)
        } else if str_eq(method, "unwrap") {
            Ok(self.load_field(&ty, res, 1, "ok_ptr", ok, "unwrapped_ok"))
        } else {
            Err(error_naming("Unknown Result method: ", method))
        }
    }

    /// Concatenates two strings into a fresh buffer of their total length
    /// plus one, with `strcpy` and `strcat`.
    pub fn emit_concat(&mut self, s1: usize, s2: usize) -> (v: usize)
        requires
            old(self).wf(),
        ensures
            final(self).log.position() == old(self).log.position(),
            crate::ir::keeps_settled(old(self).log, final(self).log),
            keeps_tables(*old(self), *final(self)),
            v < final(self).log.ops_view().len(),
            final(self).log.ops_view()[v as int] is Call,
            concatenated(final(self).log, v, s1, s2),
            v >= old(self).log.ops_view().len(),
    {
        let strlen = self.libc(LibcFn::Strlen);
        let ghost l_strlen = self.log;
        let malloc = self.libc(LibcFn::Malloc);
        let ghost l_malloc = self.log;
        let strcpy = self.libc(LibcFn::Strcpy);
        let ghost l_strcpy = self.log;
        let strcat = self.libc(LibcFn::Strcat);
        let ghost l_decl = self.log;
        let len1 = self.log.call(strlen, vec![s1], "len1");
        let len2 = self.log.call(strlen, vec![s2], "len2");
        let total = self.log.arith(ArithOp::IntAdd, len1, len2, "total");
        let one = self.log.const_int(LlvmType::I64, 1, false);
        let size = self.log.arith(ArithOp::IntAdd, total, one, "bufsize");
        let buffer = self.log.call(malloc, vec![size], "buf");
        let ghost l_buf = self.log;
        let k1 = self.log.call(strcpy, vec![buffer, s1], "");
        let ghost l_k1 = self.log;
        let k2 = self.log.call(strcat, vec![buffer, s2], "");
        proof {
            let fin = self.log;
            assert(fin.ops_view()[strlen as int] == l_strlen.ops_view()[strlen as int]);
            assert(fin.ops_view()[malloc as int] == l_malloc.ops_view()[malloc as int]);
            assert(fin.ops_view()[strcpy as int] == l_strcpy.ops_view()[strcpy as int]);
            assert(fin.ops_view()[strcat as int] == l_decl.ops_view()[strcat as int]);
            assert(fin.ops_view()[len1 as int] == l_buf.ops_view()[len1 as int]);
            assert(fin.ops_view()[len2 as int] == l_buf.ops_view()[len2 as int]);
            assert(fin.ops_view()[total as int] == l_buf.ops_view()[total as int]);
            assert(fin.ops_view()[one as int] == l_buf.ops_view()[one as int]);
            assert(fin.ops_view()[size as int] == l_buf.ops_view()[size as int]);
            assert(fin.ops_view()[buffer as int] == l_buf.ops_view()[buffer as int]);
            assert(fin.ops_view()[k1 as int] == l_k1.ops_view()[k1 as int]);
            assert(strlen_of(fin, len1 as int, s1));
            assert(strlen_of(fin, len2 as int, s2));
            assert(concatenated(fin, buffer, s1, s2));
        }
        buffer
    }
}

} // verus!
