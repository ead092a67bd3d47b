//! Lowering of the standard library: `Math`, conversions, `Str`, console
//! input, `File`, `Time`, `System` and `Args`, on top of the C library.

use vstd::prelude::*;
use crate::ast::{Expr, Literal, UnaryOp};
use crate::error::CodegenError;
use crate::codegen::{Codegen, HostOs, error};
use crate::stmts::keeps_tables;
use crate::layout::{LlvmType, LlvmTypeV};
use crate::lowering::IntPredicate;
use crate::externs::LibcFn;
use crate::ir::{ArithOp, CastOp, GlobalInit, Op, InstrLog};
use crate::dispatch::error_naming;
use crate::text::str_eq;
use crate::stdlib::spec_stdlib_arity;

verus! {

broadcast use vstd::std_specs::vec::group_vec_axioms;

/// The IEEE-754 bits of the `double` nearest to pi.
pub const PI_BITS: u64 = 0x400921fb54442d18;
/// The IEEE-754 bits of the `double` nearest to e.
pub const E_BITS: u64 = 0x4005bf0a8b145769;
/// The IEEE-754 bits of 32767.0, the largest value `rand` returns.
pub const RAND_MAX_BITS: u64 = 0x40dfffc000000000;

/// The math entries and the conversions `to_float`, `to_int`, `to_string`.
pub open spec fn spec_math_entry(name: Seq<char>) -> bool {
    name == "Math__abs"@
    || name == "Math__min"@
    || name == "Math__max"@
    || name == "Math__sqrt"@
    || name == "Math__pow"@
    || name == "Math__sin"@
    || name == "Math__cos"@
    || name == "Math__tan"@
    || name == "Math__log"@
    || name == "Math__log10"@
    || name == "Math__exp"@
    || name == "Math__floor"@
    || name == "Math__ceil"@
    || name == "Math__round"@
    || name == "Math__random"@
    || name == "Math__pi"@
    || name == "Math__e"@
    || name == "to_float"@
    || name == "to_int"@
    || name == "to_string"@
}

/// The `Str` entries.
pub open spec fn spec_text_entry(name: Seq<char>) -> bool {
    name == "Str__len"@
    || name == "Str__compare"@
    || name == "Str__concat"@
    || name == "Str__upper"@
    || name == "Str__lower"@
    || name == "Str__trim"@
    || name == "Str__contains"@
    || name == "Str__startsWith"@
    || name == "Str__endsWith"@
}

/// The entries for console input, files, time, the environment and the
/// program arguments.
pub open spec fn spec_system_entry(name: Seq<char>) -> bool {
    name == "read_line"@
    || name == "System__exit"@
    || name == "File__write"@
    || name == "File__read"@
    || name == "File__exists"@
    || name == "File__delete"@
    || name == "Time__now"@
    || name == "Time__unix"@
    || name == "Time__sleep"@
    || name == "System__getenv"@
    || name == "System__shell"@
    || name == "System__exec"@
    || name == "System__cwd"@
    || name == "System__os"@
    || name == "Args__count"@
    || name == "Args__get"@
}

/// Value `v` of `log` is a fresh buffer of `strlen(s) + 1` bytes from
/// `malloc`, into which `transform` was called on characters of `s`, and
/// whose byte at `strlen(s)` the last op sets to 0.
pub open spec fn transformed_copy(log: InstrLog, v: usize, s: usize, transform: usize) -> bool {
    let ops = log.ops_view();
    let buffer = ops[v as int];
    let size = buffer->Call_args@[0];
    let len = ops[size as int]->Arith_lhs;
    let one = ops[size as int]->Arith_rhs;
    &&& buffer is Call && crate::codegen::declares(log, buffer->Call_function, "malloc"@) && buffer->Call_args@.len() == 1
    &&& ops[size as int] matches Op::Arith { op, lhs: _, rhs: _, name: _ } && op == ArithOp::IntAdd
    &&& ops[len as int] is Call && crate::codegen::declares(log, ops[len as int]->Call_function, "strlen"@) && ops[len as int]->Call_args@ == seq![s]
    &&& ops[one as int] == (Op::ConstInt { ty: LlvmType::I64, value: 1, signed: false })
    &&& exists|i: int| 0 <= i < ops.len() && (#[trigger] ops[i] matches Op::Call { function: g, args: _, name: _ } && g == transform)
    &&& ops.len() > 0 && (ops.last() matches Op::Store { ptr: p, value: z }
        && ops[z as int] == (Op::ConstInt { ty: LlvmType::I8, value: 0, signed: false })
        && (ops[p as int] matches Op::Gep { ty: _, ptr: b, indices: ix, name: _ } && b == v && ix@ == seq![len]))
}

/// Value `v` of `log` is the smaller (`min`) or larger of two numbers: for
/// two integers a select of the first where a signed `<` (`>` for the
/// larger) holds, else of the second; otherwise a call of `fmin` (`fmax`)
/// on the two, as doubles.
pub open spec fn min_max_lowered(log: InstrLog, v: usize, min: bool) -> bool {
    let ops = log.ops_view();
    ||| ops[v as int] matches Op::Select { cond: c, then_value: a, else_value: b, name: _ }
        && (ops[c as int] matches Op::IntCompare { pred, lhs, rhs, name: _ }
            && pred == (if min { IntPredicate::Slt } else { IntPredicate::Sgt }) && lhs == a && rhs == b)
    ||| ops[v as int] matches Op::Call { function: f, args: xs, name: _ }
        && crate::codegen::declares(log, f, if min { "fmin"@ } else { "fmax"@ }) && xs@.len() == 2
}

/// The names of the smaller and larger of two numbers are told apart from
/// each other and from the absolute value.
proof fn lemma_min_max_names()
    ensures
        "Math__min"@ != "Math__abs"@ && "Math__max"@ != "Math__abs"@ && "Math__min"@ != "Math__max"@,
{
    reveal_strlit("Math__min");
    reveal_strlit("Math__max");
    reveal_strlit("Math__abs");
    assert("Math__min"@[6] != "Math__abs"@[6]);
    assert("Math__max"@[6] != "Math__abs"@[6]);
    assert("Math__min"@[7] != "Math__max"@[7]);
}

/// The entries for checks, for leaving the program and for ranges.
pub open spec fn spec_check_entry(name: Seq<char>) -> bool {
    name == "range"@
    || name == "exit"@
    || name == "assert"@
    || name == "assert_true"@
    || name == "assert_false"@
    || name == "assert_eq"@
    || name == "assert_ne"@
    || name == "fail"@
}

/// The standard-library entries are exactly the math, text, system and
/// check entries.
pub proof fn lemma_entry_groups(name: Seq<char>)
    ensures
        spec_stdlib_arity(name) is Some <==> spec_math_entry(name) || spec_text_entry(name) || spec_system_entry(name) || spec_check_entry(name),
{
}

/// No check entry is a math, text or system entry.
pub proof fn lemma_check_entries_apart(name: Seq<char>)
    requires
        spec_check_entry(name),
    ensures
        !spec_math_entry(name) && !spec_text_entry(name) && !spec_system_entry(name),
{
    reveal_strlit("range");
    assert("range"@.len() == 5);
    reveal_strlit("Math__abs");
    assert("Math__abs"@.len() == 9);
    reveal_strlit("Math__min");
    assert("Math__min"@.len() == 9);
    reveal_strlit("Math__max");
    assert("Math__max"@.len() == 9);
    reveal_strlit("Math__sqrt");
    assert("Math__sqrt"@.len() == 10);
    reveal_strlit("Math__pow");
    assert("Math__pow"@.len() == 9);
    reveal_strlit("Math__sin");
    assert("Math__sin"@.len() == 9);
    reveal_strlit("Math__cos");
    assert("Math__cos"@.len() == 9);
    reveal_strlit("Math__tan");
    assert("Math__tan"@.len() == 9);
    reveal_strlit("Math__floor");
    assert("Math__floor"@.len() == 11);
    reveal_strlit("Math__ceil");
    assert("Math__ceil"@.len() == 10);
    reveal_strlit("Math__round");
    assert("Math__round"@.len() == 11);
    reveal_strlit("Math__log");
    assert("Math__log"@.len() == 9);
    reveal_strlit("Math__log10");
    assert("Math__log10"@.len() == 11);
    reveal_strlit("Math__exp");
    assert("Math__exp"@.len() == 9);
    reveal_strlit("Math__random");
    assert("Math__random"@.len() == 12);
    reveal_strlit("Math__pi");
    assert("Math__pi"@.len() == 8);
    reveal_strlit("Math__e");
    assert("Math__e"@.len() == 7);
    reveal_strlit("to_float");
    assert("to_float"@.len() == 8);
    reveal_strlit("to_int");
    assert("to_int"@.len() == 6);
    reveal_strlit("to_string");
    assert("to_string"@.len() == 9);
    reveal_strlit("Str__len");
    assert("Str__len"@.len() == 8);
    reveal_strlit("Str__compare");
    assert("Str__compare"@.len() == 12);
    reveal_strlit("Str__concat");
    assert("Str__concat"@.len() == 11);
    reveal_strlit("Str__upper");
    assert("Str__upper"@.len() == 10);
    reveal_strlit("Str__lower");
    assert("Str__lower"@.len() == 10);
    reveal_strlit("Str__trim");
    assert("Str__trim"@.len() == 9);
    reveal_strlit("Str__contains");
    assert("Str__contains"@.len() == 13);
    reveal_strlit("Str__startsWith");
    assert("Str__startsWith"@.len() == 15);
    reveal_strlit("Str__endsWith");
    assert("Str__endsWith"@.len() == 13);
    reveal_strlit("read_line");
    assert("read_line"@.len() == 9);
    reveal_strlit("System__exit");
    assert("System__exit"@.len() == 12);
    reveal_strlit("File__write");
    assert("File__write"@.len() == 11);
    reveal_strlit("File__read");
    assert("File__read"@.len() == 10);
    reveal_strlit("File__exists");
    assert("File__exists"@.len() == 12);
    reveal_strlit("File__delete");
    assert("File__delete"@.len() == 12);
    reveal_strlit("Time__now");
    assert("Time__now"@.len() == 9);
    reveal_strlit("Time__unix");
    assert("Time__unix"@.len() == 10);
    reveal_strlit("Time__sleep");
    assert("Time__sleep"@.len() == 11);
    reveal_strlit("System__getenv");
    assert("System__getenv"@.len() == 14);
    reveal_strlit("System__shell");
    assert("System__shell"@.len() == 13);
    reveal_strlit("System__exec");
    assert("System__exec"@.len() == 12);
    reveal_strlit("System__cwd");
    assert("System__cwd"@.len() == 11);
    reveal_strlit("System__os");
    assert("System__os"@.len() == 10);
    reveal_strlit("Args__count");
    assert("Args__count"@.len() == 11);
    reveal_strlit("Args__get");
    assert("Args__get"@.len() == 9);
    reveal_strlit("exit");
    assert("exit"@.len() == 4);
    reveal_strlit("assert");
    assert("assert"@.len() == 6);
    reveal_strlit("assert_true");
    assert("assert_true"@.len() == 11);
    reveal_strlit("assert_false");
    assert("assert_false"@.len() == 12);
    reveal_strlit("assert_eq");
    assert("assert_eq"@.len() == 9);
    reveal_strlit("assert_ne");
    assert("assert_ne"@.len() == 9);
    reveal_strlit("fail");
    assert("fail"@.len() == 4);
    assert("assert"@[0] != "to_int"@[0]);
    assert("assert_true"@[0] != "Math__floor"@[0]);
    assert("assert_true"@[0] != "Math__round"@[0]);
    assert("assert_true"@[0] != "Math__log10"@[0]);
    assert("assert_true"@[0] != "Str__concat"@[0]);
    assert("assert_true"@[0] != "File__write"@[0]);
    assert("assert_true"@[0] != "Time__sleep"@[0]);
    assert("assert_true"@[0] != "System__cwd"@[0]);
    assert("assert_true"@[0] != "Args__count"@[0]);
    assert("assert_false"@[0] != "Math__random"@[0]);
    assert("assert_false"@[0] != "Str__compare"@[0]);
    assert("assert_false"@[0] != "System__exit"@[0]);
    assert("assert_false"@[0] != "File__exists"@[0]);
    assert("assert_false"@[0] != "File__delete"@[0]);
    assert("assert_false"@[0] != "System__exec"@[0]);
    assert("assert_eq"@[0] != "Math__abs"@[0]);
    assert("assert_eq"@[0] != "Math__min"@[0]);
    assert("assert_eq"@[0] != "Math__max"@[0]);
    assert("assert_eq"@[0] != "Math__pow"@[0]);
    assert("assert_eq"@[0] != "Math__sin"@[0]);
    assert("assert_eq"@[0] != "Math__cos"@[0]);
    assert("assert_eq"@[0] != "Math__tan"@[0]);
    assert("assert_eq"@[0] != "Math__log"@[0]);
    assert("assert_eq"@[0] != "Math__exp"@[0]);
    assert("assert_eq"@[0] != "to_string"@[0]);
    assert("assert_eq"@[0] != "Str__trim"@[0]);
    assert("assert_eq"@[0] != "read_line"@[0]);
    assert("assert_eq"@[0] != "Time__now"@[0]);
    assert("assert_eq"@[0] != "Args__get"@[0]);
    assert("assert_ne"@[0] != "Math__abs"@[0]);
    assert("assert_ne"@[0] != "Math__min"@[0]);
    assert("assert_ne"@[0] != "Math__max"@[0]);
    assert("assert_ne"@[0] != "Math__pow"@[0]);
    assert("assert_ne"@[0] != "Math__sin"@[0]);
    assert("assert_ne"@[0] != "Math__cos"@[0]);
    assert("assert_ne"@[0] != "Math__tan"@[0]);
    assert("assert_ne"@[0] != "Math__log"@[0]);
    assert("assert_ne"@[0] != "Math__exp"@[0]);
    assert("assert_ne"@[0] != "to_string"@[0]);
    assert("assert_ne"@[0] != "Str__trim"@[0]);
    assert("assert_ne"@[0] != "read_line"@[0]);
    assert("assert_ne"@[0] != "Time__now"@[0]);
    assert("assert_ne"@[0] != "Args__get"@[0]);
    assert("assert_ne"@[7] != "assert_eq"@[7]);
    assert("fail"@[0] != "exit"@[0]);
}

/// The bits of the smallest `i64`.
pub const I64_MIN_BITS: u64 = 0x8000000000000000;

/// Value `v` of `log` is the absolute value of an integer `x`, lowered
/// after `before`: `x < 0 ? -x : x`, behind a branch, added after
/// `before`, on `x == i64::MIN`.
pub open spec fn abs_lowered(before: InstrLog, log: InstrLog, v: usize) -> bool {
    let ops = log.ops_view();
    &&& ops[v as int] matches Op::Select { cond: c, then_value: n, else_value: x, name: _ }
    &&& ops[c as int] matches Op::IntCompare { pred: IntPredicate::Slt, lhs: l, rhs: z, name: _ } && l == x
        && ops[z as int] == (Op::ConstInt { ty: LlvmType::I64, value: 0, signed: false })
    &&& ops[n as int] matches Op::IntNeg { value: y, name: _ } && y == x
    &&& exists|k: int| before.ops_view().len() <= k < ops.len()
        && (#[trigger] ops[k] matches Op::CondBranch { cond: e, then_block: _, else_block: _ }
        && (ops[e as int] matches Op::IntCompare { pred: IntPredicate::Eq, lhs: y, rhs: m, name: _ } && y == x
        && ops[m as int] == (Op::ConstInt { ty: LlvmType::I64, value: I64_MIN_BITS, signed: true })))
}

/// `e` is a negative integer constant: a negative integer literal, or a
/// positive one negated.
pub open spec fn negative_int_constant(e: Expr) -> bool {
    match e {
        Expr::Literal(Literal::Integer(n)) => n < 0,
        Expr::Unary { op: UnaryOp::Neg, expr } => (*expr matches Expr::Literal(Literal::Integer(n)) && n > 0),
        _ => false,
    }
}

/// Whether `e` is a negative integer constant.
fn is_negative_int_constant(e: &Expr) -> (r: bool)
    ensures
        r == negative_int_constant(*e),
{
    match e {
        Expr::Literal(Literal::Integer(n)) => *n < 0,
        Expr::Unary { op: UnaryOp::Neg, expr } => match &**expr {
            Expr::Literal(Literal::Integer(n)) => *n > 0,
            _ => false,
        },
        _ => false,
    }
}

/// Op `k` of `log`, added after `before`, branches on `x pred 0` (with
/// `0` an `i64` constant).
pub open spec fn checks_before(before: InstrLog, log: InstrLog, x: usize, pred: IntPredicate, k: int) -> bool {
    let ops = log.ops_view();
    &&& before.ops_view().len() <= k < ops.len()
    &&& ops[k] matches Op::CondBranch { cond: c, then_block: _, else_block: _ } && c < k
        && (ops[c as int] matches Op::IntCompare { pred: p, lhs: l, rhs: z, name: _ } && p == pred && l == x && z < k
        && ops[z as int] == (Op::ConstInt { ty: LlvmType::I64, value: 0, signed: false }))
}

/// A check stays what it is as the log grows.
pub proof fn lemma_checks_before_kept(before: InstrLog, a: InstrLog, b: InstrLog, x: usize, pred: IntPredicate, k: int)
    requires
        checks_before(before, a, x, pred, k),
        crate::stmts::prefix_of(a.ops_view(), b.ops_view()),
    ensures
        checks_before(before, b, x, pred, k),
{
    let c = a.ops_view()[k]->CondBranch_cond;
    let z = a.ops_view()[c as int]->IntCompare_rhs;
    assert(b.ops_view()[k] == a.ops_view()[k]);
    assert(b.ops_view()[c as int] == a.ops_view()[c as int]);
    assert(b.ops_view()[z as int] == a.ops_view()[z as int]);
}

/// Op `k` of `log`, added after `before`, branches on `x < n`.
pub open spec fn bounded_at(before: InstrLog, log: InstrLog, x: usize, n: usize, k: int) -> bool {
    let ops = log.ops_view();
    &&& before.ops_view().len() <= k < ops.len()
    &&& ops[k] matches Op::CondBranch { cond: c, then_block: _, else_block: _ } && c < k
        && (ops[c as int] matches Op::IntCompare { pred: IntPredicate::Slt, lhs: l, rhs: m, name: _ } && l == x && m == n)
}

/// A bound check stays what it is as the log grows.
pub proof fn lemma_bounded_at_kept(before: InstrLog, a: InstrLog, b: InstrLog, x: usize, n: usize, k: int)
    requires
        bounded_at(before, a, x, n, k),
        crate::stmts::prefix_of(a.ops_view(), b.ops_view()),
    ensures
        bounded_at(before, b, x, n, k),
{
    let c = a.ops_view()[k]->CondBranch_cond;
    assert(b.ops_view()[k] == a.ops_view()[k]);
    assert(b.ops_view()[c as int] == a.ops_view()[c as int]);
}

/// Value `v` of `log` is `argv[i]`, read after two branches added after
/// `before`: one on `i >= 0`, one on `i < argc` (the saved `argc`, sign
/// extended).
pub open spec fn args_get_lowered(before: InstrLog, log: InstrLog, v: usize) -> bool {
    let ops = log.ops_view();
    &&& ops[v as int] matches Op::Load { ty: LlvmType::Ptr, ptr: p, name: _ }
        && (ops[p as int] matches Op::Gep { ty: LlvmType::Ptr, ptr: _, indices: ix, name: _ } && ix@.len() == 1
        && (exists|k: int| #[trigger] checks_before(before, log, ix@[0], IntPredicate::Sge, k))
        && (exists|n: usize, k: int| #[trigger] bounded_at(before, log, ix@[0], n, k)
            && ops[n as int] matches Op::Cast { op: CastOp::SignExtend, value: _, ty: LlvmType::I64, name: _ }))
}

/// The entries with run-time checks are told apart from the math and text
/// entries and from the system entries tested before them.
proof fn lemma_checked_system_entries()
    ensures
        !spec_math_entry("Time__sleep"@) && !spec_text_entry("Time__sleep"@),
        "Time__sleep"@ != "read_line"@,
        "Time__sleep"@ != "System__exit"@,
        "Time__sleep"@ != "File__write"@,
        "Time__sleep"@ != "File__read"@,
        "Time__sleep"@ != "File__exists"@,
        "Time__sleep"@ != "File__delete"@,
        "Time__sleep"@ != "Time__now"@,
        "Time__sleep"@ != "Time__unix"@,
        !spec_math_entry("Args__get"@) && !spec_text_entry("Args__get"@),
        "Args__get"@ != "read_line"@,
        "Args__get"@ != "System__exit"@,
        "Args__get"@ != "File__write"@,
        "Args__get"@ != "File__read"@,
        "Args__get"@ != "File__exists"@,
        "Args__get"@ != "File__delete"@,
        "Args__get"@ != "Time__now"@,
        "Args__get"@ != "Time__unix"@,
        "Args__get"@ != "Time__sleep"@,
        "Args__get"@ != "System__getenv"@,
        "Args__get"@ != "System__shell"@,
        "Args__get"@ != "System__exec"@,
        "Args__get"@ != "System__cwd"@,
        "Args__get"@ != "System__os"@,
        "Args__get"@ != "Args__count"@,
{
    reveal_strlit("Args__count");
    assert("Args__count"@.len() == 11);
    reveal_strlit("Args__get");
    assert("Args__get"@.len() == 9);
    reveal_strlit("File__delete");
    assert("File__delete"@.len() == 12);
    reveal_strlit("File__exists");
    assert("File__exists"@.len() == 12);
    reveal_strlit("File__read");
    assert("File__read"@.len() == 10);
    reveal_strlit("File__write");
    assert("File__write"@.len() == 11);
    reveal_strlit("Math__abs");
    assert("Math__abs"@.len() == 9);
    reveal_strlit("Math__ceil");
    assert("Math__ceil"@.len() == 10);
    reveal_strlit("Math__cos");
    assert("Math__cos"@.len() == 9);
    reveal_strlit("Math__e");
    assert("Math__e"@.len() == 7);
    reveal_strlit("Math__exp");
    assert("Math__exp"@.len() == 9);
    reveal_strlit("Math__floor");
    assert("Math__floor"@.len() == 11);
    reveal_strlit("Math__log");
    assert("Math__log"@.len() == 9);
    reveal_strlit("Math__log10");
    assert("Math__log10"@.len() == 11);
    reveal_strlit("Math__max");
    assert("Math__max"@.len() == 9);
    reveal_strlit("Math__min");
    assert("Math__min"@.len() == 9);
    reveal_strlit("Math__pi");
    assert("Math__pi"@.len() == 8);
    reveal_strlit("Math__pow");
    assert("Math__pow"@.len() == 9);
    reveal_strlit("Math__random");
    assert("Math__random"@.len() == 12);
    reveal_strlit("Math__round");
    assert("Math__round"@.len() == 11);
    reveal_strlit("Math__sin");
    assert("Math__sin"@.len() == 9);
    reveal_strlit("Math__sqrt");
    assert("Math__sqrt"@.len() == 10);
    reveal_strlit("Math__tan");
    assert("Math__tan"@.len() == 9);
    reveal_strlit("Str__compare");
    assert("Str__compare"@.len() == 12);
    reveal_strlit("Str__concat");
    assert("Str__concat"@.len() == 11);
    reveal_strlit("Str__contains");
    assert("Str__contains"@.len() == 13);
    reveal_strlit("Str__endsWith");
    assert("Str__endsWith"@.len() == 13);
    reveal_strlit("Str__len");
    assert("Str__len"@.len() == 8);
    reveal_strlit("Str__lower");
    assert("Str__lower"@.len() == 10);
    reveal_strlit("Str__startsWith");
    assert("Str__startsWith"@.len() == 15);
    reveal_strlit("Str__trim");
    assert("Str__trim"@.len() == 9);
    reveal_strlit("Str__upper");
    assert("Str__upper"@.len() == 10);
    reveal_strlit("System__cwd");
    assert("System__cwd"@.len() == 11);
    reveal_strlit("System__exec");
    assert("System__exec"@.len() == 12);
    reveal_strlit("System__exit");
    assert("System__exit"@.len() == 12);
    reveal_strlit("System__getenv");
    assert("System__getenv"@.len() == 14);
    reveal_strlit("System__os");
    assert("System__os"@.len() == 10);
    reveal_strlit("System__shell");
    assert("System__shell"@.len() == 13);
    reveal_strlit("Time__now");
    assert("Time__now"@.len() == 9);
    reveal_strlit("Time__sleep");
    assert("Time__sleep"@.len() == 11);
    reveal_strlit("Time__unix");
    assert("Time__unix"@.len() == 10);
    reveal_strlit("read_line");
    assert("read_line"@.len() == 9);
    reveal_strlit("to_float");
    assert("to_float"@.len() == 8);
    reveal_strlit("to_int");
    assert("to_int"@.len() == 6);
    reveal_strlit("to_string");
    assert("to_string"@.len() == 9);
    assert("Time__sleep"@[0] != "Math__log10"@[0]);
    assert("Time__sleep"@[0] != "Math__floor"@[0]);
    assert("Time__sleep"@[0] != "Math__round"@[0]);
    assert("Time__sleep"@[0] != "Str__concat"@[0]);
    assert("Time__sleep"@[0] != "File__write"@[0]);
    assert("Args__get"@[0] != "Math__abs"@[0]);
    assert("Args__get"@[0] != "Math__min"@[0]);
    assert("Args__get"@[0] != "Math__max"@[0]);
    assert("Args__get"@[0] != "Math__pow"@[0]);
    assert("Args__get"@[0] != "Math__sin"@[0]);
    assert("Args__get"@[0] != "Math__cos"@[0]);
    assert("Args__get"@[0] != "Math__tan"@[0]);
    assert("Args__get"@[0] != "Math__log"@[0]);
    assert("Args__get"@[0] != "Math__exp"@[0]);
    assert("Args__get"@[0] != "to_string"@[0]);
    assert("Args__get"@[0] != "Str__trim"@[0]);
    assert("Args__get"@[0] != "read_line"@[0]);
    assert("Args__get"@[0] != "Time__now"@[0]);
}

/// String concatenation and the suffix test are told apart from the math
/// entries and from the text entries tested before them.
proof fn lemma_concat_and_suffix_entries()
    ensures
        !spec_math_entry("Str__concat"@),
        "Str__concat"@ != "Str__len"@,
        "Str__concat"@ != "Str__compare"@,
        !spec_math_entry("Str__endsWith"@),
        "Str__endsWith"@ != "Str__len"@,
        "Str__endsWith"@ != "Str__compare"@,
        "Str__endsWith"@ != "Str__concat"@,
        "Str__endsWith"@ != "Str__upper"@,
        "Str__endsWith"@ != "Str__lower"@,
        "Str__endsWith"@ != "Str__trim"@,
        "Str__endsWith"@ != "Str__contains"@,
        "Str__endsWith"@ != "Str__startsWith"@,
{
    reveal_strlit("Math__abs");
    assert("Math__abs"@.len() == 9);
    reveal_strlit("Math__ceil");
    assert("Math__ceil"@.len() == 10);
    reveal_strlit("Math__cos");
    assert("Math__cos"@.len() == 9);
    reveal_strlit("Math__e");
    assert("Math__e"@.len() == 7);
    reveal_strlit("Math__exp");
    assert("Math__exp"@.len() == 9);
    reveal_strlit("Math__floor");
    assert("Math__floor"@.len() == 11);
    reveal_strlit("Math__log");
    assert("Math__log"@.len() == 9);
    reveal_strlit("Math__log10");
    assert("Math__log10"@.len() == 11);
    reveal_strlit("Math__max");
    assert("Math__max"@.len() == 9);
    reveal_strlit("Math__min");
    assert("Math__min"@.len() == 9);
    reveal_strlit("Math__pi");
    assert("Math__pi"@.len() == 8);
    reveal_strlit("Math__pow");
    assert("Math__pow"@.len() == 9);
    reveal_strlit("Math__random");
    assert("Math__random"@.len() == 12);
    reveal_strlit("Math__round");
    assert("Math__round"@.len() == 11);
    reveal_strlit("Math__sin");
    assert("Math__sin"@.len() == 9);
    reveal_strlit("Math__sqrt");
    assert("Math__sqrt"@.len() == 10);
    reveal_strlit("Math__tan");
    assert("Math__tan"@.len() == 9);
    reveal_strlit("Str__compare");
    assert("Str__compare"@.len() == 12);
    reveal_strlit("Str__concat");
    assert("Str__concat"@.len() == 11);
    reveal_strlit("Str__contains");
    assert("Str__contains"@.len() == 13);
    reveal_strlit("Str__endsWith");
    assert("Str__endsWith"@.len() == 13);
    reveal_strlit("Str__len");
    assert("Str__len"@.len() == 8);
    reveal_strlit("Str__lower");
    assert("Str__lower"@.len() == 10);
    reveal_strlit("Str__startsWith");
    assert("Str__startsWith"@.len() == 15);
    reveal_strlit("Str__trim");
    assert("Str__trim"@.len() == 9);
    reveal_strlit("Str__upper");
    assert("Str__upper"@.len() == 10);
    reveal_strlit("to_float");
    assert("to_float"@.len() == 8);
    reveal_strlit("to_int");
    assert("to_int"@.len() == 6);
    reveal_strlit("to_string");
    assert("to_string"@.len() == 9);
    assert("Str__concat"@[0] != "Math__log10"@[0]);
    assert("Str__concat"@[0] != "Math__floor"@[0]);
    assert("Str__concat"@[0] != "Math__round"@[0]);
    assert("Str__endsWith"@[5] != "Str__contains"@[5]);
}

/// Value `v` of `log` tests whether string `s` ends with string `suf`:
/// `strlen(s) >= strlen(suf)` (unsigned) and `strcmp` of the last
/// `strlen(suf)` bytes of `s` with `suf` is 0.
pub open spec fn ends_with_lowered(log: InstrLog, v: usize, s: usize, suf: usize) -> bool {
    let ops = log.ops_view();
    ops[v as int] matches Op::Arith { op: ArithOp::And, lhs: can_end, rhs: is_zero, name: _ }
    && (ops[can_end as int] matches Op::IntCompare { pred: IntPredicate::Uge, lhs: l1, rhs: l2, name: _ }
        && crate::builtins::strlen_of(log, l1 as int, s) && crate::builtins::strlen_of(log, l2 as int, suf))
    && (ops[is_zero as int] matches Op::IntCompare { pred: IntPredicate::Eq, lhs: c, rhs: z, name: _ }
        && ops[z as int] == (Op::ConstInt { ty: LlvmType::I32, value: 0, signed: false })
        && (ops[c as int] matches Op::Call { function: f, args: a, name: _ } && crate::codegen::declares(log, f, "strcmp"@)
        && a@.len() == 2 && a@[1] == suf
        && (ops[a@[0] as int] matches Op::Gep { ty: LlvmType::I8, ptr: p, indices: ix, name: _ } && p == s && ix@.len() == 1
        && (ops[ix@[0] as int] matches Op::Arith { op: ArithOp::IntSub, lhs: m1, rhs: m2, name: _ }
        && crate::builtins::strlen_of(log, m1 as int, s) && crate::builtins::strlen_of(log, m2 as int, suf)))))
}

/// Value `v` of `log` concatenates two strings (see `concatenated`).
pub open spec fn concat_built(log: InstrLog, v: usize) -> bool {
    exists|a: usize, b: usize| #[trigger] crate::builtins::concatenated(log, v, a, b)
}

/// Value `v` of `log` tests whether one string ends with another (see
/// `ends_with_lowered`).
pub open spec fn ends_with_built(log: InstrLog, v: usize) -> bool {
    exists|a: usize, b: usize| #[trigger] ends_with_lowered(log, v, a, b)
}

/// Op `x` of `log`.
pub open spec fn op_at(log: InstrLog, x: usize) -> Op {
    log.ops_view()[x as int]
}

/// Value `d` of `log`, computed before op `at`, is the double of the value
/// of the argument `e`: an integer literal converted (signed) to a double,
/// or a float literal itself.
pub open spec fn double_of_arg(log: InstrLog, d: usize, e: Expr, at: int) -> bool {
    let ops = log.ops_view();
    &&& d < at
    &&& e matches Expr::Literal(Literal::Integer(_)) ==> (ops[d as int] matches Op::Cast { op: CastOp::SignedToFloat, value: x, ty: LlvmType::F64, name: _ }
        && x < d && crate::exprs::materialises(e->Literal_0, ops[x as int]))
    &&& e matches Expr::Literal(Literal::Float(b)) ==> ops[d as int] == (Op::ConstFloat { bits: b })
}

/// Value `v` of `log` is `pow(a, b)` for the arguments `args == [a, b]`: a
/// call of the C function `pow` whose first argument is the double of `a`
/// (the base) and whose second is the double of `b` (the exponent).
pub open spec fn pow_lowered(log: InstrLog, v: usize, args: Seq<Expr>) -> bool {
    let ops = log.ops_view();
    ops[v as int] matches Op::Call { function: f, args: a, name: _ } && crate::codegen::declares(log, f, "pow"@)
        && a@.len() == 2 && double_of_arg(log, a@[0], args[0], v as int) && double_of_arg(log, a@[1], args[1], v as int)
}

/// `Math.pow(a, b)` raises the base `a` to the exponent `b`: in what
/// `compile_stdlib_function` emits for `Math__pow` on the integer literals
/// `a` and `b`, the call's first argument is `a` converted (signed) to a
/// double and its second is `b` converted likewise, so where `a != b` the
/// two arguments differ and the base is never passed as the exponent.
pub proof fn law_pow_takes_the_base_first(log: InstrLog, v: usize, a: i64, b: i64)
    requires
        pow_lowered(log, v, seq![Expr::Literal(Literal::Integer(a)), Expr::Literal(Literal::Integer(b))]),
    ensures
        log.ops_view()[v as int] matches Op::Call { function: f, args: x, name: _ } && crate::codegen::declares(log, f, "pow"@) && x@.len() == 2
            && (log.ops_view()[x@[0] as int] matches Op::Cast { op: CastOp::SignedToFloat, value: p, ty: _, name: _ }
                && log.ops_view()[p as int] == (Op::ConstInt { ty: LlvmType::I64, value: a as u64, signed: true }))
            && (log.ops_view()[x@[1] as int] matches Op::Cast { op: CastOp::SignedToFloat, value: q, ty: _, name: _ }
                && log.ops_view()[q as int] == (Op::ConstInt { ty: LlvmType::I64, value: b as u64, signed: true }))
            && (a != b ==> log.ops_view()[log.ops_view()[x@[0] as int]->Cast_value as int] != log.ops_view()[log.ops_view()[x@[1] as int]->Cast_value as int]),
{
    let args = seq![Expr::Literal(Literal::Integer(a)), Expr::Literal(Literal::Integer(b))];
    assert(args[0] == Expr::Literal(Literal::Integer(a)));
    assert(args[1] == Expr::Literal(Literal::Integer(b)));
    if a != b {
        assert(a as u64 != b as u64) by (bit_vector)
            requires a != b;
    }
}

/// Op `k` of `log`, added after `before`, is a run-time check of
/// `passed`: a conditional branch on it whose target for a passing value (a
/// true `passed`, or a false one when `fail_on_true`) is a new block named
/// `ok_name` and whose other target is a different, new block named
/// `panic_name`.
pub open spec fn check_branch_at(before: InstrLog, log: InstrLog, k: int, passed: usize, fail_on_true: bool, ok_name: Seq<char>, panic_name: Seq<char>) -> bool {
    let ops = log.ops_view();
    &&& before.ops_view().len() <= k < ops.len()
    &&& ops[k] matches Op::CondBranch { cond, then_block: t, else_block: e } && cond == passed && t != e
        && before.ops_view().len() <= t < k && before.ops_view().len() <= e < k
        && (ops[(if fail_on_true { e } else { t }) as int] matches Op::AppendBlock { function: _, name: n } && n@ == ok_name)
        && (ops[(if fail_on_true { t } else { e }) as int] matches Op::AppendBlock { function: _, name: n } && n@ == panic_name)
}

/// Between `before` and `after` a run-time check (see `check_branch_at`)
/// of the value of the argument `arg` was emitted, that value being
/// computed before the branch; a literal argument is the constant it
/// denotes.
pub open spec fn checks_argument(before: InstrLog, after: InstrLog, fail_on_true: bool, ok_name: Seq<char>, panic_name: Seq<char>, arg: Expr) -> bool {
    exists|k: int, x: usize| #[trigger] check_branch_at(before, after, k, x, fail_on_true, ok_name, panic_name) && x < k
        && (arg is Literal ==> crate::exprs::materialises(arg->Literal_0, after.ops_view()[x as int]))
}

/// Between `before` and `after` a run-time check (see `check_branch_at`)
/// of a comparison of two values was emitted: by `==` when `equal`, by
/// `!=` otherwise, on integers or on floats.
pub open spec fn checks_comparison(before: InstrLog, after: InstrLog, equal: bool, ok_name: Seq<char>, panic_name: Seq<char>) -> bool {
    exists|k: int, x: usize| #[trigger] check_branch_at(before, after, k, x, false, ok_name, panic_name) && x < k
        && (match after.ops_view()[x as int] {
            Op::IntCompare { pred, lhs: _, rhs: _, name: _ } => pred == (if equal { IntPredicate::Eq } else { IntPredicate::Ne }),
            Op::FloatCompare { pred, lhs: _, rhs: _, name: _ } => pred == (if equal { crate::lowering::FloatPredicate::Oeq } else { crate::lowering::FloatPredicate::One }),
            _ => false,
        })
}

/// A check stays what it is as the log grows.
pub proof fn lemma_check_branch_kept(before: InstrLog, a: InstrLog, b: InstrLog, k: int, x: usize, fail_on_true: bool, ok_name: Seq<char>, panic_name: Seq<char>)
    requires
        check_branch_at(before, a, k, x, fail_on_true, ok_name, panic_name),
        crate::stmts::prefix_of(a.ops_view(), b.ops_view()),
    ensures
        check_branch_at(before, b, k, x, fail_on_true, ok_name, panic_name),
{
    let ops = a.ops_view();
    let t = ops[k]->CondBranch_then_block;
    let e = ops[k]->CondBranch_else_block;
    assert(b.ops_view()[k] == ops[k]);
    assert(b.ops_view()[t as int] == ops[t as int]);
    assert(b.ops_view()[e as int] == ops[e as int]);
}

/// Value `x` of `log` is that of the argument `e`, as far as a literal
/// shows it: a string literal's text, any other literal's constant.
pub open spec fn arg_is(log: InstrLog, x: usize, e: Expr) -> bool {
    &&& x < log.ops_view().len()
    &&& e matches Expr::Literal(Literal::String(t)) ==> crate::codegen::names_text(log, x, t@)
    &&& (e is Literal && !(e->Literal_0 is String)) ==> crate::exprs::materialises(e->Literal_0, log.ops_view()[x as int])
}

/// Appending to the log keeps what an argument's value is.
pub proof fn lemma_arg_is_kept(a: InstrLog, b: InstrLog, x: usize, e: Expr)
    requires
        arg_is(a, x, e),
        crate::stmts::prefix_of(a.ops_view(), b.ops_view()),
    ensures
        arg_is(b, x, e),
{
    assert(b.ops_view()[x as int] == a.ops_view()[x as int]);
    if let Expr::Literal(Literal::String(t)) = e {
        crate::codegen::lemma_names_text_kept(a, b, x, t@);
    }
}

/// Value `c` of `log` is a call of the C function `fname` whose first two
/// arguments are the values of `args[0]` and `args[1]`, in this order.
pub open spec fn string_call(log: InstrLog, c: int, fname: Seq<char>, args: Seq<Expr>) -> bool {
    log.ops_view()[c] matches Op::Call { function: f, args: x, name: _ } && crate::codegen::declares(log, f, fname)
        && x@.len() >= 2 && arg_is(log, x@[0], args[0]) && arg_is(log, x@[1], args[1])
}

/// Value `v` of `log` is `Str.compare(args[0], args[1])`: `strcmp` of the
/// first string with the second, widened to `i64`.
pub open spec fn compare_of(log: InstrLog, v: usize, args: Seq<Expr>) -> bool {
    log.ops_view()[v as int] matches Op::Cast { op: CastOp::SignExtend, value: c, ty: _, name: _ }
        && string_call(log, c as int, "strcmp"@, args)
}

/// Value `v` of `log` is `Str.contains(args[0], args[1])`: whether
/// `strstr` of the first string (the haystack) for the second (the
/// needle) is not null.
pub open spec fn contains_of(log: InstrLog, v: usize, args: Seq<Expr>) -> bool {
    log.ops_view()[v as int] matches Op::Not { value: n, name: _ }
        && (log.ops_view()[n as int] matches Op::IsNull { ptr: p, name: _ } && string_call(log, p as int, "strstr"@, args))
}

/// Value `v` of `log` is `Str.startsWith(args[0], args[1])`: whether
/// `strncmp` of the first string with the second, over the second's
/// length, is 0.
pub open spec fn starts_with_of(log: InstrLog, v: usize, args: Seq<Expr>) -> bool {
    log.ops_view()[v as int] matches Op::IntCompare { pred: IntPredicate::Eq, lhs: c, rhs: z, name: _ }
        && log.ops_view()[z as int] == (Op::ConstInt { ty: LlvmType::I32, value: 0, signed: false })
        && string_call(log, c as int, "strncmp"@, args)
        && log.ops_view()[c as int]->Call_args@.len() == 3
        && crate::builtins::strlen_of(log, log.ops_view()[c as int]->Call_args@[2] as int, log.ops_view()[c as int]->Call_args@[1])
}

/// Value `v` of `log` is `Str.endsWith(args[0], args[1])` (see
/// `ends_with_lowered`), tested of the first string with the second.
pub open spec fn ends_with_of(log: InstrLog, v: usize, args: Seq<Expr>) -> bool {
    exists|a: usize, b: usize| #[trigger] ends_with_lowered(log, v, a, b) && arg_is(log, a, args[0]) && arg_is(log, b, args[1])
}

/// Value `v` of `log` is `Str.concat(args[0], args[1])` (see
/// `concatenated`): the first string followed by the second.
pub open spec fn concat_of(log: InstrLog, v: usize, args: Seq<Expr>) -> bool {
    exists|a: usize, b: usize| #[trigger] crate::builtins::concatenated(log, v, a, b) && arg_is(log, a, args[0]) && arg_is(log, b, args[1])
}

/// The two-string entries are told apart from the math entries and from
/// the text entries tested before them.
proof fn lemma_two_string_entries()
    ensures
        !spec_math_entry("Str__compare"@),
        "Str__compare"@ != "Str__len"@,
        !spec_math_entry("Str__contains"@),
        "Str__contains"@ != "Str__len"@,
        "Str__contains"@ != "Str__compare"@,
        "Str__contains"@ != "Str__concat"@,
        "Str__contains"@ != "Str__upper"@,
        "Str__contains"@ != "Str__lower"@,
        "Str__contains"@ != "Str__trim"@,
        !spec_math_entry("Str__startsWith"@),
        "Str__startsWith"@ != "Str__len"@,
        "Str__startsWith"@ != "Str__compare"@,
        "Str__startsWith"@ != "Str__concat"@,
        "Str__startsWith"@ != "Str__upper"@,
        "Str__startsWith"@ != "Str__lower"@,
        "Str__startsWith"@ != "Str__trim"@,
        "Str__startsWith"@ != "Str__contains"@,
{
    reveal_strlit("Math__abs");
    assert("Math__abs"@.len() == 9);
    reveal_strlit("Math__ceil");
    assert("Math__ceil"@.len() == 10);
    reveal_strlit("Math__cos");
    assert("Math__cos"@.len() == 9);
    reveal_strlit("Math__e");
    assert("Math__e"@.len() == 7);
    reveal_strlit("Math__exp");
    assert("Math__exp"@.len() == 9);
    reveal_strlit("Math__floor");
    assert("Math__floor"@.len() == 11);
    reveal_strlit("Math__log");
    assert("Math__log"@.len() == 9);
    reveal_strlit("Math__log10");
    assert("Math__log10"@.len() == 11);
    reveal_strlit("Math__max");
    assert("Math__max"@.len() == 9);
    reveal_strlit("Math__min");
    assert("Math__min"@.len() == 9);
    reveal_strlit("Math__pi");
    assert("Math__pi"@.len() == 8);
    reveal_strlit("Math__pow");
    assert("Math__pow"@.len() == 9);
    reveal_strlit("Math__random");
    assert("Math__random"@.len() == 12);
    reveal_strlit("Math__round");
    assert("Math__round"@.len() == 11);
    reveal_strlit("Math__sin");
    assert("Math__sin"@.len() == 9);
    reveal_strlit("Math__sqrt");
    assert("Math__sqrt"@.len() == 10);
    reveal_strlit("Math__tan");
    assert("Math__tan"@.len() == 9);
    reveal_strlit("Str__compare");
    assert("Str__compare"@.len() == 12);
    reveal_strlit("Str__concat");
    assert("Str__concat"@.len() == 11);
    reveal_strlit("Str__contains");
    assert("Str__contains"@.len() == 13);
    reveal_strlit("Str__endsWith");
    assert("Str__endsWith"@.len() == 13);
    reveal_strlit("Str__len");
    assert("Str__len"@.len() == 8);
    reveal_strlit("Str__lower");
    assert("Str__lower"@.len() == 10);
    reveal_strlit("Str__startsWith");
    assert("Str__startsWith"@.len() == 15);
    reveal_strlit("Str__trim");
    assert("Str__trim"@.len() == 9);
    reveal_strlit("Str__upper");
    assert("Str__upper"@.len() == 10);
    reveal_strlit("to_float");
    assert("to_float"@.len() == 8);
    reveal_strlit("to_int");
    assert("to_int"@.len() == 6);
    reveal_strlit("to_string");
    assert("to_string"@.len() == 9);
    assert("Str__compare"@[0] != "Math__random"@[0]);
}

/// The one-argument math entries are told apart from the entries tested
/// before them; the square root's C name is its entry's name without the
/// module prefix.
proof fn lemma_unary_math_entries()
    ensures
        "Math__sin"@ != "Math__abs"@,
        "Math__sin"@ != "Math__min"@,
        "Math__sin"@ != "Math__max"@,
        "Math__sin"@ != "Math__sqrt"@,
        "Math__sin"@ != "Math__pow"@,
        "Math__cos"@ != "Math__abs"@,
        "Math__cos"@ != "Math__min"@,
        "Math__cos"@ != "Math__max"@,
        "Math__cos"@ != "Math__sqrt"@,
        "Math__cos"@ != "Math__pow"@,
        "Math__tan"@ != "Math__abs"@,
        "Math__tan"@ != "Math__min"@,
        "Math__tan"@ != "Math__max"@,
        "Math__tan"@ != "Math__sqrt"@,
        "Math__tan"@ != "Math__pow"@,
        "Math__log"@ != "Math__abs"@,
        "Math__log"@ != "Math__min"@,
        "Math__log"@ != "Math__max"@,
        "Math__log"@ != "Math__sqrt"@,
        "Math__log"@ != "Math__pow"@,
        "Math__log10"@ != "Math__abs"@,
        "Math__log10"@ != "Math__min"@,
        "Math__log10"@ != "Math__max"@,
        "Math__log10"@ != "Math__sqrt"@,
        "Math__log10"@ != "Math__pow"@,
        "Math__exp"@ != "Math__abs"@,
        "Math__exp"@ != "Math__min"@,
        "Math__exp"@ != "Math__max"@,
        "Math__exp"@ != "Math__sqrt"@,
        "Math__exp"@ != "Math__pow"@,
        "Math__floor"@ != "Math__abs"@,
        "Math__floor"@ != "Math__min"@,
        "Math__floor"@ != "Math__max"@,
        "Math__floor"@ != "Math__sqrt"@,
        "Math__floor"@ != "Math__pow"@,
        "Math__ceil"@ != "Math__abs"@,
        "Math__ceil"@ != "Math__min"@,
        "Math__ceil"@ != "Math__max"@,
        "Math__ceil"@ != "Math__sqrt"@,
        "Math__ceil"@ != "Math__pow"@,
        "Math__round"@ != "Math__abs"@,
        "Math__round"@ != "Math__min"@,
        "Math__round"@ != "Math__max"@,
        "Math__round"@ != "Math__sqrt"@,
        "Math__round"@ != "Math__pow"@,
        "Math__sqrt"@.subrange(6, 10) == "sqrt"@,
        "Math__sqrt"@.len() == 10,
        "Math__floor"@ != "Math__sin"@,
        "Math__floor"@ != "Math__cos"@,
        "Math__floor"@ != "Math__tan"@,
        "Math__floor"@ != "Math__log"@,
        "Math__floor"@ != "Math__log10"@,
        "Math__floor"@ != "Math__exp"@,
        "Math__ceil"@ != "Math__sin"@,
        "Math__ceil"@ != "Math__cos"@,
        "Math__ceil"@ != "Math__tan"@,
        "Math__ceil"@ != "Math__log"@,
        "Math__ceil"@ != "Math__log10"@,
        "Math__ceil"@ != "Math__exp"@,
        "Math__round"@ != "Math__sin"@,
        "Math__round"@ != "Math__cos"@,
        "Math__round"@ != "Math__tan"@,
        "Math__round"@ != "Math__log"@,
        "Math__round"@ != "Math__log10"@,
        "Math__round"@ != "Math__exp"@,
{
    reveal_strlit("Math__abs");
    assert("Math__abs"@.len() == 9);
    reveal_strlit("Math__ceil");
    assert("Math__ceil"@.len() == 10);
    reveal_strlit("Math__cos");
    assert("Math__cos"@.len() == 9);
    reveal_strlit("Math__exp");
    assert("Math__exp"@.len() == 9);
    reveal_strlit("Math__floor");
    assert("Math__floor"@.len() == 11);
    reveal_strlit("Math__log");
    assert("Math__log"@.len() == 9);
    reveal_strlit("Math__log10");
    assert("Math__log10"@.len() == 11);
    reveal_strlit("Math__max");
    assert("Math__max"@.len() == 9);
    reveal_strlit("Math__min");
    assert("Math__min"@.len() == 9);
    reveal_strlit("Math__pow");
    assert("Math__pow"@.len() == 9);
    reveal_strlit("Math__round");
    assert("Math__round"@.len() == 11);
    reveal_strlit("Math__sin");
    assert("Math__sin"@.len() == 9);
    reveal_strlit("Math__sqrt");
    assert("Math__sqrt"@.len() == 10);
    reveal_strlit("Math__tan");
    assert("Math__tan"@.len() == 9);
    assert("Math__sin"@[6] != "Math__abs"@[6]);
    assert("Math__sin"@[6] != "Math__min"@[6]);
    assert("Math__sin"@[6] != "Math__max"@[6]);
    assert("Math__sin"@[6] != "Math__pow"@[6]);
    assert("Math__cos"@[6] != "Math__abs"@[6]);
    assert("Math__cos"@[6] != "Math__min"@[6]);
    assert("Math__cos"@[6] != "Math__max"@[6]);
    assert("Math__cos"@[6] != "Math__pow"@[6]);
    assert("Math__tan"@[6] != "Math__abs"@[6]);
    assert("Math__tan"@[6] != "Math__min"@[6]);
    assert("Math__tan"@[6] != "Math__max"@[6]);
    assert("Math__tan"@[6] != "Math__pow"@[6]);
    assert("Math__log"@[6] != "Math__abs"@[6]);
    assert("Math__log"@[6] != "Math__min"@[6]);
    assert("Math__log"@[6] != "Math__max"@[6]);
    assert("Math__log"@[6] != "Math__pow"@[6]);
    assert("Math__exp"@[6] != "Math__abs"@[6]);
    assert("Math__exp"@[6] != "Math__min"@[6]);
    assert("Math__exp"@[6] != "Math__max"@[6]);
    assert("Math__exp"@[6] != "Math__pow"@[6]);
    assert("Math__ceil"@[6] != "Math__sqrt"@[6]);
    reveal_strlit("sqrt");
    assert("Math__sqrt"@.subrange(6, 10) =~= "sqrt"@);
    assert("Math__floor"@[6] != "Math__log10"@[6]);
    assert("Math__round"@[6] != "Math__log10"@[6]);
}

/// Value `v` of `log` is a call of the C function named as the entry
/// `name` without its `Math__` prefix, on the value of `args[0]`: its double
/// when `convert`, else the value itself.
pub open spec fn unary_math_of(log: InstrLog, v: usize, name: Seq<char>, args: Seq<Expr>, convert: bool) -> bool {
    log.ops_view()[v as int] matches Op::Call { function: f, args: a, name: _ }
        && crate::codegen::declares(log, f, name.subrange(6, name.len() as int)) && a@.len() == 1
        && (convert ==> double_of_arg(log, a@[0], args[0], v as int))
        && (!convert ==> a@[0] < v && arg_is(log, a@[0], args[0]))
}

/// The entries that call a C math function of a double.
pub open spec fn converting_entry(name: Seq<char>) -> bool {
    name == "Math__sqrt"@ || name == "Math__sin"@ || name == "Math__cos"@ || name == "Math__tan"@
        || name == "Math__log"@ || name == "Math__log10"@ || name == "Math__exp"@
}

/// The entries that round with a C function.
pub open spec fn rounding_entry(name: Seq<char>) -> bool {
    name == "Math__floor"@ || name == "Math__ceil"@ || name == "Math__round"@
}

/// The IEEE-754 bits of 1.0.
pub const FLOAT_ONE_BITS: u64 = 0x3ff0000000000000;

/// The IEEE-754 bits of -0.0.
pub const NEGATIVE_ZERO_BITS: u64 = 0x8000000000000000;

/// Which number literal `e` is: `Some(false)` for an integer, `Some(true)`
/// for a float, `None` for any other expression.
pub open spec fn number_literal_kind(e: Expr) -> Option<bool> {
    match e {
        Expr::Literal(Literal::Integer(_)) => Some(false),
        Expr::Literal(Literal::Float(_)) => Some(true),
        _ => None,
    }
}

/// `e` is a literal zero: an integer 0 or a floating-point zero of either
/// sign.
pub open spec fn zero_literal(e: Expr) -> bool {
    match e {
        Expr::Literal(Literal::Integer(n)) => n == 0,
        Expr::Literal(Literal::Float(b)) => b == 0 || b == NEGATIVE_ZERO_BITS,
        _ => false,
    }
}

/// `e` is a constant zero: a zero literal, or one negated.
pub open spec fn zero_constant(e: Expr) -> bool {
    match e {
        Expr::Unary { op: UnaryOp::Neg, expr } => zero_literal(*expr),
        _ => zero_literal(e),
    }
}

/// The arguments of a `range(..)` call are two or three number literals.
pub open spec fn range_literals(args: Seq<Expr>) -> bool {
    2 <= args.len() <= 3 && forall|i: int| 0 <= i < args.len() ==> (#[trigger] number_literal_kind(args[i])) is Some
}

/// The number literals `args` are all of one kind.
pub open spec fn literals_agree(args: Seq<Expr>) -> bool {
    forall|i: int| 0 <= i < args.len() ==> #[trigger] number_literal_kind(args[i]) == number_literal_kind(args[0])
}

/// Value `v` of `log` is a range object (see `range_initialised`) built
/// from the number literals `args`: the start and end are the first two,
/// the step is the third or else the constant 1 of their kind.
pub open spec fn range_of_literals(log: InstrLog, v: usize, args: Seq<Expr>) -> bool {
    exists|s: usize, n: usize, st: usize| {
        &&& #[trigger] crate::builtins::range_initialised(log, v, s, n, st)
        &&& crate::exprs::materialises(args[0]->Literal_0, log.ops_view()[s as int])
        &&& crate::exprs::materialises(args[1]->Literal_0, log.ops_view()[n as int])
        &&& args.len() == 3 ==> crate::exprs::materialises(args[2]->Literal_0, log.ops_view()[st as int])
        &&& args.len() == 2 && number_literal_kind(args[0]) == Some(false) ==> log.ops_view()[st as int] == (Op::ConstInt { ty: LlvmType::I64, value: 1, signed: false })
        &&& args.len() == 2 && number_literal_kind(args[0]) == Some(true) ==> log.ops_view()[st as int] == (Op::ConstFloat { bits: FLOAT_ONE_BITS })
    }
}

/// Whether `e` is a constant zero.
fn is_zero_constant(e: &Expr) -> (r: bool)
    ensures
        r == zero_constant(*e),
{
    let lit = match e {
        Expr::Unary { op: UnaryOp::Neg, expr } => &**expr,
        _ => e,
    };
    match lit {
        Expr::Literal(Literal::Integer(n)) => *n == 0,
        Expr::Literal(Literal::Float(b)) => *b == 0 || *b == NEGATIVE_ZERO_BITS,
        _ => false,
    }
}

/// The block that code after the check `name` continues in.
pub open spec fn check_ok_block(name: Seq<char>) -> Seq<char> {
    name + "_ok"@
}

/// The square root is told apart from the math entries tested before it.
proof fn lemma_sqrt_entry()
    ensures
        "Math__sqrt"@ != "Math__abs"@ && "Math__sqrt"@ != "Math__min"@ && "Math__sqrt"@ != "Math__max"@,
{
    reveal_strlit("Math__sqrt");
    reveal_strlit("Math__abs");
    reveal_strlit("Math__min");
    reveal_strlit("Math__max");
    assert("Math__sqrt"@.len() == 10 && "Math__abs"@.len() == 9 && "Math__min"@.len() == 9 && "Math__max"@.len() == 9);
}

/// The power entry is told apart from the math entries tested before it.
proof fn lemma_pow_entry()
    ensures
        "Math__pow"@ != "Math__abs"@ && "Math__pow"@ != "Math__min"@ && "Math__pow"@ != "Math__max"@ && "Math__pow"@ != "Math__sqrt"@,
{
    reveal_strlit("Math__pow");
    reveal_strlit("Math__abs");
    reveal_strlit("Math__min");
    reveal_strlit("Math__max");
    reveal_strlit("Math__sqrt");
    assert("Math__pow"@.len() == 9 && "Math__sqrt"@.len() == 10);
    assert("Math__pow"@[6] != "Math__abs"@[6]);
    assert("Math__pow"@[6] != "Math__min"@[6]);
    assert("Math__pow"@[6] != "Math__max"@[6]);
}

/// The two math constants are told apart from every math entry tested
/// before them, by their length.
proof fn lemma_math_constants(n: Seq<char>)
    requires
        n == "Math__pi"@ || n == "Math__e"@,
    ensures
        n != "Math__abs"@ && n != "Math__min"@ && n != "Math__max"@,
        n != "Math__sqrt"@ && n != "Math__pow"@,
        !(n == "Math__sin"@ || n == "Math__cos"@ || n == "Math__tan"@ || n == "Math__log"@ || n == "Math__log10"@ || n == "Math__exp"@),
        !(n == "Math__floor"@ || n == "Math__ceil"@ || n == "Math__round"@),
        n != "Math__random"@,
        "Math__e"@ != "Math__pi"@,
{
    reveal_strlit("Math__pi");
    assert("Math__pi"@.len() == 8);
    reveal_strlit("Math__e");
    assert("Math__e"@.len() == 7);
    reveal_strlit("Math__abs");
    assert("Math__abs"@.len() == 9);
    reveal_strlit("Math__min");
    assert("Math__min"@.len() == 9);
    reveal_strlit("Math__max");
    assert("Math__max"@.len() == 9);
    reveal_strlit("Math__sqrt");
    assert("Math__sqrt"@.len() == 10);
    reveal_strlit("Math__pow");
    assert("Math__pow"@.len() == 9);
    reveal_strlit("Math__sin");
    assert("Math__sin"@.len() == 9);
    reveal_strlit("Math__cos");
    assert("Math__cos"@.len() == 9);
    reveal_strlit("Math__tan");
    assert("Math__tan"@.len() == 9);
    reveal_strlit("Math__log");
    assert("Math__log"@.len() == 9);
    reveal_strlit("Math__log10");
    assert("Math__log10"@.len() == 11);
    reveal_strlit("Math__exp");
    assert("Math__exp"@.len() == 9);
    reveal_strlit("Math__floor");
    assert("Math__floor"@.len() == 11);
    reveal_strlit("Math__ceil");
    assert("Math__ceil"@.len() == 10);
    reveal_strlit("Math__round");
    assert("Math__round"@.len() == 11);
    reveal_strlit("Math__random");
    assert("Math__random"@.len() == 12);
}

/// The console, time, environment and argument entries that read no
/// argument.
proof fn lemma_argumentless_entries()
    ensures
        spec_stdlib_arity("read_line"@) == Some(0nat),
        spec_stdlib_arity("Time__unix"@) == Some(0nat),
        spec_stdlib_arity("System__cwd"@) == Some(0nat),
        spec_stdlib_arity("System__os"@) == Some(0nat),
        spec_stdlib_arity("Args__count"@) == Some(0nat),
{
    reveal_strlit("Math__abs");
    assert("Math__abs"@.len() == 9 && "Math__abs"@[0] == 'M' && "Math__abs"@[1] == 'a');
    reveal_strlit("Math__min");
    assert("Math__min"@.len() == 9 && "Math__min"@[0] == 'M' && "Math__min"@[1] == 'a');
    reveal_strlit("Math__max");
    assert("Math__max"@.len() == 9 && "Math__max"@[0] == 'M' && "Math__max"@[1] == 'a');
    reveal_strlit("Math__sqrt");
    assert("Math__sqrt"@.len() == 10 && "Math__sqrt"@[0] == 'M' && "Math__sqrt"@[1] == 'a');
    reveal_strlit("Math__pow");
    assert("Math__pow"@.len() == 9 && "Math__pow"@[0] == 'M' && "Math__pow"@[1] == 'a');
    reveal_strlit("Math__sin");
    assert("Math__sin"@.len() == 9 && "Math__sin"@[0] == 'M' && "Math__sin"@[1] == 'a');
    reveal_strlit("Math__cos");
    assert("Math__cos"@.len() == 9 && "Math__cos"@[0] == 'M' && "Math__cos"@[1] == 'a');
    reveal_strlit("Math__tan");
    assert("Math__tan"@.len() == 9 && "Math__tan"@[0] == 'M' && "Math__tan"@[1] == 'a');
    reveal_strlit("Math__floor");
    assert("Math__floor"@.len() == 11 && "Math__floor"@[0] == 'M' && "Math__floor"@[1] == 'a');
    reveal_strlit("Math__ceil");
    assert("Math__ceil"@.len() == 10 && "Math__ceil"@[0] == 'M' && "Math__ceil"@[1] == 'a');
    reveal_strlit("Math__round");
    assert("Math__round"@.len() == 11 && "Math__round"@[0] == 'M' && "Math__round"@[1] == 'a');
    reveal_strlit("Math__log");
    assert("Math__log"@.len() == 9 && "Math__log"@[0] == 'M' && "Math__log"@[1] == 'a');
    reveal_strlit("Math__log10");
    assert("Math__log10"@.len() == 11 && "Math__log10"@[0] == 'M' && "Math__log10"@[1] == 'a');
    reveal_strlit("Math__exp");
    assert("Math__exp"@.len() == 9 && "Math__exp"@[0] == 'M' && "Math__exp"@[1] == 'a');
    reveal_strlit("Math__random");
    assert("Math__random"@.len() == 12 && "Math__random"@[0] == 'M' && "Math__random"@[1] == 'a');
    reveal_strlit("Math__pi");
    assert("Math__pi"@.len() == 8 && "Math__pi"@[0] == 'M' && "Math__pi"@[1] == 'a');
    reveal_strlit("Math__e");
    assert("Math__e"@.len() == 7 && "Math__e"@[0] == 'M' && "Math__e"@[1] == 'a');
    reveal_strlit("to_float");
    assert("to_float"@.len() == 8 && "to_float"@[0] == 't' && "to_float"@[1] == 'o');
    reveal_strlit("to_int");
    assert("to_int"@.len() == 6 && "to_int"@[0] == 't' && "to_int"@[1] == 'o');
    reveal_strlit("to_string");
    assert("to_string"@.len() == 9 && "to_string"@[0] == 't' && "to_string"@[1] == 'o');
    reveal_strlit("Str__len");
    assert("Str__len"@.len() == 8 && "Str__len"@[0] == 'S' && "Str__len"@[1] == 't');
    reveal_strlit("Str__compare");
    assert("Str__compare"@.len() == 12 && "Str__compare"@[0] == 'S' && "Str__compare"@[1] == 't');
    reveal_strlit("Str__concat");
    assert("Str__concat"@.len() == 11 && "Str__concat"@[0] == 'S' && "Str__concat"@[1] == 't');
    reveal_strlit("Str__upper");
    assert("Str__upper"@.len() == 10 && "Str__upper"@[0] == 'S' && "Str__upper"@[1] == 't');
    reveal_strlit("Str__lower");
    assert("Str__lower"@.len() == 10 && "Str__lower"@[0] == 'S' && "Str__lower"@[1] == 't');
    reveal_strlit("Str__trim");
    assert("Str__trim"@.len() == 9 && "Str__trim"@[0] == 'S' && "Str__trim"@[1] == 't');
    reveal_strlit("Str__contains");
    assert("Str__contains"@.len() == 13 && "Str__contains"@[0] == 'S' && "Str__contains"@[1] == 't');
    reveal_strlit("Str__startsWith");
    assert("Str__startsWith"@.len() == 15 && "Str__startsWith"@[0] == 'S' && "Str__startsWith"@[1] == 't');
    reveal_strlit("Str__endsWith");
    assert("Str__endsWith"@.len() == 13 && "Str__endsWith"@[0] == 'S' && "Str__endsWith"@[1] == 't');
    reveal_strlit("read_line");
    assert("read_line"@.len() == 9 && "read_line"@[0] == 'r' && "read_line"@[1] == 'e');
    reveal_strlit("System__exit");
    assert("System__exit"@.len() == 12 && "System__exit"@[0] == 'S' && "System__exit"@[1] == 'y');
    reveal_strlit("File__write");
    assert("File__write"@.len() == 11 && "File__write"@[0] == 'F' && "File__write"@[1] == 'i');
    reveal_strlit("File__read");
    assert("File__read"@.len() == 10 && "File__read"@[0] == 'F' && "File__read"@[1] == 'i');
    reveal_strlit("File__exists");
    assert("File__exists"@.len() == 12 && "File__exists"@[0] == 'F' && "File__exists"@[1] == 'i');
    reveal_strlit("File__delete");
    assert("File__delete"@.len() == 12 && "File__delete"@[0] == 'F' && "File__delete"@[1] == 'i');
    reveal_strlit("Time__now");
    assert("Time__now"@.len() == 9 && "Time__now"@[0] == 'T' && "Time__now"@[1] == 'i');
    reveal_strlit("Time__unix");
    assert("Time__unix"@.len() == 10 && "Time__unix"@[0] == 'T' && "Time__unix"@[1] == 'i');
    reveal_strlit("Time__sleep");
    assert("Time__sleep"@.len() == 11 && "Time__sleep"@[0] == 'T' && "Time__sleep"@[1] == 'i');
    reveal_strlit("System__getenv");
    assert("System__getenv"@.len() == 14 && "System__getenv"@[0] == 'S' && "System__getenv"@[1] == 'y');
    reveal_strlit("System__shell");
    assert("System__shell"@.len() == 13 && "System__shell"@[0] == 'S' && "System__shell"@[1] == 'y');
    reveal_strlit("System__exec");
    assert("System__exec"@.len() == 12 && "System__exec"@[0] == 'S' && "System__exec"@[1] == 'y');
    reveal_strlit("System__cwd");
    assert("System__cwd"@.len() == 11 && "System__cwd"@[0] == 'S' && "System__cwd"@[1] == 'y');
    reveal_strlit("System__os");
    assert("System__os"@.len() == 10 && "System__os"@[0] == 'S' && "System__os"@[1] == 'y');
    reveal_strlit("Args__count");
    assert("Args__count"@.len() == 11 && "Args__count"@[0] == 'A' && "Args__count"@[1] == 'r');
}

/// The names of the math functions of one argument that take a `double`
/// (integers are converted first), with the names of their results.
fn converting_math_function(name: &str) -> (r: Option<&'static str>)
    ensures
        r is Some <==> (name@ == "Math__sin"@ || name@ == "Math__cos"@ || name@ == "Math__tan"@ || name@ == "Math__log"@ || name@ == "Math__log10"@ || name@ == "Math__exp"@),
        r matches Some(c) ==> name@.len() > 6 && c@ == name@.subrange(6, name@.len() as int),
{
    proof {
        reveal_strlit("Math__sin");
        reveal_strlit("sin");
        assert("Math__sin"@.subrange(6, 9) =~= "sin"@);
        reveal_strlit("Math__cos");
        reveal_strlit("cos");
        assert("Math__cos"@.subrange(6, 9) =~= "cos"@);
        reveal_strlit("Math__tan");
        reveal_strlit("tan");
        assert("Math__tan"@.subrange(6, 9) =~= "tan"@);
        reveal_strlit("Math__log");
        reveal_strlit("log");
        assert("Math__log"@.subrange(6, 9) =~= "log"@);
        reveal_strlit("Math__log10");
        reveal_strlit("log10");
        assert("Math__log10"@.subrange(6, 11) =~= "log10"@);
        reveal_strlit("Math__exp");
        reveal_strlit("exp");
        assert("Math__exp"@.subrange(6, 9) =~= "exp"@);
    }
    if str_eq(name, "Math__sin") {
        Some("sin")
    } else if str_eq(name, "Math__cos") {
        Some("cos")
    } else if str_eq(name, "Math__tan") {
        Some("tan")
    } else if str_eq(name, "Math__log") {
        Some("log")
    } else if str_eq(name, "Math__log10") {
        Some("log10")
    } else if str_eq(name, "Math__exp") {
        Some("exp")
    } else {
        None
    }
}

/// The names of the math functions of one argument that pass their
/// argument as it is.
fn rounding_math_function(name: &str) -> (r: Option<&'static str>)
    ensures
        r is Some <==> (name@ == "Math__floor"@ || name@ == "Math__ceil"@ || name@ == "Math__round"@),
        r matches Some(c) ==> name@.len() > 6 && c@ == name@.subrange(6, name@.len() as int),
{
    proof {
        reveal_strlit("Math__floor");
        reveal_strlit("floor");
        assert("Math__floor"@.subrange(6, 11) =~= "floor"@);
        reveal_strlit("Math__ceil");
        reveal_strlit("ceil");
        assert("Math__ceil"@.subrange(6, 10) =~= "ceil"@);
        reveal_strlit("Math__round");
        reveal_strlit("round");
        assert("Math__round"@.subrange(6, 11) =~= "round"@);
    }
    if str_eq(name, "Math__floor") {
        Some("floor")
    } else if str_eq(name, "Math__ceil") {
        Some("ceil")
    } else if str_eq(name, "Math__round") {
        Some("round")
    } else {
        None
    }
}

impl Codegen {
    /// Evaluates argument `i` of a standard-library call.
    fn arg_value(&mut self, args: &Vec<Expr>, i: usize, name: &str) -> (r: Result<usize, CodegenError>)
        requires
            old(self).wf(),
        ensures
            r is Ok && crate::ast::exprs_lambda_free(args@) ==> crate::ir::keeps_settled(old(self).log, final(self).log),
            i >= args.len() ==> (r matches Err(e) && e.message@ == "Missing arguments for "@ + name@),
            crate::stmts::yields(*final(self), r),
            keeps_tables(*old(self), *final(self)),
            i < args.len() && args@[i as int] is Literal ==> (r is Ok <==> old(self).state.strings_named() < u32::MAX)
                && crate::exprs::literal_unchanged(*old(self), *final(self), args@[i as int]->Literal_0),
            i < args.len() && crate::exprs::int_literal(args@[i as int]) ==> (r matches Ok(v) ==> (final(self).log.value_type_of(v) matches Some(t) && t.is_int_spec())),
            i < args.len() && number_literal_kind(args@[i as int]) == Some(false) ==> (r matches Ok(v) ==> (final(self).log.value_type_of(v) matches Some(t) && t@ == LlvmTypeV::I64)),
            i < args.len() && number_literal_kind(args@[i as int]) == Some(true) ==> (r matches Ok(v) ==> final(self).log.value_type_of(v) == Some(LlvmType::F64)),
            i < args.len() && args@[i as int] is Literal ==> (r matches Ok(v) ==> crate::exprs::materialises(args@[i as int]->Literal_0, final(self).log.ops_view()[v as int])),
            i < args.len() ==> (r matches Ok(v) ==> arg_is(final(self).log, v, args@[i as int])),
        decreases args, 5int,
    {
        proof {
            crate::ast::lemma_exprs_lambda_free(args@);
        }
        if i >= args.len() {
            return Err(error_naming("Missing arguments for ", name));
        }
        self.compile_expr(&args[i])
    }

    /// `v` as a `double`: integers are converted (signed), anything else is
    /// passed as it is.
    fn to_double(&mut self, v: usize) -> (r: usize)
        requires
            old(self).wf(),
        ensures
            final(self).log.position() == old(self).log.position(),
            crate::ir::keeps_settled(old(self).log, final(self).log),
            keeps_tables(*old(self), *final(self)),
            (old(self).log.value_type_of(v) matches Some(t) && t.is_int_spec()) ==> r == old(self).log.ops_view().len()
                && (final(self).log.ops_view()[r as int] matches Op::Cast { op, value: x, ty, name: _ } && op == CastOp::SignedToFloat && x == v && ty == LlvmType::F64),
            !(old(self).log.value_type_of(v) matches Some(t) && t.is_int_spec()) ==> r == v && *final(self) == *old(self),
            v < old(self).log.ops_view().len() ==> r < final(self).log.ops_view().len(),
    {
        if self.log.is_int_value(v) {
            self.log.cast(CastOp::SignedToFloat, v, LlvmType::F64, "tofloat")
        } else {
            v
        }
    }

    /// The shared empty string, a constant global created on first use.
    fn empty_string(&mut self) -> (r: usize)
        requires
            old(self).wf(),
        ensures
            final(self).log.position() == old(self).log.position(),
            crate::ir::keeps_settled(old(self).log, final(self).log),
            keeps_tables(*old(self), *final(self)),
            final(self).log.ops_view()[r as int] matches Op::GlobalAddress { global: g } && crate::codegen::holds_global(final(self).log, g, "empty_string_const"@),
    {
        match self.module_globals.get("empty_string_const") {
            Some(g) => {
                let g = *g;
                self.log.global_address(g)
            },
            None => self.string_global("empty_string_const", "", true),
        }
    }

    /// The address of a global the entry point fills in.
    fn entry_global(&mut self, name: &str) -> (r: Result<usize, CodegenError>)
        requires
            old(self).wf(),
        ensures
            final(self).log.position() == old(self).log.position(),
            crate::ir::keeps_settled(old(self).log, final(self).log),
            crate::stmts::yields(*final(self), r),
            keeps_tables(*old(self), *final(self)),
            r is Ok <==> old(self).module_globals@.contains_key(name@),
            r matches Err(e) ==> e.message@ == "Unknown global: "@ + name@ && *final(self) == *old(self),
            r matches Ok(v) ==> final(self).log.ops_view()[v as int] == (Op::GlobalAddress { global: old(self).module_globals@[name@] }),
    {
        match self.module_globals.get(name) {
            Some(g) => {
                let g = *g;
                Ok(self.log.global_address(g))
            },
            None => Err(error_naming("Unknown global: ", name)),
        }
    }

    /// A copy of the string `s` with each character mapped through the C
    /// function `transform` (`toupper`, `tolower`), in a fresh buffer.
    #[verifier::spinoff_prover]
    #[verifier::rlimit(100)]
    pub fn compile_string_transform(&mut self, s: usize, transform: usize) -> (r: Result<usize, CodegenError>)
        requires
            old(self).wf(),
        ensures
            r is Ok ==> crate::ir::keeps_settled(old(self).log, final(self).log),
            crate::stmts::yields(*final(self), r),
            keeps_tables(*old(self), *final(self)),
            old(self).log.value_type_of(s) != Some(LlvmType::Ptr) ==> (r matches Err(x) && x.message@ == "Expected a pointer value"@ && *final(self) == *old(self)),
            old(self).current_fn is None ==> (r matches Err(x) && (x.message@ == "Expected a pointer value"@ || x.message@ == "string transform"@ + " outside of function"@)),
            r matches Ok(v) ==> final(self).log.ops_view()[v as int] is Call,
            r is Ok ==> crate::stmts::continues_in(old(self).log, final(self).log, "trans.after"@),
            r is Ok <==> old(self).log.value_type_of(s) == Some(LlvmType::Ptr) && old(self).current_fn is Some,
            r matches Ok(v) ==> transformed_copy(final(self).log, v, s, transform),
    {
        let s = self.expect_pointer(s)?;
        let strlen = self.libc(LibcFn::Strlen);
        let malloc = self.libc(LibcFn::Malloc);
        let len = self.log.call(strlen, vec![s], "len");
        let one = self.log.const_int(LlvmType::I64, 1, false);
        let size = self.log.arith(ArithOp::IntAdd, len, one, "size");
        let buf = self.log.call(malloc, vec![size], "buf");
        let ghost l_buf = self.log;
        let f = self.function_for("string transform")?;
        let ghost s1 = self.log;
        let cond_bb = self.log.append_block(f, "trans.cond");
        let ghost s2 = self.log;
        let body_bb = self.log.append_block(f, "trans.body");
        let ghost s3 = self.log;
        let after_bb = self.log.append_block(f, "trans.after");
        let ghost s4 = self.log;
        let index = self.log.alloca(LlvmType::I64, "i");
        let zero = self.log.const_int(LlvmType::I64, 0, false);
        self.log.store(index, zero);
        self.log.branch(cond_bb);
        let ghost s5 = self.log;
        self.log.position_at_end(cond_bb);
        let ghost s6 = self.log;
        let i = self.log.load(LlvmType::I64, index, "i");
        let c = self.log.int_compare(IntPredicate::Slt, i, len, "cmp");
        self.log.cond_branch(c, body_bb, after_bb);
        let ghost s7 = self.log;
        self.log.position_at_end(body_bb);
        let ghost s8 = self.log;
        let char_ptr = self.log.gep(LlvmType::I8, s, vec![i], "char_ptr");
        let ch = self.log.load(LlvmType::I8, char_ptr, "char");
        let c32 = self.log.cast(CastOp::SignExtend, ch, LlvmType::I32, "c32");
        let t32 = self.log.call(transform, vec![c32], "t32");
        let ghost l_t = self.log;
        let t8 = self.log.cast(CastOp::Truncate, t32, LlvmType::I8, "t8");
        let dest = self.log.gep(LlvmType::I8, buf, vec![i], "dest_ptr");
        self.log.store(dest, t8);
        let next = self.log.arith(ArithOp::IntAdd, i, one, "next_i");
        self.log.store(index, next);
        self.log.branch(cond_bb);
        let ghost s9 = self.log;
        self.log.position_at_end(after_bb);
        let ghost s10 = self.log;
        let term = self.log.gep(LlvmType::I8, buf, vec![len], "term_ptr");
        let nul = self.log.const_int(LlvmType::I8, 0, false);
        self.log.store(term, nul);
        assert(self.log.ops_view()[after_bb as int] == s4.ops_view()[after_bb as int]);
        assert(self.log.ops_view()[buf as int] == s1.ops_view()[buf as int]);
        proof {
            let fin = self.log;
            assert(fin.ops_view()[buf as int] == l_buf.ops_view()[buf as int]);
            assert(fin.ops_view()[size as int] == l_buf.ops_view()[size as int]);
            assert(fin.ops_view()[len as int] == l_buf.ops_view()[len as int]);
            assert(fin.ops_view()[one as int] == l_buf.ops_view()[one as int]);
            assert(fin.ops_view()[malloc as int] == l_buf.ops_view()[malloc as int]);
            assert(fin.ops_view()[strlen as int] == l_buf.ops_view()[strlen as int]);
            assert(fin.ops_view()[t32 as int] == l_t.ops_view()[t32 as int]);
            assert(fin.ops_view()[term as int]->Gep_indices@ =~= seq![len]);
            assert(fin.ops_view()[nul as int] == (Op::ConstInt { ty: LlvmType::I8, value: 0, signed: false }));
            assert(crate::codegen::declares(fin, malloc, "malloc"@));
            assert(crate::codegen::declares(fin, strlen, "strlen"@));
            assert(fin.ops_view()[t32 as int] matches Op::Call { function: g, args: _, name: _ } && g == transform);
            assert(fin.ops_view().last() matches Op::Store { ptr: p, value: z } && p == term && z == nul);
            assert(fin.ops_view()[len as int]->Call_args@ =~= seq![s]);
            assert(fin.ops_view()[buf as int]->Call_args@ =~= seq![size]);
            assert(transformed_copy(fin, buf, s, transform));
        }
        proof {
            let a = old(self).log;
            crate::ir::lemma_keeps_settled(a, s1);
            crate::ir::lemma_settled_but_start(a, s1);
            let p1 = crate::ir::position_set(s1);
            crate::ir::lemma_settled_but_append(a, s1, s2, p1, cond_bb);
            crate::ir::lemma_settled_but_append(a, s2, s3, p1.insert(cond_bb), body_bb);
            crate::ir::lemma_settled_but_append(a, s3, s4, p1.insert(cond_bb).insert(body_bb), after_bb);
            let p4 = p1.insert(cond_bb).insert(body_bb).insert(after_bb);
            crate::ir::lemma_settled_but_segment(a, s4, s5, p4);
            let p5 = p4.difference(crate::ir::position_set(s4));
            crate::ir::lemma_settled_but_move(a, s5, s6, p5);
            crate::ir::lemma_settled_but_segment(a, s6, s7, p5);
            let p7 = p5.difference(crate::ir::position_set(s6));
            crate::ir::lemma_settled_but_move(a, s7, s8, p7);
            crate::ir::lemma_settled_but_segment(a, s8, s9, p7);
            let p9 = p7.difference(crate::ir::position_set(s8));
            crate::ir::lemma_settled_but_move(a, s9, s10, p9);
            crate::ir::lemma_settled_but_open(a, s10, self.log, p9);
            let p11 = p9.difference(crate::ir::position_set(s10)).union(crate::ir::position_set(self.log));
            assert(p11.subset_of(set![after_bb]));
            crate::ir::lemma_settled_but_done(a, self.log, p11, after_bb);
            crate::ir::lemma_keeps_settled(a, self.log);
        }
        Ok(buf)
    }

    /// `Str.trim(s)`: the part of `s` between its leading and trailing
    /// white space (as `isspace` decides), in a fresh buffer.
    #[verifier::rlimit(60)]
    fn compile_trim(&mut self, s: usize) -> (r: Result<usize, CodegenError>)
        requires
            old(self).wf(),
        ensures
            r is Ok ==> crate::ir::keeps_settled(old(self).log, final(self).log),
            crate::stmts::yields(*final(self), r),
            keeps_tables(*old(self), *final(self)),
            r is Ok <==> old(self).log.value_type_of(s) == Some(LlvmType::Ptr) && old(self).current_fn is Some,
            old(self).log.value_type_of(s) != Some(LlvmType::Ptr) ==> (r matches Err(x) && x.message@ == "Expected a pointer value"@ && *final(self) == *old(self)),
            old(self).log.value_type_of(s) == Some(LlvmType::Ptr) && old(self).current_fn is None ==> (r matches Err(x) && x.message@ == "Str.trim"@ + " outside of function"@),
            r matches Ok(v) ==> final(self).log.ops_view()[v as int] is Call,
            r is Ok ==> crate::stmts::continues_in(old(self).log, final(self).log, "trim.end.after"@),
    {
        let s = self.expect_pointer(s)?;
        let strlen = self.libc(LibcFn::Strlen);
        let isspace = self.libc(LibcFn::Isspace);
        let malloc = self.libc(LibcFn::Malloc);
        let strncpy = self.libc(LibcFn::Strncpy);
        let len = self.log.call(strlen, vec![s], "len");
        let start = self.log.alloca(LlvmType::I64, "start");
        let zero = self.log.const_int(LlvmType::I64, 0, false);
        self.log.store(start, zero);
        let f = self.function_for("Str.trim")?;
        let ghost s1 = self.log;
        let start_cond = self.log.append_block(f, "trim.start.cond");
        let ghost s2 = self.log;
        let start_body = self.log.append_block(f, "trim.start.body");
        let ghost s3 = self.log;
        let start_after = self.log.append_block(f, "trim.start.after");
        let ghost s4 = self.log;
        self.log.branch(start_cond);
        let ghost s5 = self.log;
        self.log.position_at_end(start_cond);
        let ghost s6 = self.log;
        let sv = self.log.load(LlvmType::I64, start, "s");
        let in_bounds = self.log.int_compare(IntPredicate::Slt, sv, len, "bounds");
        let char_ptr = self.log.gep(LlvmType::I8, s, vec![sv], "");
        let ch = self.log.load(LlvmType::I8, char_ptr, "");
        let c32 = self.log.cast(CastOp::SignExtend, ch, LlvmType::I32, "");
        let sp = self.log.call(isspace, vec![c32], "");
        let zero32 = self.log.const_int(LlvmType::I32, 0, false);
        let is_space = self.log.int_compare(IntPredicate::Ne, sp, zero32, "");
        let c = self.log.arith(ArithOp::And, in_bounds, is_space, "");
        self.log.cond_branch(c, start_body, start_after);
        let ghost s7 = self.log;
        self.log.position_at_end(start_body);
        let ghost s8 = self.log;
        let one = self.log.const_int(LlvmType::I64, 1, false);
        let next = self.log.arith(ArithOp::IntAdd, sv, one, "");
        self.log.store(start, next);
        self.log.branch(start_cond);
        let ghost s9 = self.log;
        self.log.position_at_end(start_after);
        let ghost s10 = self.log;
        let start_final = self.log.load(LlvmType::I64, start, "start_f");
        let end = self.log.alloca(LlvmType::I64, "end");
        self.log.store(end, len);
        let ghost s11 = self.log;
        let end_cond = self.log.append_block(f, "trim.end.cond");
        let ghost s12 = self.log;
        let end_body = self.log.append_block(f, "trim.end.body");
        let ghost s13 = self.log;
        let end_after = self.log.append_block(f, "trim.end.after");
        let ghost s14 = self.log;
        self.log.branch(end_cond);
        let ghost s15 = self.log;
        self.log.position_at_end(end_cond);
        let ghost s16 = self.log;
        let ev = self.log.load(LlvmType::I64, end, "e");
        let gt_start = self.log.int_compare(IntPredicate::Sgt, ev, start_final, "gt_start");
        let last = self.log.arith(ArithOp::IntSub, ev, one, "");
        let char_ptr = self.log.gep(LlvmType::I8, s, vec![last], "");
        let ch = self.log.load(LlvmType::I8, char_ptr, "");
        let c32 = self.log.cast(CastOp::SignExtend, ch, LlvmType::I32, "");
        let sp = self.log.call(isspace, vec![c32], "");
        let is_space = self.log.int_compare(IntPredicate::Ne, sp, zero32, "");
        let c = self.log.arith(ArithOp::And, gt_start, is_space, "");
        self.log.cond_branch(c, end_body, end_after);
        let ghost s17 = self.log;
        self.log.position_at_end(end_body);
        let ghost s18 = self.log;
        let prev = self.log.arith(ArithOp::IntSub, ev, one, "");
        self.log.store(end, prev);
        self.log.branch(end_cond);
        let ghost s19 = self.log;
        self.log.position_at_end(end_after);
        let ghost s20 = self.log;
        let end_final = self.log.load(LlvmType::I64, end, "end_f");
        let new_len = self.log.arith(ArithOp::IntSub, end_final, start_final, "new_len");
        let alloc = self.log.arith(ArithOp::IntAdd, new_len, one, "alloc");
        let buf = self.log.call(malloc, vec![alloc], "buf");
        let ghost buf_log = self.log;
        let src = self.log.gep(LlvmType::I8, s, vec![start_final], "src");
        self.log.call(strncpy, vec![buf, src, new_len], "");
        let term = self.log.gep(LlvmType::I8, buf, vec![new_len], "");
        let nul = self.log.const_int(LlvmType::I8, 0, false);
        self.log.store(term, nul);
        proof {
            let a = old(self).log;
            crate::ir::lemma_keeps_settled(a, s1);
            crate::ir::lemma_settled_but_start(a, s1);
            let p1 = crate::ir::position_set(s1);
            crate::ir::lemma_settled_but_append(a, s1, s2, p1, start_cond);
            crate::ir::lemma_settled_but_append(a, s2, s3, p1.insert(start_cond), start_body);
            crate::ir::lemma_settled_but_append(a, s3, s4, p1.insert(start_cond).insert(start_body), start_after);
            let p4 = p1.insert(start_cond).insert(start_body).insert(start_after);
            crate::ir::lemma_settled_but_segment(a, s4, s5, p4);
            let p5 = p4.difference(crate::ir::position_set(s4));
            crate::ir::lemma_settled_but_move(a, s5, s6, p5);
            crate::ir::lemma_settled_but_segment(a, s6, s7, p5);
            let p7 = p5.difference(crate::ir::position_set(s6));
            crate::ir::lemma_settled_but_move(a, s7, s8, p7);
            crate::ir::lemma_settled_but_segment(a, s8, s9, p7);
            let p9 = p7.difference(crate::ir::position_set(s8));
            crate::ir::lemma_settled_but_move(a, s9, s10, p9);
            crate::ir::lemma_settled_but_open(a, s10, s11, p9);
            let p11 = p9.difference(crate::ir::position_set(s10)).union(crate::ir::position_set(s11));
            crate::ir::lemma_settled_but_append(a, s11, s12, p11, end_cond);
            crate::ir::lemma_settled_but_append(a, s12, s13, p11.insert(end_cond), end_body);
            crate::ir::lemma_settled_but_append(a, s13, s14, p11.insert(end_cond).insert(end_body), end_after);
            let p14 = p11.insert(end_cond).insert(end_body).insert(end_after);
            crate::ir::lemma_settled_but_segment(a, s14, s15, p14);
            let p15 = p14.difference(crate::ir::position_set(s14));
            crate::ir::lemma_settled_but_move(a, s15, s16, p15);
            crate::ir::lemma_settled_but_segment(a, s16, s17, p15);
            let p17 = p15.difference(crate::ir::position_set(s16));
            crate::ir::lemma_settled_but_move(a, s17, s18, p17);
            crate::ir::lemma_settled_but_segment(a, s18, s19, p17);
            let p19 = p17.difference(crate::ir::position_set(s18));
            crate::ir::lemma_settled_but_move(a, s19, s20, p19);
            crate::ir::lemma_settled_but_open(a, s20, self.log, p19);
            let p21 = p19.difference(crate::ir::position_set(s20)).union(crate::ir::position_set(self.log));
            assert(p21.subset_of(set![end_after]));
            crate::ir::lemma_settled_but_done(a, self.log, p21, end_after);
            crate::ir::lemma_keeps_settled(a, self.log);
        }
        assert(self.log.ops_view()[end_after as int] == s14.ops_view()[end_after as int]);
        assert(self.log.ops_view()[buf as int] == buf_log.ops_view()[buf as int]);
        Ok(buf)
    }

    /// `to_string(v)`: booleans become the constants `true`/`false`; other
    /// values are formatted with `sprintf` into a fresh 64-byte buffer.
    fn compile_to_string(&mut self, v: usize) -> (r: Result<usize, CodegenError>)
        requires
            old(self).wf(),
        ensures
            final(self).log.position() == old(self).log.position(),
            crate::ir::keeps_settled(old(self).log, final(self).log),
            crate::stmts::yields(*final(self), r),
            keeps_tables(*old(self), *final(self)),
            r is Ok <==> old(self).state.strings_named() < u32::MAX,
            r matches Err(e) ==> e.message@ == "Too many string constants"@,
            old(self).log.value_type_of(v) == Some(LlvmType::I1) ==> (r matches Ok(x) ==> (final(self).log.ops_view()[x as int] matches Op::Select { cond: c, then_value: _, else_value: _, name: _ } && c == v)),
            old(self).log.value_type_of(v) != Some(LlvmType::I1) ==> (r matches Ok(x) ==> final(self).log.ops_view()[x as int] is Call),
    {
        let is_bool = match self.log.value_type(v) {
            Some(LlvmType::I1) => true,
            _ => false,
        };
        if is_bool {
            if !self.state.can_name_string() {
                return Err(error("Too many string constants"));
            }
            let (t_name, f_name) = self.state.fresh_global_pair("str.bool.true.", "str.bool.false.");
            let t = self.string_global(t_name.as_str(), "true", true);
            let f = self.string_global(f_name.as_str(), "false", true);
            return Ok(self.log.select(v, t, f, "bool_str"));
        }
        let sprintf = self.libc(LibcFn::Sprintf);
        let malloc = self.libc(LibcFn::Malloc);
        let size = self.log.const_int(LlvmType::I64, 64, false);
        let buffer = self.log.call(malloc, vec![size], "strbuf");
        let (fmt, arg) = if self.log.is_int_value(v) {
            ("%lld", self.log.cast(CastOp::SignExtend, v, LlvmType::I64, "promoted"))
        } else if self.log.is_float_value(v) {
            ("%f", v)
        } else {
            ("%s", v)
        };
        let fmt = self.format_global("fmt.", fmt)?;
        self.log.call(sprintf, vec![buffer, fmt, arg], "sprintf");
        Ok(buffer)
    }

    /// Compares a null-tested pointer: branches to `fail` when `is_null`,
    /// else to `ok`, both appended to the current function under the given
    /// names, followed by the merge block.
    fn null_split(&mut self, is_null: usize, ok_name: &str, fail_name: &str, merge_name: &str) -> (r: Result<(usize, usize, usize), CodegenError>)
        requires
            old(self).wf(),
        ensures
            r matches Ok((ok, fail, merge)) ==> ok < final(self).log.ops_view().len() && final(self).log.ops_view()[ok as int] is AppendBlock
                && fail < final(self).log.ops_view().len() && final(self).log.ops_view()[fail as int] is AppendBlock
                && merge < final(self).log.ops_view().len() && final(self).log.ops_view()[merge as int] is AppendBlock,
            keeps_tables(*old(self), *final(self)),
            r matches Ok((ok, fail, merge)) ==> ok != fail && ok != merge && fail != merge,
            r matches Ok((ok, fail, merge)) ==> crate::ir::settled_but(old(self).log, final(self).log, set![ok, fail, merge]),
            final(self).log.position() == old(self).log.position(),
            r is Ok <==> old(self).current_fn is Some,
            r matches Err(e) ==> e.message@ == "standard library call"@ + " outside of function"@ && *final(self) == *old(self),
            r matches Ok((ok, fail, merge)) ==> {
                &&& final(self).log.ops_view()[ok as int] matches Op::AppendBlock { function: g, name: n } && Some(g) == old(self).current_fn && n@ == ok_name@
                &&& final(self).log.ops_view()[fail as int] matches Op::AppendBlock { function: g, name: n } && Some(g) == old(self).current_fn && n@ == fail_name@
                &&& final(self).log.ops_view()[merge as int] matches Op::AppendBlock { function: g, name: n } && Some(g) == old(self).current_fn && n@ == merge_name@
                &&& final(self).log.ops_view().last() == (Op::CondBranch { cond: is_null, then_block: fail, else_block: ok })
            },
    {
        let f = self.function_for("standard library call")?;
        let ghost s0 = self.log;
        let ok_bb = self.log.append_block(f, ok_name);
        let ghost s1 = self.log;
        let fail_bb = self.log.append_block(f, fail_name);
        let ghost s2 = self.log;
        let merge_bb = self.log.append_block(f, merge_name);
        let ghost s3 = self.log;
        self.log.cond_branch(is_null, fail_bb, ok_bb);
        proof {
            crate::ir::lemma_settled_but_refl(s0);
            let p0 = crate::ir::position_set(s0);
            crate::ir::lemma_settled_but_append(s0, s0, s1, p0, ok_bb);
            crate::ir::lemma_settled_but_append(s0, s1, s2, p0.insert(ok_bb), fail_bb);
            crate::ir::lemma_settled_but_append(s0, s2, s3, p0.insert(ok_bb).insert(fail_bb), merge_bb);
            let p3 = p0.insert(ok_bb).insert(fail_bb).insert(merge_bb);
            crate::ir::lemma_settled_but_segment(s0, s3, self.log, p3);
            let p4 = p3.difference(crate::ir::position_set(s3));
            s0.lemma_flags_dom();
            crate::ir::lemma_settled_but_widen(s0, self.log, p4, set![ok_bb, fail_bb, merge_bb]);
        }
        Ok((ok_bb, fail_bb, merge_bb))
    }

    /// Lowers a call of the standard-library entry `name` (`Module__fn` or a
    /// global built-in); `None` when `name` is not one.
    pub fn compile_stdlib_function(&mut self, name: &str, args: &Vec<Expr>) -> (r: Result<Option<usize>, CodegenError>)
        requires
            old(self).wf(),
        ensures
            r is Ok && crate::ast::exprs_lambda_free(args@) ==> crate::ir::keeps_settled(old(self).log, final(self).log),
            keeps_tables(*old(self), *final(self)),
            r matches Ok(Some(v)) ==> v < final(self).log.ops_view().len(),
            r matches Ok(None) <==> spec_stdlib_arity(name@) is None,
            spec_stdlib_arity(name@) is None ==> *final(self) == *old(self),
            args.len() == 0 && (spec_stdlib_arity(name@) matches Some(n) && n > 0) ==> (r matches Err(e) && e.message@ == "Missing arguments for "@ + name@),
            name@ == "Math__pi"@ ==> (r matches Ok(Some(v)) && final(self).log.ops_view()[v as int] == (Op::ConstFloat { bits: PI_BITS })),
            name@ == "Math__e"@ ==> (r matches Ok(Some(v)) && final(self).log.ops_view()[v as int] == (Op::ConstFloat { bits: E_BITS })),
            name@ == "Math__sqrt"@ ==> (r matches Ok(Some(v)) ==> (final(self).log.ops_view()[v as int] matches Op::Call { function: f, args: _, name: _ }
                && crate::codegen::declares(final(self).log, f, "sqrt"@))),
            (name@ == "assert"@ || name@ == "assert_true"@ || name@ == "assert_false"@ || name@ == "assert_eq"@ || name@ == "assert_ne"@) && r is Ok
                ==> crate::stmts::continues_in(old(self).log, final(self).log, check_ok_block(name@)),
            (name@ == "assert"@ || name@ == "assert_true"@ || name@ == "assert_false"@) && args.len() >= 1 && crate::exprs::int_literal(args@[0])
                && crate::stmts::can_lower_constants(*old(self)) ==> r is Ok,
            name@ == "Math__min"@ ==> (r matches Ok(Some(v)) ==> min_max_lowered(final(self).log, v, true)),
            name@ == "Math__max"@ ==> (r matches Ok(Some(v)) ==> min_max_lowered(final(self).log, v, false)),
            name@ == "Math__abs"@ ==> (r matches Ok(Some(v)) ==> abs_lowered(old(self).log, final(self).log, v)
                || (final(self).log.ops_view()[v as int] matches Op::Call { function: f, args: _, name: _ } && crate::codegen::declares(final(self).log, f, "fabs"@))),
            name@ == "Math__abs"@ && args.len() >= 1 && number_literal_kind(args@[0]) == Some(false) && crate::stmts::can_lower_constants(*old(self))
                ==> (r matches Ok(Some(v)) && abs_lowered(old(self).log, final(self).log, v)),
            name@ == "Time__sleep"@ ==> (r is Ok ==> exists|x: usize, k: int| #[trigger] checks_before(old(self).log, final(self).log, x, IntPredicate::Slt, k)),
            name@ == "Time__sleep"@ && args.len() >= 1 && number_literal_kind(args@[0]) == Some(true) && old(self).state.strings_named() < u32::MAX
                ==> (r matches Err(e) && e.message@ == "Time.sleep(ms) requires Integer milliseconds"@),
            name@ == "Time__sleep"@ && args.len() >= 1 && (args@[0] matches Expr::Literal(Literal::Integer(n)) && n < 0) && old(self).state.strings_named() < u32::MAX
                ==> (r matches Err(e) && e.message@ == "Time.sleep() milliseconds must be non-negative"@),
            name@ == "Args__get"@ ==> (r matches Ok(Some(v)) ==> args_get_lowered(old(self).log, final(self).log, v)),
            name@ == "Args__get"@ && args.len() >= 1 && number_literal_kind(args@[0]) == Some(true) && old(self).state.strings_named() < u32::MAX
                ==> (r matches Err(e) && e.message@ == "Args.get() requires Integer index"@),
            name@ == "Args__get"@ && args.len() >= 1 && (args@[0] matches Expr::Literal(Literal::Integer(n)) && n < 0) && old(self).state.strings_named() < u32::MAX
                ==> (r matches Err(e) && e.message@ == "Args.get() index cannot be negative"@),
            name@ == "range"@ ==> (r matches Ok(Some(v)) ==> crate::builtins::range_built(final(self).log, v)),
            name@ == "range"@ && range_literals(args@) && !literals_agree(args@) && old(self).state.strings_named() < u32::MAX
                ==> (r matches Err(e) && e.message@ == "range() arguments must be all Integer or all Float"@),
            name@ == "range"@ && range_literals(args@) && literals_agree(args@) && args.len() == 3 && zero_constant(args@[2]) && old(self).state.strings_named() < u32::MAX
                ==> (r matches Err(e) && e.message@ == "range() step cannot be 0"@),
            name@ == "range"@ && range_literals(args@) && literals_agree(args@) && !(args.len() == 3 && zero_constant(args@[2])) && old(self).state.strings_named() < u32::MAX
                ==> (r matches Ok(Some(v)) && range_of_literals(final(self).log, v, args@)),
            name@ == "Str__concat"@ ==> (r matches Ok(Some(v)) ==> concat_built(final(self).log, v)),
            name@ == "Str__endsWith"@ ==> (r matches Ok(Some(v)) ==> ends_with_built(final(self).log, v)),
            name@ == "Math__pow"@ ==> (r matches Ok(Some(v)) ==> pow_lowered(final(self).log, v, args@)),
            name@ == "assert"@ ==> (r is Ok ==> checks_argument(old(self).log, final(self).log, false, "assert_ok"@, "assert_panic"@, args@[0])),
            name@ == "assert_true"@ ==> (r is Ok ==> checks_argument(old(self).log, final(self).log, false, "assert_true_ok"@, "assert_true_panic"@, args@[0])),
            name@ == "assert_false"@ ==> (r is Ok ==> checks_argument(old(self).log, final(self).log, true, "assert_false_ok"@, "assert_false_panic"@, args@[0])),
            name@ == "assert_eq"@ ==> (r is Ok ==> checks_comparison(old(self).log, final(self).log, true, "assert_eq_ok"@, "assert_eq_panic"@)),
            name@ == "assert_ne"@ ==> (r is Ok ==> checks_comparison(old(self).log, final(self).log, false, "assert_ne_ok"@, "assert_ne_panic"@)),
            name@ == "Str__compare"@ ==> (r matches Ok(Some(v)) ==> compare_of(final(self).log, v, args@)),
            name@ == "Str__contains"@ ==> (r matches Ok(Some(v)) ==> contains_of(final(self).log, v, args@)),
            name@ == "Str__startsWith"@ ==> (r matches Ok(Some(v)) ==> starts_with_of(final(self).log, v, args@)),
            name@ == "Str__endsWith"@ ==> (r matches Ok(Some(v)) ==> ends_with_of(final(self).log, v, args@)),
            name@ == "Str__concat"@ ==> (r matches Ok(Some(v)) ==> concat_of(final(self).log, v, args@)),
            converting_entry(name@) ==> (r matches Ok(Some(v)) ==> unary_math_of(final(self).log, v, name@, args@, true)),
            rounding_entry(name@) ==> (r matches Ok(Some(v)) ==> unary_math_of(final(self).log, v, name@, args@, false)),
        decreases args, 8int,
    {
        proof {
            lemma_checked_system_entries();
            lemma_concat_and_suffix_entries();
            lemma_two_string_entries();
            lemma_entry_groups(name@);
            if spec_check_entry(name@) {
                lemma_check_entries_apart(name@);
            }
        }
        let math = self.compile_math_call(name, args)?;
        if math.is_some() {
            return Ok(math);
        }
        let text = self.compile_text_call(name, args)?;
        if text.is_some() {
            return Ok(text);
        }
        let system = self.compile_system_call(name, args)?;
        if system.is_some() {
            return Ok(system);
        }
        self.compile_check_call(name, args)
    }

    /// The checks and `exit`: `assert(c)`, `assert_true(c)` and
    /// `assert_false(c)` test an integer condition, `assert_eq(a, b)` and
    /// `assert_ne(a, b)` compare two integers or two floats; a failed check
    /// prints its message and exits with status 1. `fail(message)` prints
    /// `Test failed: `, the message if there is one and a newline, then
    /// exits with status 1. `exit(code)` exits with an integer code.
    #[verifier::spinoff_prover]
    #[verifier::rlimit(100)]
    fn compile_check_call(&mut self, name: &str, args: &Vec<Expr>) -> (r: Result<Option<usize>, CodegenError>)
        requires
            old(self).wf(),
        ensures
            r is Ok && crate::ast::exprs_lambda_free(args@) ==> crate::ir::keeps_settled(old(self).log, final(self).log),
            keeps_tables(*old(self), *final(self)),
            r matches Ok(Some(v)) ==> v < final(self).log.ops_view().len(),
            r matches Ok(None) <==> !spec_check_entry(name@),
            !spec_check_entry(name@) ==> *final(self) == *old(self),
            spec_check_entry(name@) && args.len() == 0 && (spec_stdlib_arity(name@) matches Some(n) && n > 0) ==> (r matches Err(e) && e.message@ == "Missing arguments for "@ + name@),
            (name@ == "assert"@ || name@ == "assert_true"@ || name@ == "assert_false"@ || name@ == "assert_eq"@ || name@ == "assert_ne"@) && r is Ok
                ==> crate::stmts::continues_in(old(self).log, final(self).log, check_ok_block(name@)),
            (name@ == "assert"@ || name@ == "assert_true"@ || name@ == "assert_false"@) && args.len() >= 1 && crate::exprs::int_literal(args@[0])
                && crate::stmts::can_lower_constants(*old(self)) ==> r is Ok,
            name@ == "range"@ ==> (r matches Ok(Some(v)) ==> crate::builtins::range_built(final(self).log, v)),
            name@ == "range"@ && range_literals(args@) && !literals_agree(args@) && old(self).state.strings_named() < u32::MAX
                ==> (r matches Err(e) && e.message@ == "range() arguments must be all Integer or all Float"@),
            name@ == "range"@ && range_literals(args@) && literals_agree(args@) && args.len() == 3 && zero_constant(args@[2]) && old(self).state.strings_named() < u32::MAX
                ==> (r matches Err(e) && e.message@ == "range() step cannot be 0"@),
            name@ == "range"@ && range_literals(args@) && literals_agree(args@) && !(args.len() == 3 && zero_constant(args@[2])) && old(self).state.strings_named() < u32::MAX
                ==> (r matches Ok(Some(v)) && range_of_literals(final(self).log, v, args@)),
            name@ == "assert"@ ==> (r is Ok ==> checks_argument(old(self).log, final(self).log, false, "assert_ok"@, "assert_panic"@, args@[0])),
            name@ == "assert_true"@ ==> (r is Ok ==> checks_argument(old(self).log, final(self).log, false, "assert_true_ok"@, "assert_true_panic"@, args@[0])),
            name@ == "assert_false"@ ==> (r is Ok ==> checks_argument(old(self).log, final(self).log, true, "assert_false_ok"@, "assert_false_panic"@, args@[0])),
            name@ == "assert_eq"@ ==> (r is Ok ==> checks_comparison(old(self).log, final(self).log, true, "assert_eq_ok"@, "assert_eq_panic"@)),
            name@ == "assert_ne"@ ==> (r is Ok ==> checks_comparison(old(self).log, final(self).log, false, "assert_ne_ok"@, "assert_ne_panic"@)),
        decreases args, 6int,
    {
        proof {
            crate::stdlib::lemma_check_arities();
            reveal_strlit("range");
            reveal_strlit("assert_eq");
            reveal_strlit("assert_ne");
            assert("assert_ne"@[7] != "assert_eq"@[7]);
            reveal_strlit("assert");
            reveal_strlit("assert_true");
            reveal_strlit("assert_false");
            reveal_strlit("assert_eq");
            reveal_strlit("assert_ne");
            reveal_strlit("_ok");
            reveal_strlit("exit");
            reveal_strlit("fail");
            reveal_strlit("assert_ok");
            assert("assert_ok"@ =~= "assert"@ + "_ok"@);
            assert("assert_true_ok"@ =~= "assert_true"@ + "_ok"@) by { reveal_strlit("assert_true_ok"); };
            assert("assert_false_ok"@ =~= "assert_false"@ + "_ok"@) by { reveal_strlit("assert_false_ok"); };
            assert("assert_eq_ok"@ =~= "assert_eq"@ + "_ok"@) by { reveal_strlit("assert_eq_ok"); };
            assert("assert_ne_ok"@ =~= "assert_ne"@ + "_ok"@) by { reveal_strlit("assert_ne_ok"); };
            reveal_strlit("assert_ok");
        }
        if str_eq(name, "range") {
            let start = self.arg_value(args, 0, name)?;
            let k0 = self.number_kind(start);
            let ghost l0 = self.log;
            let end = self.arg_value(args, 1, name)?;
            let k1 = self.number_kind(end);
            let ghost l1 = self.log;
            let (given_step, k2) = if args.len() > 2 {
                let x = self.arg_value(args, 2, name)?;
                let k = self.number_kind(x);
                (Some(x), k)
            } else {
                (None, k0)
            };
            let ghost l2 = self.log;
            proof {
                if range_literals(args@) {
                    assert(number_literal_kind(args@[0]) is Some);
                    assert(number_literal_kind(args@[1]) is Some);
                    if args.len() == 3 {
                        assert(number_literal_kind(args@[2]) is Some);
                    }
                    if !literals_agree(args@) {
                        let i = choose|i: int| 0 <= i < args.len() && #[trigger] number_literal_kind(args@[i]) != number_literal_kind(args@[0]);
                        assert(i == 1 || i == 2);
                    }
                }
            }
            let agree = match (k0, k1, k2) {
                (Some(a), Some(b), Some(c)) => a == b && b == c,
                _ => false,
            };
            if !agree {
                return Err(error("range() arguments must be all Integer or all Float"));
            }
            if args.len() > 2 && is_zero_constant(&args[2]) {
                return Err(error("range() step cannot be 0"));
            }
            let floats = match k0 {
                Some(b) => b,
                None => false,
            };
            let step = match given_step {
                Some(x) => x,
                None => if floats {
                    self.log.const_float(FLOAT_ONE_BITS)
                } else {
                    self.log.const_int(LlvmType::I64, 1, false)
                },
            };
            let ghost l3 = self.log;
            let v = self.create_range(start, end, step);
            proof {
                let fin = self.log;
                assert(fin.ops_view()[start as int] == l0.ops_view()[start as int]);
                assert(fin.ops_view()[end as int] == l1.ops_view()[end as int]);
                assert(fin.ops_view()[step as int] == l3.ops_view()[step as int]);
                if args.len() == 3 {
                    assert(fin.ops_view()[step as int] == l2.ops_view()[step as int]);
                }
                assert(crate::builtins::range_initialised(fin, v, start, end, step));
                if range_literals(args@) && literals_agree(args@) {
                    assert(number_literal_kind(args@[0]) == number_literal_kind(args@[1]));
                    assert(range_of_literals(fin, v, args@));
                }
                assert(crate::builtins::range_built(fin, v));
            }
            Ok(Some(v))
        } else if str_eq(name, "exit") {
            let code = self.arg_value(args, 0, name)?;
            if !self.log.is_int_value(code) {
                return Err(error("exit() requires Integer code"));
            }
            let exit = self.libc(LibcFn::Exit);
            let code32 = self.log.cast(CastOp::Truncate, code, LlvmType::I32, "exitcode");
            self.log.call(exit, vec![code32], "");
            Ok(Some(self.int_const(LlvmType::I8, 0)))
        } else if str_eq(name, "assert") || str_eq(name, "assert_true") || str_eq(name, "assert_false") {
            let c = self.arg_value(args, 0, name)?;
            let c = self.expect_int(c)?;
            let ghost l_c = self.log;
            let v = if str_eq(name, "assert") {
                self.emit_check(c, false, "assert", "assert_panic", "assert_ok", "assert_fail", "Assertion failed!\n")?
            } else if str_eq(name, "assert_true") {
                self.emit_check(c, false, "assert_true", "assert_true_panic", "assert_true_ok", "assert_true_fail", "Assertion failed: expected true!\n")?
            } else {
                self.emit_check(c, true, "assert_false", "assert_false_panic", "assert_false_ok", "assert_false_fail", "Assertion failed: expected false!\n")?
            };
            proof {
                assert(self.log.ops_view()[c as int] == l_c.ops_view()[c as int]);
                assert(old(self).log.ops_view().len() <= l_c.ops_view().len());
                if name@ == "assert"@ {
                    let k = choose|k: int| #[trigger] check_branch_at(l_c, self.log, k, c, false, "assert_ok"@, "assert_panic"@);
                    assert(check_branch_at(old(self).log, self.log, k, c, false, "assert_ok"@, "assert_panic"@));
                } else if name@ == "assert_true"@ {
                    let k = choose|k: int| #[trigger] check_branch_at(l_c, self.log, k, c, false, "assert_true_ok"@, "assert_true_panic"@);
                    assert(check_branch_at(old(self).log, self.log, k, c, false, "assert_true_ok"@, "assert_true_panic"@));
                } else {
                    let k = choose|k: int| #[trigger] check_branch_at(l_c, self.log, k, c, true, "assert_false_ok"@, "assert_false_panic"@);
                    assert(check_branch_at(old(self).log, self.log, k, c, true, "assert_false_ok"@, "assert_false_panic"@));
                }
            }
            Ok(Some(v))
        } else if str_eq(name, "assert_eq") || str_eq(name, "assert_ne") {
            let eq = str_eq(name, "assert_eq");
            let a = self.arg_value(args, 0, name)?;
            let b = self.arg_value(args, 1, name)?;
            let ka = self.kind_of(a);
            let kb = self.kind_of(b);
            let op = if eq { crate::ast::BinOp::Eq } else { crate::ast::BinOp::NotEq };
            let passed = match crate::lowering::select_binary(op, ka, kb)? {
                crate::lowering::BinaryLowering::IntCompare(p) => self.log.int_compare(p, a, b, "cmp"),
                crate::lowering::BinaryLowering::FloatCompare(p) => self.log.float_compare(p, a, b, "cmp"),
                _ => return Err(error("Type mismatch in binary operation")),
            };
            let ghost l_p = self.log;
            let v = if eq {
                self.emit_check(passed, false, "assert_eq", "assert_eq_panic", "assert_eq_ok", "assert_eq_fail", "Assertion failed: values are not equal!\n")?
            } else {
                self.emit_check(passed, false, "assert_ne", "assert_ne_panic", "assert_ne_ok", "assert_ne_fail", "Assertion failed: values should not be equal!\n")?
            };
            proof {
                assert(self.log.ops_view()[passed as int] == l_p.ops_view()[passed as int]);
                assert(old(self).log.ops_view().len() <= l_p.ops_view().len());
                if eq {
                    let k = choose|k: int| #[trigger] check_branch_at(l_p, self.log, k, passed, false, "assert_eq_ok"@, "assert_eq_panic"@);
                    assert(check_branch_at(old(self).log, self.log, k, passed, false, "assert_eq_ok"@, "assert_eq_panic"@));
                } else {
                    let k = choose|k: int| #[trigger] check_branch_at(l_p, self.log, k, passed, false, "assert_ne_ok"@, "assert_ne_panic"@);
                    assert(check_branch_at(old(self).log, self.log, k, passed, false, "assert_ne_ok"@, "assert_ne_panic"@));
                    assert(checks_comparison(old(self).log, self.log, false, "assert_ne_ok"@, "assert_ne_panic"@));
                }
            }
            Ok(Some(v))
        } else if str_eq(name, "fail") {
            let printf = self.libc(LibcFn::Printf);
            let prefix = self.string_global("fail_prefix", "Test failed: ", true);
            self.log.call(printf, vec![prefix], "");
            if args.len() > 0 {
                let m = self.arg_value(args, 0, name)?;
                if !self.log.is_pointer_value(m) {
                    return Err(error("fail() requires String message"));
                }
                self.log.call(printf, vec![m], "");
            }
            let nl = self.string_global("nl", "\n", true);
            self.log.call(printf, vec![nl], "");
            let exit = self.libc(LibcFn::Exit);
            let one = self.int_const(LlvmType::I32, 1);
            self.log.call(exit, vec![one], "");
            self.log.unreachable();
            Ok(Some(self.int_const(LlvmType::I64, 0)))
        } else {
            Ok(None)
        }
    }

    /// Which number `v` is: `Some(false)` for an `i64`, `Some(true)` for a
    /// `double`, `None` for anything else.
    fn number_kind(&self, v: usize) -> (r: Option<bool>)
        ensures
            r == Some(false) <==> (self.log.value_type_of(v) matches Some(t) && t@ == LlvmTypeV::I64),
            r == Some(true) <==> self.log.value_type_of(v) == Some(LlvmType::F64),
    {
        match self.log.value_type(v) {
            Some(LlvmType::I64) => Some(false),
            Some(LlvmType::F64) => Some(true),
            _ => None,
        }
    }

    /// Branches on `passed` (an integer value): where it is 0 (or, when
    /// `fail_on_true`, where it is not) the program prints the global text
    /// `message` and exits with status 1; otherwise code continues in a new
    /// block named `ok_name`. The value is `i8 0`.
    fn emit_check(&mut self, passed: usize, fail_on_true: bool, what: &str, panic_name: &str, ok_name: &str, message_name: &str, message: &str) -> (r: Result<usize, CodegenError>)
        requires
            old(self).wf(),
        ensures
            r is Ok ==> crate::ir::keeps_settled(old(self).log, final(self).log),
            crate::stmts::yields(*final(self), r),
            keeps_tables(*old(self), *final(self)),
            r is Ok <==> old(self).current_fn is Some,
            r matches Err(e) ==> e.message@ == what@ + " used outside function"@ && *final(self) == *old(self),
            r matches Ok(v) ==> final(self).log.ops_view()[v as int] == (Op::ConstInt { ty: LlvmType::I8, value: 0, signed: false }),
            r is Ok ==> crate::stmts::continues_in(old(self).log, final(self).log, ok_name@),
            r is Ok ==> exists|i: int| old(self).log.ops_view().len() <= i < final(self).log.ops_view().len()
                && (#[trigger] final(self).log.ops_view()[i] matches Op::CondBranch { cond, then_block: _, else_block: _ } && cond == passed),
            r is Ok ==> exists|i: int| #[trigger] check_branch_at(old(self).log, final(self).log, i, passed, fail_on_true, ok_name@, panic_name@),
    {
        let f = match self.current_fn {
            Some(f) => f,
            None => {
                let mut m = String::from_str(what);
                m.append(" used outside function");
                return Err(CodegenError::new(m));
            },
        };
        let ghost s1 = self.log;
        let ok_bb = self.log.append_block(f, ok_name);
        let ghost s2 = self.log;
        let panic_bb = self.log.append_block(f, panic_name);
        let ghost s3 = self.log;
        if fail_on_true {
            self.log.cond_branch(passed, panic_bb, ok_bb);
        } else {
            self.log.cond_branch(passed, ok_bb, panic_bb);
        }
        let ghost s4 = self.log;
        let ghost branch_at = s3.ops_view().len() as int;
        self.log.position_at_end(panic_bb);
        let ghost s5 = self.log;
        let printf = self.libc(LibcFn::Printf);
        let text = self.string_global(message_name, message, true);
        self.log.call(printf, vec![text], "");
        let exit = self.libc(LibcFn::Exit);
        let one = self.int_const(LlvmType::I32, 1);
        self.log.call(exit, vec![one], "");
        self.log.unreachable();
        let ghost s6 = self.log;
        self.log.position_at_end(ok_bb);
        let ghost s7 = self.log;
        let zero = self.int_const(LlvmType::I8, 0);
        assert(self.log.ops_view()[ok_bb as int] == s2.ops_view()[ok_bb as int]);
        assert(self.log.ops_view()[panic_bb as int] == s3.ops_view()[panic_bb as int]);
        assert(self.log.ops_view()[branch_at] == s4.ops_view()[branch_at]);
        assert(check_branch_at(old(self).log, self.log, branch_at, passed, fail_on_true, ok_name@, panic_name@));
        proof {
            let a = old(self).log;
            crate::ir::lemma_keeps_settled(a, s1);
            crate::ir::lemma_settled_but_start(a, s1);
            let p1 = crate::ir::position_set(s1);
            crate::ir::lemma_settled_but_append(a, s1, s2, p1, ok_bb);
            crate::ir::lemma_settled_but_append(a, s2, s3, p1.insert(ok_bb), panic_bb);
            let p3 = p1.insert(ok_bb).insert(panic_bb);
            crate::ir::lemma_settled_but_segment(a, s3, s4, p3);
            let p4 = p3.difference(crate::ir::position_set(s3));
            crate::ir::lemma_settled_but_move(a, s4, s5, p4);
            crate::ir::lemma_settled_but_segment(a, s5, s6, p4);
            let p6 = p4.difference(crate::ir::position_set(s5));
            crate::ir::lemma_settled_but_move(a, s6, s7, p6);
            crate::ir::lemma_settled_but_open(a, s7, self.log, p6);
            let p8 = p6.difference(crate::ir::position_set(s7)).union(crate::ir::position_set(self.log));
            assert(p8.subset_of(set![ok_bb]));
            crate::ir::lemma_settled_but_done(a, self.log, p8, ok_bb);
            crate::ir::lemma_keeps_settled(a, self.log);
        }
        Ok(zero)
    }

    /// Lowers the `Math__*` entries and the conversions `to_float`, `to_int` and
    /// `to_string`; `None` for any other name.
    fn compile_math_call(&mut self, name: &str, args: &Vec<Expr>) -> (r: Result<Option<usize>, CodegenError>)
        requires
            old(self).wf(),
        ensures
            r is Ok && crate::ast::exprs_lambda_free(args@) ==> crate::ir::keeps_settled(old(self).log, final(self).log),
            keeps_tables(*old(self), *final(self)),
            r matches Ok(Some(v)) ==> v < final(self).log.ops_view().len(),
            r matches Ok(None) <==> !spec_math_entry(name@),
            !spec_math_entry(name@) ==> *final(self) == *old(self),
            spec_math_entry(name@) && args.len() == 0 && (spec_stdlib_arity(name@) matches Some(n) && n > 0) ==> (r matches Err(e) && e.message@ == "Missing arguments for "@ + name@),
            name@ == "Math__pi"@ ==> (r matches Ok(Some(v)) && final(self).log.ops_view()[v as int] == (Op::ConstFloat { bits: PI_BITS })),
            name@ == "Math__e"@ ==> (r matches Ok(Some(v)) && final(self).log.ops_view()[v as int] == (Op::ConstFloat { bits: E_BITS })),
            name@ == "Math__sqrt"@ ==> (r matches Ok(Some(v)) ==> (final(self).log.ops_view()[v as int] matches Op::Call { function: f, args: _, name: _ }
                && crate::codegen::declares(final(self).log, f, "sqrt"@))),
            name@ == "Math__min"@ ==> (r matches Ok(Some(v)) ==> min_max_lowered(final(self).log, v, true)),
            name@ == "Math__max"@ ==> (r matches Ok(Some(v)) ==> min_max_lowered(final(self).log, v, false)),
            name@ == "Math__abs"@ ==> (r matches Ok(Some(v)) ==> abs_lowered(old(self).log, final(self).log, v)
                || (final(self).log.ops_view()[v as int] matches Op::Call { function: f, args: _, name: _ } && crate::codegen::declares(final(self).log, f, "fabs"@))),
            name@ == "Math__abs"@ && args.len() >= 1 && number_literal_kind(args@[0]) == Some(false) && crate::stmts::can_lower_constants(*old(self))
                ==> (r matches Ok(Some(v)) && abs_lowered(old(self).log, final(self).log, v)),
            name@ == "Math__pow"@ ==> (r matches Ok(Some(v)) ==> pow_lowered(final(self).log, v, args@)),
            converting_entry(name@) ==> (r matches Ok(Some(v)) ==> unary_math_of(final(self).log, v, name@, args@, true)),
            rounding_entry(name@) ==> (r matches Ok(Some(v)) ==> unary_math_of(final(self).log, v, name@, args@, false)),
        decreases args, 6int,
    {
        proof {
            if name@ == "Math__pi"@ || name@ == "Math__e"@ {
                lemma_math_constants(name@);
            }
            if name@ == "Math__sqrt"@ {
                lemma_sqrt_entry();
            }
            lemma_pow_entry();
            lemma_unary_math_entries();
            lemma_min_max_names();
        }
        if str_eq(name, "Math__abs") {
            let v = self.arg_value(args, 0, name)?;
            if self.log.is_int_value(v) {
                let min = self.log.const_int(LlvmType::I64, I64_MIN_BITS, true);
                let is_min = self.log.int_compare(IntPredicate::Eq, v, min, "math_abs_is_min");
                let ghost l_min = self.log;
                self.emit_check(is_min, true, "Math.abs", "math_abs_overflow", "math_abs_ok", "math_abs_min_overflow", "Math.abs() overflow on minimum Integer\n")?;
                let ghost l_checked = self.log;
                let zero = self.log.const_int(LlvmType::I64, 0, false);
                let ghost l_zero = self.log;
                let is_neg = self.log.int_compare(IntPredicate::Slt, v, zero, "is_neg");
                let ghost l_neg = self.log;
                let neg = self.log.int_neg(v, "neg");
                let ghost l_n = self.log;
                let a = self.log.select(is_neg, neg, v, "abs");
                proof {
                    let fin = self.log;
                    assert(fin.ops_view()[is_min as int] == l_min.ops_view()[is_min as int]);
                    assert(fin.ops_view()[min as int] == l_min.ops_view()[min as int]);
                    assert(fin.ops_view()[zero as int] == l_zero.ops_view()[zero as int]);
                    assert(fin.ops_view()[is_neg as int] == l_neg.ops_view()[is_neg as int]);
                    assert(fin.ops_view()[neg as int] == l_n.ops_view()[neg as int]);
                    let k = choose|k: int| l_min.ops_view().len() <= k < l_checked.ops_view().len()
                        && (#[trigger] l_checked.ops_view()[k] matches Op::CondBranch { cond, then_block: _, else_block: _ } && cond == is_min);
                    assert(fin.ops_view()[k] == l_checked.ops_view()[k]);
                    assert(abs_lowered(old(self).log, fin, a));
                }
                Ok(Some(a))
            } else {
                let fabs = self.math_function("fabs", true);
                let ghost declared = self.log;
                let c = self.log.call(fabs, vec![v], "abs");
                assert(self.log.ops_view()[fabs as int] == declared.ops_view()[fabs as int]);
                Ok(Some(c))
            }
        } else if str_eq(name, "Math__min") || str_eq(name, "Math__max") {
            let min = str_eq(name, "Math__min");
            let a = self.arg_value(args, 0, name)?;
            let b = self.arg_value(args, 1, name)?;
            if self.log.is_int_value(a) && self.log.is_int_value(b) {
                let pred = if min { IntPredicate::Slt } else { IntPredicate::Sgt };
                let c = self.log.int_compare(pred, a, b, "cmp");
                let ghost l_c = self.log;
                let v = self.log.select(c, a, b, if min { "min" } else { "max" });
                assert(self.log.ops_view()[c as int] == l_c.ops_view()[c as int]);
                Ok(Some(v))
            } else {
                let f = self.math_function(if min { "fmin" } else { "fmax" }, false);
                let ghost l_f = self.log;
                let fa = self.to_double(a);
                let fb = self.to_double(b);
                let v = self.log.call(f, vec![fa, fb], if min { "min" } else { "max" });
                assert(self.log.ops_view()[f as int] == l_f.ops_view()[f as int]);
                Ok(Some(v))
            }
        } else if str_eq(name, "Math__sqrt") {
            let v = self.arg_value(args, 0, name)?;
            let ghost l_v = self.log;
            proof {
                if args@[0] matches Expr::Literal(Literal::Integer(_)) {
                    let t = l_v.value_type_of(v)->0;
                    assert(t is I64);
                }
            }
            let fv = self.to_double(v);
            let ghost l_fv = self.log;
            let sqrt = self.math_function("sqrt", true);
            let ghost declared = self.log;
            proof {
                assert(declared.ops_view()[v as int] == l_v.ops_view()[v as int]);
                assert(declared.ops_view()[fv as int] == l_fv.ops_view()[fv as int]);
                assert(double_of_arg(declared, fv, args@[0], declared.ops_view().len() as int));
                assert(crate::codegen::declares(declared, sqrt, name@.subrange(6, name@.len() as int)));
            }
            let c = self.log.call(sqrt, vec![fv], "sqrt");
            assert(self.log.ops_view()[sqrt as int] == declared.ops_view()[sqrt as int]);
            Ok(Some(c))
        } else if str_eq(name, "Math__pow") {
            let base = self.arg_value(args, 0, name)?;
            let ghost l_base = self.log;
            proof {
                if args@[0] matches Expr::Literal(Literal::Integer(_)) {
                    let t = l_base.value_type_of(base)->0;
                    assert(t is I64);
                }
            }
            let fb = self.to_double(base);
            let ghost l_fb = self.log;
            let exp = self.arg_value(args, 1, name)?;
            let ghost l_exp = self.log;
            proof {
                if args@[1] matches Expr::Literal(Literal::Integer(_)) {
                    let t = l_exp.value_type_of(exp)->0;
                    assert(t is I64);
                }
            }
            let fe = self.to_double(exp);
            let ghost l_fe = self.log;
            let pow = self.math_function("pow", false);
            let ghost l_pow = self.log;
            proof {
                let l = l_pow;
                assert(l.ops_view()[pow as int] == l_pow.ops_view()[pow as int]);
                assert(l.ops_view()[base as int] == l_base.ops_view()[base as int]);
                assert(l.ops_view()[exp as int] == l_exp.ops_view()[exp as int]);
                assert(l.ops_view()[fb as int] == l_fb.ops_view()[fb as int]);
                assert(l.ops_view()[fe as int] == l_fe.ops_view()[fe as int]);
                assert(double_of_arg(l, fb, args@[0], l.ops_view().len() as int));
                assert(double_of_arg(l, fe, args@[1], l.ops_view().len() as int));
            }
            Ok(Some(self.log.call(pow, vec![fb, fe], "pow")))
        } else if converting_math_function(name).is_some() {
            let c_name = match converting_math_function(name) {
                Some(n) => n,
                None => return Ok(None),
            };
            let v = self.arg_value(args, 0, name)?;
            let ghost l_v = self.log;
            proof {
                if args@[0] matches Expr::Literal(Literal::Integer(_)) {
                    let t = l_v.value_type_of(v)->0;
                    assert(t is I64);
                }
            }
            let fv = self.to_double(v);
            let ghost l_fv = self.log;
            let f = self.math_function(c_name, true);
            let ghost declared = self.log;
            proof {
                assert(declared.ops_view()[v as int] == l_v.ops_view()[v as int]);
                assert(declared.ops_view()[fv as int] == l_fv.ops_view()[fv as int]);
                assert(double_of_arg(declared, fv, args@[0], declared.ops_view().len() as int));
                assert(crate::codegen::declares(declared, f, name@.subrange(6, name@.len() as int)));
            }
            Ok(Some(self.log.call(f, vec![fv], c_name)))
        } else if rounding_math_function(name).is_some() {
            let c_name = match rounding_math_function(name) {
                Some(n) => n,
                None => return Ok(None),
            };
            let v = self.arg_value(args, 0, name)?;
            let ghost l_v = self.log;
            let f = self.math_function(c_name, true);
            let ghost declared = self.log;
            proof {
                lemma_arg_is_kept(l_v, declared, v, args@[0]);
                assert(crate::codegen::declares(declared, f, name@.subrange(6, name@.len() as int)));
            }
            Ok(Some(self.log.call(f, vec![v], c_name)))
        } else if str_eq(name, "Math__random") {
            let rand = self.libc(LibcFn::Rand);
            let r = self.log.call(rand, Vec::new(), "r");
            let fv = self.log.cast(CastOp::UnsignedToFloat, r, LlvmType::F64, "rf");
            let max = self.log.const_float(RAND_MAX_BITS);
            Ok(Some(self.log.arith(ArithOp::FloatDiv, fv, max, "rnd")))
        } else if str_eq(name, "Math__pi") {
            Ok(Some(self.log.const_float(PI_BITS)))
        } else if str_eq(name, "Math__e") {
            Ok(Some(self.log.const_float(E_BITS)))
        } else if str_eq(name, "to_float") {
            let v = self.arg_value(args, 0, name)?;
            if self.log.is_int_value(v) {
                Ok(Some(self.log.cast(CastOp::SignedToFloat, v, LlvmType::F64, "tofloat")))
            } else {
                Ok(Some(v))
            }
        } else if str_eq(name, "to_int") {
            let v = self.arg_value(args, 0, name)?;
            if self.log.is_float_value(v) {
                Ok(Some(self.log.cast(CastOp::FloatToSigned, v, LlvmType::I64, "toint")))
            } else {
                Ok(Some(v))
            }
        } else if str_eq(name, "to_string") {
            let v = self.arg_value(args, 0, name)?;
            Ok(Some(self.compile_to_string(v)?))
        } else {
            Ok(None)
        }
    }

    /// Lowers the `Str__*` entries; `None` for any other name.
    #[verifier::spinoff_prover]
    #[verifier::rlimit(100)]
    fn compile_text_call(&mut self, name: &str, args: &Vec<Expr>) -> (r: Result<Option<usize>, CodegenError>)
        requires
            old(self).wf(),
        ensures
            r is Ok && crate::ast::exprs_lambda_free(args@) ==> crate::ir::keeps_settled(old(self).log, final(self).log),
            keeps_tables(*old(self), *final(self)),
            r matches Ok(Some(v)) ==> v < final(self).log.ops_view().len(),
            r matches Ok(None) <==> !spec_text_entry(name@),
            !spec_text_entry(name@) ==> *final(self) == *old(self),
            spec_text_entry(name@) && args.len() == 0 && (spec_stdlib_arity(name@) matches Some(n) && n > 0) ==> (r matches Err(e) && e.message@ == "Missing arguments for "@ + name@),
            name@ == "Str__concat"@ ==> (r matches Ok(Some(v)) ==> concat_built(final(self).log, v)),
            name@ == "Str__endsWith"@ ==> (r matches Ok(Some(v)) ==> ends_with_built(final(self).log, v)),
            name@ == "Str__compare"@ ==> (r matches Ok(Some(v)) ==> compare_of(final(self).log, v, args@)),
            name@ == "Str__contains"@ ==> (r matches Ok(Some(v)) ==> contains_of(final(self).log, v, args@)),
            name@ == "Str__startsWith"@ ==> (r matches Ok(Some(v)) ==> starts_with_of(final(self).log, v, args@)),
            name@ == "Str__endsWith"@ ==> (r matches Ok(Some(v)) ==> ends_with_of(final(self).log, v, args@)),
            name@ == "Str__concat"@ ==> (r matches Ok(Some(v)) ==> concat_of(final(self).log, v, args@)),
        decreases args, 6int,
    {
        proof {
            lemma_concat_and_suffix_entries();
            lemma_two_string_entries();
        }
        if str_eq(name, "Str__len") {
            let s = self.arg_value(args, 0, name)?;
            let strlen = self.libc(LibcFn::Strlen);
            Ok(Some(self.log.call(strlen, vec![s], "len")))
        } else if str_eq(name, "Str__compare") {
            let s1 = self.arg_value(args, 0, name)?;
            let ghost l1 = self.log;
            let s2 = self.arg_value(args, 1, name)?;
            let ghost l2 = self.log;
            let strcmp = self.libc(LibcFn::Strcmp);
            let ghost l_f = self.log;
            let c = self.log.call(strcmp, vec![s1, s2], "cmp");
            let ghost l_c = self.log;
            let v = self.to_i64(c, "cmp64");
            proof {
                let fin = self.log;
                lemma_arg_is_kept(l1, fin, s1, args@[0]);
                lemma_arg_is_kept(l2, fin, s2, args@[1]);
                assert(op_at(fin, strcmp) == op_at(l_f, strcmp));
                assert(op_at(fin, c) == op_at(l_c, c));
                assert(compare_of(fin, v, args@));
            }
            Ok(Some(v))
        } else if str_eq(name, "Str__concat") {
            let s1 = self.arg_value(args, 0, name)?;
            let s2 = self.arg_value(args, 1, name)?;
            let v = self.emit_concat(s1, s2);
            assert(crate::builtins::concatenated(self.log, v, s1, s2));
            assert(concat_built(self.log, v));
            Ok(Some(v))
        } else if str_eq(name, "Str__upper") || str_eq(name, "Str__lower") {
            let s = self.arg_value(args, 0, name)?;
            let f = self.libc(if str_eq(name, "Str__upper") { LibcFn::Toupper } else { LibcFn::Tolower });
            Ok(Some(self.compile_string_transform(s, f)?))
        } else if str_eq(name, "Str__trim") {
            let s = self.arg_value(args, 0, name)?;
            Ok(Some(self.compile_trim(s)?))
        } else if str_eq(name, "Str__contains") {
            let s = self.arg_value(args, 0, name)?;
            let ghost l1 = self.log;
            let sub = self.arg_value(args, 1, name)?;
            let ghost l2 = self.log;
            let strstr = self.libc(LibcFn::Strstr);
            let ghost l_f = self.log;
            let pos = self.log.call(strstr, vec![s, sub], "pos");
            let ghost l_pos = self.log;
            let not_found = self.log.is_null(pos, "not_found");
            let ghost l_nf = self.log;
            let v = self.log.not(not_found, "found");
            proof {
                let fin = self.log;
                lemma_arg_is_kept(l1, fin, s, args@[0]);
                lemma_arg_is_kept(l2, fin, sub, args@[1]);
                assert(op_at(fin, strstr) == op_at(l_f, strstr));
                assert(op_at(fin, pos) == op_at(l_pos, pos));
                assert(op_at(fin, not_found) == op_at(l_nf, not_found));
                assert(contains_of(fin, v, args@));
            }
            Ok(Some(v))
        } else if str_eq(name, "Str__startsWith") {
            let s = self.arg_value(args, 0, name)?;
            let ghost l1 = self.log;
            let pre = self.arg_value(args, 1, name)?;
            let ghost l2 = self.log;
            let strlen = self.libc(LibcFn::Strlen);
            let ghost l_len = self.log;
            let strncmp = self.libc(LibcFn::Strncmp);
            let ghost l_f = self.log;
            let pre_len = self.log.call(strlen, vec![pre], "pre_len");
            let ghost l_pl = self.log;
            let c = self.log.call(strncmp, vec![s, pre, pre_len], "cmp");
            let ghost l_c = self.log;
            let zero = self.log.const_int(LlvmType::I32, 0, false);
            let ghost l_z = self.log;
            let v = self.log.int_compare(IntPredicate::Eq, c, zero, "is_zero");
            proof {
                let fin = self.log;
                lemma_arg_is_kept(l1, fin, s, args@[0]);
                lemma_arg_is_kept(l2, fin, pre, args@[1]);
                assert(op_at(fin, strlen) == op_at(l_len, strlen));
                assert(op_at(fin, strncmp) == op_at(l_f, strncmp));
                assert(op_at(fin, pre_len) == op_at(l_pl, pre_len));
                assert(op_at(fin, c) == op_at(l_c, c));
                assert(op_at(fin, zero) == op_at(l_z, zero));
                assert(starts_with_of(fin, v, args@));
            }
            Ok(Some(v))
        } else if str_eq(name, "Str__endsWith") {
            let s = self.arg_value(args, 0, name)?;
            let suf = self.arg_value(args, 1, name)?;
            let strlen = self.libc(LibcFn::Strlen);
            let ghost l_strlen = self.log;
            let strcmp = self.libc(LibcFn::Strcmp);
            let ghost l_strcmp = self.log;
            let s_len = self.log.call(strlen, vec![s], "s_len");
            let suf_len = self.log.call(strlen, vec![suf], "suf_len");
            let can_end = self.log.int_compare(IntPredicate::Uge, s_len, suf_len, "can_end");
            let start = self.log.arith(ArithOp::IntSub, s_len, suf_len, "");
            let s = self.expect_pointer(s)?;
            let tail = self.log.gep(LlvmType::I8, s, vec![start], "");
            let c = self.log.call(strcmp, vec![tail, suf], "cmp");
            let zero = self.log.const_int(LlvmType::I32, 0, false);
            let is_zero = self.log.int_compare(IntPredicate::Eq, c, zero, "is_zero");
            let ghost l_pre = self.log;
            let v = self.log.arith(ArithOp::And, can_end, is_zero, "");
            proof {
                let fin = self.log;
                assert(op_at(fin, strlen) == op_at(l_strlen, strlen));
                assert(op_at(fin, strcmp) == op_at(l_strcmp, strcmp));
                assert(op_at(fin, s_len) == op_at(l_pre, s_len));
                assert(op_at(fin, suf_len) == op_at(l_pre, suf_len));
                assert(op_at(fin, can_end) == op_at(l_pre, can_end));
                assert(op_at(fin, start) == op_at(l_pre, start));
                assert(op_at(fin, tail) == op_at(l_pre, tail));
                assert(op_at(fin, c) == op_at(l_pre, c));
                assert(op_at(fin, zero) == op_at(l_pre, zero));
                assert(op_at(fin, is_zero) == op_at(l_pre, is_zero));
                assert(ends_with_lowered(fin, v, s, suf));
                assert(ends_with_built(fin, v));
            }
            Ok(Some(v))
        } else {
            Ok(None)
        }
    }

    /// Lowers the entries that reach the C library for input, files, time, the
    /// environment and the program arguments; `None` for any other name.
    #[verifier::rlimit(100)]
    #[verifier::spinoff_prover]
    fn compile_system_call(&mut self, name: &str, args: &Vec<Expr>) -> (r: Result<Option<usize>, CodegenError>)
        requires
            old(self).wf(),
        ensures
            r is Ok && crate::ast::exprs_lambda_free(args@) ==> crate::ir::keeps_settled(old(self).log, final(self).log),
            keeps_tables(*old(self), *final(self)),
            r matches Ok(Some(v)) ==> v < final(self).log.ops_view().len(),
            r matches Ok(None) <==> !spec_system_entry(name@),
            !spec_system_entry(name@) ==> *final(self) == *old(self),
            spec_system_entry(name@) && args.len() == 0 && (spec_stdlib_arity(name@) matches Some(n) && n > 0) ==> (r matches Err(e) && e.message@ == "Missing arguments for "@ + name@),
            name@ == "Time__sleep"@ ==> (r is Ok ==> exists|x: usize, k: int| #[trigger] checks_before(old(self).log, final(self).log, x, IntPredicate::Slt, k)),
            name@ == "Time__sleep"@ && args.len() >= 1 && number_literal_kind(args@[0]) == Some(true) && old(self).state.strings_named() < u32::MAX
                ==> (r matches Err(e) && e.message@ == "Time.sleep(ms) requires Integer milliseconds"@),
            name@ == "Time__sleep"@ && args.len() >= 1 && (args@[0] matches Expr::Literal(Literal::Integer(n)) && n < 0) && old(self).state.strings_named() < u32::MAX
                ==> (r matches Err(e) && e.message@ == "Time.sleep() milliseconds must be non-negative"@),
            name@ == "Args__get"@ ==> (r matches Ok(Some(v)) ==> args_get_lowered(old(self).log, final(self).log, v)),
            name@ == "Args__get"@ && args.len() >= 1 && number_literal_kind(args@[0]) == Some(true) && old(self).state.strings_named() < u32::MAX
                ==> (r matches Err(e) && e.message@ == "Args.get() requires Integer index"@),
            name@ == "Args__get"@ && args.len() >= 1 && (args@[0] matches Expr::Literal(Literal::Integer(n)) && n < 0) && old(self).state.strings_named() < u32::MAX
                ==> (r matches Err(e) && e.message@ == "Args.get() index cannot be negative"@),
        decreases args, 7int,
    {
        proof {
            lemma_argumentless_entries();
            lemma_checked_system_entries();
        }
        if str_eq(name, "read_line") {
            let malloc = self.libc(LibcFn::Malloc);
            let fgets = self.libc(LibcFn::Fgets);
            let iob = self.libc(LibcFn::AcrtIobFunc);
            let zero32 = self.log.const_int(LlvmType::I32, 0, false);
            let stdin = self.log.call(iob, vec![zero32], "stdin");
            let size = self.log.const_int(LlvmType::I64, 1024, false);
            let buffer = self.log.call(malloc, vec![size], "linebuf");
            let stdin_val = self.log.load(LlvmType::Ptr, stdin, "stdin");
            let size32 = self.log.const_int(LlvmType::I32, 1024, false);
            self.log.call(fgets, vec![buffer, size32, stdin_val], "fgets");
            Ok(Some(buffer))
        } else if str_eq(name, "System__exit") {
            let code = self.arg_value(args, 0, name)?;
            let exit = self.libc(LibcFn::Exit);
            let code = self.expect_int(code)?;
            let code32 = self.log.cast(CastOp::Truncate, code, LlvmType::I32, "exitcode");
            self.log.call(exit, vec![code32], "");
            Ok(Some(self.int_const(LlvmType::I8, 0)))
        } else if str_eq(name, "File__write") {
            let path = self.arg_value(args, 0, name)?;
            let content = self.arg_value(args, 1, name)?;
            let fopen = self.libc(LibcFn::Fopen);
            let fputs = self.libc(LibcFn::Fputs);
            let fclose = self.libc(LibcFn::Fclose);
            let mode = self.string_global("mode_w", "w", false);
            let file = self.log.call(fopen, vec![path, mode], "file");
            let is_null = self.log.is_null(file, "is_null");
            let ghost sb = self.log;
            let (ok_bb, fail_bb, merge_bb) = self.null_split(is_null, "file.success", "file.fail", "file.merge")?;
            let ghost sn = self.log;
            self.log.position_at_end(fail_bb);
            let ghost sf = self.log;
            self.log.branch(merge_bb);
            let ghost sfe = self.log;
            self.log.position_at_end(ok_bb);
            let ghost so = self.log;
            self.log.call(fputs, vec![content, file], "write");
            self.log.call(fclose, vec![file], "close");
            self.log.branch(merge_bb);
            let ghost soe = self.log;
            self.log.position_at_end(merge_bb);
            let ghost sm = self.log;
            let t = self.log.const_int(LlvmType::I1, 1, false);
            let f = self.log.const_int(LlvmType::I1, 0, false);
            let v = self.log.phi(LlvmType::I1, vec![(f, fail_bb), (t, ok_bb)], "result");
            proof {
                if crate::ast::exprs_lambda_free(args@) {
                    crate::ir::lemma_keeps_settled(old(self).log, sb);
                    crate::ir::lemma_split_settled(old(self).log, sb, sn, sf, sfe, so, soe, sm, self.log, ok_bb, fail_bb, merge_bb);
                    crate::ir::lemma_keeps_settled(old(self).log, self.log);
                }
            }
            Ok(Some(v))
        } else if str_eq(name, "File__read") {
            let path = self.arg_value(args, 0, name)?;
            let fopen = self.libc(LibcFn::Fopen);
            let fseek = self.libc(LibcFn::Fseek);
            let ftell = self.libc(LibcFn::Ftell);
            let rewind = self.libc(LibcFn::Rewind);
            let fread = self.libc(LibcFn::Fread);
            let fclose = self.libc(LibcFn::Fclose);
            let malloc = self.libc(LibcFn::Malloc);
            let mode = self.string_global("mode_r", "rb", false);
            let file = self.log.call(fopen, vec![path, mode], "file");
            let is_null = self.log.is_null(file, "is_null");
            let ghost sb = self.log;
            let (ok_bb, fail_bb, merge_bb) = self.null_split(is_null, "read.success", "read.fail", "read.merge")?;
            let ghost sn = self.log;
            self.log.position_at_end(fail_bb);
            let ghost sf = self.log;
            let empty = self.string_global("empty_s", "", false);
            self.log.branch(merge_bb);
            let ghost sfe = self.log;
            self.log.position_at_end(ok_bb);
            let ghost so = self.log;
            let seek_end = self.log.const_int(LlvmType::I32, 2, false);
            let zero = self.log.const_int(LlvmType::I64, 0, false);
            self.log.call(fseek, vec![file, zero, seek_end], "");
            let size = self.log.call(ftell, vec![file], "size");
            self.log.call(rewind, vec![file], "");
            let one = self.log.const_int(LlvmType::I64, 1, false);
            let alloc = self.log.arith(ArithOp::IntAdd, size, one, "alloc_size");
            let buffer = self.log.call(malloc, vec![alloc], "buffer");
            self.log.call(fread, vec![buffer, one, size, file], "");
            let term = self.log.gep(LlvmType::I8, buffer, vec![size], "term_ptr");
            let nul = self.log.const_int(LlvmType::I8, 0, false);
            self.log.store(term, nul);
            self.log.call(fclose, vec![file], "");
            self.log.branch(merge_bb);
            let ghost soe = self.log;
            self.log.position_at_end(merge_bb);
            let ghost sm = self.log;
            let v = self.log.phi(LlvmType::Ptr, vec![(empty, fail_bb), (buffer, ok_bb)], "result");
            proof {
                if crate::ast::exprs_lambda_free(args@) {
                    crate::ir::lemma_keeps_settled(old(self).log, sb);
                    crate::ir::lemma_split_settled(old(self).log, sb, sn, sf, sfe, so, soe, sm, self.log, ok_bb, fail_bb, merge_bb);
                    crate::ir::lemma_keeps_settled(old(self).log, self.log);
                }
            }
            Ok(Some(v))
        } else if str_eq(name, "File__exists") {
            let path = self.arg_value(args, 0, name)?;
            let fopen = self.libc(LibcFn::Fopen);
            let fclose = self.libc(LibcFn::Fclose);
            let mode = self.string_global("mode_r", "r", false);
            let file = self.log.call(fopen, vec![path, mode], "file");
            let is_null = self.log.is_null(file, "is_null");
            let exists = self.log.not(is_null, "exists");
            let f = self.function_for("standard library call")?;
            let ghost s1 = self.log;
            let close_bb = self.log.append_block(f, "exists.close");
            let ghost s2 = self.log;
            let end_bb = self.log.append_block(f, "exists.end");
            let ghost s3 = self.log;
            self.log.cond_branch(exists, close_bb, end_bb);
            let ghost s4 = self.log;
            self.log.position_at_end(close_bb);
            let ghost s5 = self.log;
            self.log.call(fclose, vec![file], "");
            self.log.branch(end_bb);
            let ghost s6 = self.log;
            self.log.position_at_end(end_bb);
            proof {
                if crate::ast::exprs_lambda_free(args@) {
                    let a = old(self).log;
                    crate::ir::lemma_keeps_settled(a, s1);
                    crate::ir::lemma_settled_but_start(a, s1);
                    let p1 = crate::ir::position_set(s1);
                    crate::ir::lemma_settled_but_append(a, s1, s2, p1, close_bb);
                    crate::ir::lemma_settled_but_append(a, s2, s3, p1.insert(close_bb), end_bb);
                    let p3 = p1.insert(close_bb).insert(end_bb);
                    crate::ir::lemma_settled_but_segment(a, s3, s4, p3);
                    let p4 = p3.difference(crate::ir::position_set(s3));
                    crate::ir::lemma_settled_but_move(a, s4, s5, p4);
                    crate::ir::lemma_settled_but_segment(a, s5, s6, p4);
                    let p6 = p4.difference(crate::ir::position_set(s5));
                    crate::ir::lemma_settled_but_move(a, s6, self.log, p6);
                    assert(p6.subset_of(set![end_bb]));
                    crate::ir::lemma_settled_but_done(a, self.log, p6, end_bb);
                    crate::ir::lemma_keeps_settled(a, self.log);
                }
            }
            Ok(Some(exists))
        } else if str_eq(name, "File__delete") {
            let path = self.arg_value(args, 0, name)?;
            let remove = self.libc(LibcFn::Remove);
            let res = self.log.call(remove, vec![path], "res");
            let zero = self.log.const_int(LlvmType::I32, 0, false);
            Ok(Some(self.log.int_compare(IntPredicate::Eq, res, zero, "success")))
        } else if str_eq(name, "Time__now") {
            let format = self.arg_value(args, 0, name)?;
            let time = self.libc(LibcFn::Time);
            let localtime = self.libc(LibcFn::Localtime);
            let strftime = self.libc(LibcFn::Strftime);
            let malloc = self.libc(LibcFn::Malloc);
            let null = self.log.const_null();
            let t = self.log.call(time, vec![null], "t");
            let t_ptr = self.log.alloca(LlvmType::I64, "t_ptr");
            self.log.store(t_ptr, t);
            let tm = self.log.call(localtime, vec![t_ptr], "tm");
            let size = self.log.const_int(LlvmType::I64, 64, false);
            let buf = self.log.call(malloc, vec![size], "buf");
            let strlen = self.libc(LibcFn::Strlen);
            let len = self.log.call(strlen, vec![format], "len");
            let zero = self.log.const_int(LlvmType::I64, 0, false);
            let is_zero = self.log.int_compare(IntPredicate::Eq, len, zero, "is_zero");
            let default_fmt = self.string_global("default_time_fmt", "%H:%M:%S", false);
            let format = self.expect_pointer(format)?;
            let actual = self.log.select(is_zero, default_fmt, format, "fmt");
            self.log.call(strftime, vec![buf, size, actual, tm], "res");
            Ok(Some(buf))
        } else if str_eq(name, "Time__unix") {
            let time = self.libc(LibcFn::Time);
            let null = self.log.const_null();
            Ok(Some(self.log.call(time, vec![null], "time")))
        } else if str_eq(name, "Time__sleep") {
            Ok(Some(self.compile_sleep(args)?))
        } else if str_eq(name, "System__getenv") {
            let var = self.arg_value(args, 0, name)?;
            let getenv = self.libc(LibcFn::Getenv);
            let val = self.log.call(getenv, vec![var], "env");
            let is_null = self.log.is_null(val, "is_null");
            let empty = self.empty_string();
            let ghost sb = self.log;
            let (ok_bb, fail_bb, merge_bb) = self.null_split(is_null, "env.ok", "env.fail", "env.merge")?;
            let ghost sn = self.log;
            self.log.position_at_end(fail_bb);
            let ghost sf = self.log;
            self.log.branch(merge_bb);
            let ghost sfe = self.log;
            self.log.position_at_end(ok_bb);
            let ghost so = self.log;
            self.log.branch(merge_bb);
            let ghost soe = self.log;
            self.log.position_at_end(merge_bb);
            let ghost sm = self.log;
            let v = self.log.phi(LlvmType::Ptr, vec![(empty, fail_bb), (val, ok_bb)], "res");
            proof {
                if crate::ast::exprs_lambda_free(args@) {
                    crate::ir::lemma_keeps_settled(old(self).log, sb);
                    crate::ir::lemma_split_settled(old(self).log, sb, sn, sf, sfe, so, soe, sm, self.log, ok_bb, fail_bb, merge_bb);
                    crate::ir::lemma_keeps_settled(old(self).log, self.log);
                }
            }
            Ok(Some(v))
        } else if str_eq(name, "System__shell") {
            let cmd = self.arg_value(args, 0, name)?;
            let system = self.libc(LibcFn::System);
            let code = self.log.call(system, vec![cmd], "exit_code");
            Ok(Some(self.to_i64(code, "code64")))
        } else if str_eq(name, "System__exec") {
            let cmd = self.arg_value(args, 0, name)?;
            let popen = self.libc(LibcFn::Popen);
            let pclose = self.libc(LibcFn::Pclose);
            let fread = self.libc(LibcFn::Fread);
            let malloc = self.libc(LibcFn::Malloc);
            let mode = self.string_global("mode_pop_r", "r", false);
            let pipe = self.log.call(popen, vec![cmd, mode], "pipe");
            let is_null = self.log.is_null(pipe, "is_null");
            let ghost sb = self.log;
            let (ok_bb, fail_bb, merge_bb) = self.null_split(is_null, "exec.ok", "exec.fail", "exec.merge")?;
            let ghost sn = self.log;
            self.log.position_at_end(fail_bb);
            let ghost sf = self.log;
            let empty = self.empty_string();
            self.log.branch(merge_bb);
            let ghost sfe = self.log;
            self.log.position_at_end(ok_bb);
            let ghost so = self.log;
            let size = self.log.const_int(LlvmType::I64, 4096, false);
            let buf = self.log.call(malloc, vec![size], "buf");
            let one = self.log.const_int(LlvmType::I64, 1, false);
            let read_len = self.log.call(fread, vec![buf, one, size, pipe], "read_len");
            let term = self.log.gep(LlvmType::I8, buf, vec![read_len], "term_ptr");
            let nul = self.log.const_int(LlvmType::I8, 0, false);
            self.log.store(term, nul);
            self.log.call(pclose, vec![pipe], "");
            self.log.branch(merge_bb);
            let ghost soe = self.log;
            self.log.position_at_end(merge_bb);
            let ghost sm = self.log;
            let v = self.log.phi(LlvmType::Ptr, vec![(empty, fail_bb), (buf, ok_bb)], "res");
            proof {
                if crate::ast::exprs_lambda_free(args@) {
                    crate::ir::lemma_keeps_settled(old(self).log, sb);
                    crate::ir::lemma_split_settled(old(self).log, sb, sn, sf, sfe, so, soe, sm, self.log, ok_bb, fail_bb, merge_bb);
                    crate::ir::lemma_keeps_settled(old(self).log, self.log);
                }
            }
            Ok(Some(v))
        } else if str_eq(name, "System__cwd") {
            let getcwd = self.libc(LibcFn::Getcwd);
            let malloc = self.libc(LibcFn::Malloc);
            let size = self.log.const_int(LlvmType::I64, 1024, false);
            let buf = self.log.call(malloc, vec![size], "buf");
            self.log.call(getcwd, vec![buf, size], "cwd");
            Ok(Some(buf))
        } else if str_eq(name, "System__os") {
            let os = match self.host {
                HostOs::Windows => "windows",
                HostOs::MacOs => "macos",
                HostOs::Linux => "linux",
                HostOs::Other => "unknown",
            };
            let global_name = self.fresh_name("str.os.")?;
            Ok(Some(self.string_global(global_name.as_str(), os, false)))
        } else if str_eq(name, "Args__count") {
            let argc = self.entry_global("_apex_argc")?;
            let v = self.log.load(LlvmType::I32, argc, "argc");
            Ok(Some(self.to_i64(v, "argc64")))
        } else if str_eq(name, "Args__get") {
            Ok(Some(self.compile_args_get(args)?))
        } else {
            Ok(None)
        }
    }

    /// `Time.sleep(ms)`: `ms` must be an integer and no negative constant;
    /// at run time a negative `ms` stops the program with an error, else
    /// the thread sleeps `ms` milliseconds. The value is `i8 0`.
    #[verifier::spinoff_prover]
    fn compile_sleep(&mut self, args: &Vec<Expr>) -> (r: Result<usize, CodegenError>)
        requires
            old(self).wf(),
        ensures
            r is Ok && crate::ast::exprs_lambda_free(args@) ==> crate::ir::keeps_settled(old(self).log, final(self).log),
            keeps_tables(*old(self), *final(self)),
            r matches Ok(v) ==> v < final(self).log.ops_view().len(),
            args.len() == 0 ==> (r matches Err(e) && e.message@ == "Missing arguments for "@ + "Time__sleep"@),
            args.len() >= 1 && number_literal_kind(args@[0]) == Some(true) && old(self).state.strings_named() < u32::MAX
                ==> (r matches Err(e) && e.message@ == "Time.sleep(ms) requires Integer milliseconds"@),
            args.len() >= 1 && (args@[0] matches Expr::Literal(Literal::Integer(n)) && n < 0) && old(self).state.strings_named() < u32::MAX
                ==> (r matches Err(e) && e.message@ == "Time.sleep() milliseconds must be non-negative"@),
            r is Ok ==> exists|x: usize, k: int| #[trigger] checks_before(old(self).log, final(self).log, x, IntPredicate::Slt, k),
        decreases args, 6int,
    {
        let ms = self.arg_value(args, 0, "Time__sleep")?;
        if self.number_kind(ms) != Some(false) {
            return Err(error("Time.sleep(ms) requires Integer milliseconds"));
        }
        if is_negative_int_constant(&args[0]) {
            return Err(error("Time.sleep() milliseconds must be non-negative"));
        }
        let zero = self.log.const_int(LlvmType::I64, 0, false);
        let ghost l_zero = self.log;
        let negative = self.log.int_compare(IntPredicate::Slt, ms, zero, "time_sleep_negative");
        let ghost l_neg = self.log;
        self.emit_check(negative, true, "Time.sleep", "time_sleep_invalid", "time_sleep_valid", "time_sleep_negative_runtime_error", "Time.sleep() milliseconds must be non-negative\n")?;
        let ghost l_checked = self.log;
        proof {
            let k = choose|k: int| l_neg.ops_view().len() <= k < l_checked.ops_view().len()
                && (#[trigger] l_checked.ops_view()[k] matches Op::CondBranch { cond, then_block: _, else_block: _ } && cond == negative);
            assert(l_checked.ops_view()[negative as int] == l_neg.ops_view()[negative as int]);
            assert(l_checked.ops_view()[zero as int] == l_zero.ops_view()[zero as int]);
            assert(checks_before(old(self).log, l_checked, ms, IntPredicate::Slt, k));
        }
        if self.windows() {
            let sleep = self.libc(LibcFn::SleepWin);
            let ms32 = self.log.cast(CastOp::Truncate, ms, LlvmType::I32, "ms32");
            self.log.call(sleep, vec![ms32], "");
        } else {
            let usleep = self.libc(LibcFn::Usleep);
            let thousand = self.log.const_int(LlvmType::I64, 1000, false);
            let us = self.log.arith(ArithOp::IntMul, ms, thousand, "us");
            let us32 = self.log.cast(CastOp::Truncate, us, LlvmType::I32, "us32");
            self.log.call(usleep, vec![us32], "");
        }
        let done = self.int_const(LlvmType::I8, 0);
        proof {
            let k = choose|k: int| #[trigger] checks_before(old(self).log, l_checked, ms, IntPredicate::Slt, k);
            lemma_checks_before_kept(old(self).log, l_checked, self.log, ms, IntPredicate::Slt, k);
        }
        Ok(done)
    }

    /// Branches twice on the index `index` (an `i64`): where it is negative
    /// the program stops with an error, then where it is not below `bound`;
    /// otherwise code continues in `args_get_ok`.
    fn check_arg_index(&mut self, index: usize, bound: usize) -> (r: Result<(), CodegenError>)
        requires
            old(self).wf(),
        ensures
            r is Ok ==> crate::ir::keeps_settled(old(self).log, final(self).log),
            keeps_tables(*old(self), *final(self)),
            r is Ok ==> exists|k: int| #[trigger] checks_before(old(self).log, final(self).log, index, IntPredicate::Sge, k),
            r is Ok ==> exists|k: int| #[trigger] bounded_at(old(self).log, final(self).log, index, bound, k),
    {
        let zero = self.log.const_int(LlvmType::I64, 0, false);
        let ghost l_zero = self.log;
        let non_negative = self.log.int_compare(IntPredicate::Sge, index, zero, "args_get_non_negative");
        let ghost l_nn = self.log;
        self.emit_check(non_negative, false, "Args.get", "args_get_negative", "args_get_bounds_check", "args_get_negative_runtime_error", "Args.get() index cannot be negative\n")?;
        let ghost l_c1 = self.log;
        proof {
            let k1 = choose|k: int| l_nn.ops_view().len() <= k < l_c1.ops_view().len()
                && (#[trigger] l_c1.ops_view()[k] matches Op::CondBranch { cond, then_block: _, else_block: _ } && cond == non_negative);
            assert(l_c1.ops_view()[non_negative as int] == l_nn.ops_view()[non_negative as int]);
            assert(l_c1.ops_view()[zero as int] == l_zero.ops_view()[zero as int]);
            assert(checks_before(old(self).log, l_c1, index, IntPredicate::Sge, k1));
        }
        let in_bounds = self.log.int_compare(IntPredicate::Slt, index, bound, "args_get_in_bounds");
        let ghost l_ib = self.log;
        self.emit_check(in_bounds, false, "Args.get", "args_get_oob", "args_get_ok", "args_get_oob_runtime_error", "Args.get() index out of bounds\n")?;
        proof {
            let fin = self.log;
            let k1 = choose|k: int| #[trigger] checks_before(old(self).log, l_c1, index, IntPredicate::Sge, k);
            lemma_checks_before_kept(old(self).log, l_c1, fin, index, IntPredicate::Sge, k1);
            let k2 = choose|k: int| l_ib.ops_view().len() <= k < fin.ops_view().len()
                && (#[trigger] fin.ops_view()[k] matches Op::CondBranch { cond, then_block: _, else_block: _ } && cond == in_bounds);
            assert(fin.ops_view()[in_bounds as int] == l_ib.ops_view()[in_bounds as int]);
            assert(bounded_at(old(self).log, fin, index, bound, k2));
        }
        Ok(())
    }

    /// `Args.get(i)`: `i` must be an integer and no negative constant; at
    /// run time a negative `i`, or one not below `argc`, stops the program
    /// with an error, else the value is `argv[i]`.
    #[verifier::spinoff_prover]
    #[verifier::rlimit(100)]
    fn compile_args_get(&mut self, args: &Vec<Expr>) -> (r: Result<usize, CodegenError>)
        requires
            old(self).wf(),
        ensures
            r is Ok && crate::ast::exprs_lambda_free(args@) ==> crate::ir::keeps_settled(old(self).log, final(self).log),
            keeps_tables(*old(self), *final(self)),
            r matches Ok(v) ==> v < final(self).log.ops_view().len(),
            args.len() == 0 ==> (r matches Err(e) && e.message@ == "Missing arguments for "@ + "Args__get"@),
            args.len() >= 1 && number_literal_kind(args@[0]) == Some(true) && old(self).state.strings_named() < u32::MAX
                ==> (r matches Err(e) && e.message@ == "Args.get() requires Integer index"@),
            args.len() >= 1 && (args@[0] matches Expr::Literal(Literal::Integer(n)) && n < 0) && old(self).state.strings_named() < u32::MAX
                ==> (r matches Err(e) && e.message@ == "Args.get() index cannot be negative"@),
            r matches Ok(v) ==> args_get_lowered(old(self).log, final(self).log, v),
        decreases args, 6int,
    {
        let index = self.arg_value(args, 0, "Args__get")?;
        if self.number_kind(index) != Some(false) {
            return Err(error("Args.get() requires Integer index"));
        }
        if is_negative_int_constant(&args[0]) {
            return Err(error("Args.get() index cannot be negative"));
        }
        let argc_global = self.entry_global("_apex_argc")?;
        let argv_global = self.entry_global("_apex_argv")?;
        let argc = self.log.load(LlvmType::I32, argc_global, "argc");
        let argc64 = self.log.cast(CastOp::SignExtend, argc, LlvmType::I64, "argc64");
        let ghost l_cast = self.log;
        let argv = self.log.load(LlvmType::Ptr, argv_global, "argv");
        let ghost l_pre = self.log;
        self.check_arg_index(index, argc64)?;
        let ghost l_checked = self.log;
        let p = self.log.gep(LlvmType::Ptr, argv, vec![index], "arg_ptr");
        let ghost l_p = self.log;
        let v = self.log.load(LlvmType::Ptr, p, "arg");
        proof {
            let fin = self.log;
            assert forall|i: int| 0 <= i < l_checked.ops_view().len() implies #[trigger] fin.ops_view()[i] == l_checked.ops_view()[i] by {
                assert(l_p.ops_view()[i] == l_checked.ops_view()[i]);
            }
            let k1 = choose|k: int| #[trigger] checks_before(l_pre, l_checked, index, IntPredicate::Sge, k);
            lemma_checks_before_kept(l_pre, l_checked, fin, index, IntPredicate::Sge, k1);
            let k2 = choose|k: int| #[trigger] bounded_at(l_pre, l_checked, index, argc64, k);
            lemma_bounded_at_kept(l_pre, l_checked, fin, index, argc64, k2);
            assert(old(self).log.ops_view().len() <= l_pre.ops_view().len());
            assert(checks_before(old(self).log, fin, index, IntPredicate::Sge, k1));
            assert(bounded_at(old(self).log, fin, index, argc64, k2));
            assert(fin.ops_view()[argc64 as int] == l_cast.ops_view()[argc64 as int]);
            assert(fin.ops_view()[p as int] == l_p.ops_view()[p as int]);
            assert(args_get_lowered(old(self).log, fin, v));
        }
        Ok(v)
    }
}

} // verus!
