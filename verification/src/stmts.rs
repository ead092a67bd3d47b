//! Lowering of statements and of the control flow they build.

use vstd::prelude::*;
use crate::ast::{Type, Stmt, Expr, Pattern, Literal, MatchArm};
use crate::error::CodegenError;
use crate::codegen::{Codegen, error};
use crate::ir::{Op, InstrLog, settled, settled_but, position_set, lemma_settled_but_append, lemma_settled_but_segment, lemma_settled_but_close, lemma_settled_but_move, lemma_settled_but_done, lemma_settled_but_open};
use crate::layout::{LlvmType, llvm_type};
use crate::lowering::{ReturnPlan, plan_for};
use crate::matching::{plan_match, ArmTest, BindingSource};
use crate::text::str_eq;

verus! {

broadcast use vstd::std_specs::vec::group_vec_axioms;

/// `a` is a prefix of `b`: emitting only ever appends ops.
pub open spec fn prefix_of(a: Seq<Op>, b: Seq<Op>) -> bool {
    &&& a.len() <= b.len()
    &&& forall|i: int| 0 <= i < a.len() ==> #[trigger] b[i] == a[i]
}

/// Lowering left the declared functions and classes as they were and only
/// appended to what was emitted before.
pub open spec fn keeps_tables(before: Codegen, after: Codegen) -> bool {
    &&& after.wf()
    &&& after.state.fns() == before.state.fns()
    &&& after.state.class_map() == before.state.class_map()
    &&& prefix_of(before.log.ops_view(), after.log.ops_view())
}

/// The builder stands in a block named `name` that was added after
/// `before`: control continues there.
pub open spec fn continues_in(before: InstrLog, after: InstrLog, name: Seq<char>) -> bool {
    exists|b: usize|
        before.ops_view().len() <= b < after.ops_view().len()
        && after.position() == Some(b)
        && (#[trigger] after.ops_view()[b as int] matches Op::AppendBlock { function: _, name: n } && n@ == name)
}

/// What `return value` emits in the function `g` is emitting.
pub open spec fn return_plan_of(g: Codegen, value: Option<Expr>) -> ReturnPlan {
    crate::lowering::spec_return_plan(g.state.function() == Some(crate::layout::main_name()), g.state.return_type(), value)
}

/// A block with no statement, or no block at all.
pub open spec fn no_statements(b: Option<Vec<Stmt>>) -> bool {
    match b {
        Some(v) => v@.len() == 0,
        None => true,
    }
}

/// The generator can lower a constant condition inside a function: it
/// emits into a function and can still name a string constant.
pub open spec fn can_lower_constants(g: Codegen) -> bool {
    g.current_fn is Some && g.state.strings_named() < u32::MAX
}

/// The comparison that keeps a `for` loop over `iterable` going: `<=` for
/// an inclusive range, `<` otherwise.
pub open spec fn for_predicate(iterable: Expr) -> crate::lowering::IntPredicate {
    match iterable {
        Expr::Range { start: _, end: _, inclusive } => if inclusive {
            crate::lowering::IntPredicate::Sle
        } else {
            crate::lowering::IntPredicate::Slt
        },
        _ => crate::lowering::IntPredicate::Slt,
    }
}

/// Between `before` and `after` a counting loop was emitted: a stack slot
/// for the counter, a test that loads it and compares it by `pred`, and an
/// increment that loads it, adds the constant 1 and stores the sum back.
pub open spec fn counts_up(before: InstrLog, after: InstrLog, pred: crate::lowering::IntPredicate) -> bool {
    let ops = after.ops_view();
    exists|slot: int, test: int, inc: int| {
        &&& before.ops_view().len() <= slot < ops.len() && before.ops_view().len() <= test < ops.len()
        &&& before.ops_view().len() <= inc && inc + 1 < ops.len()
        &&& #[trigger] ops[slot] is Alloca
        &&& #[trigger] ops[test] matches Op::IntCompare { pred: p, lhs: l, rhs: _, name: _ } && p == pred
            && (ops[l as int] matches Op::Load { ty: _, ptr: q, name: _ } && q == slot)
        &&& #[trigger] ops[inc] matches Op::Arith { op, lhs: l2, rhs: one, name: _ } && op == crate::ir::ArithOp::IntAdd
            && (ops[l2 as int] matches Op::Load { ty: _, ptr: q, name: _ } && q == slot)
            && ops[one as int] == (Op::ConstInt { ty: LlvmType::I64, value: 1, signed: false })
        &&& ops[inc + 1] == (Op::Store { ptr: slot as usize, value: inc as usize })
    }
}

/// Between `before` and `after` a loop pass was begun by storing the value
/// loaded from one stack slot (the counter) into another (the loop
/// variable's).
pub open spec fn binds_counter(before: InstrLog, after: InstrLog) -> bool {
    let ops = after.ops_view();
    exists|k: int| before.ops_view().len() <= k < ops.len()
        && (#[trigger] ops[k] matches Op::Store { ptr: vs, value: x }
        && ops[vs as int] is Alloca
        && (ops[x as int] matches Op::Load { ty: LlvmType::I64, ptr: c, name: _ } && ops[c as int] is Alloca && c != vs))
}

/// After lowering, variable `name` is bound as it was before: to the same
/// slot and type where it was bound, and not at all where it was not.
pub open spec fn restores_binding(before: Codegen, after: Codegen, name: Seq<char>) -> bool {
    &&& before.var_slots@.contains_key(name) && before.state.vars().contains_key(name) ==> {
        &&& after.var_slots@.contains_key(name) && after.var_slots@[name] == before.var_slots@[name]
        &&& after.state.vars().contains_key(name) && after.state.vars()[name] == before.state.vars()[name]
    }
    &&& !before.var_slots@.contains_key(name) ==> !after.var_slots@.contains_key(name) && !after.state.vars().contains_key(name)
}

/// Op `k` of `log`, added after `before`, branches on the value `c`: to a
/// new `then` block where `c` holds and to a different, new `else` block
/// where it does not; the op after it moves the builder into the `then`
/// block.
pub open spec fn if_branch_at(before: InstrLog, log: InstrLog, c: usize, k: int) -> bool {
    let ops = log.ops_view();
    &&& before.ops_view().len() <= k && k + 1 < ops.len()
    &&& ops[k] matches Op::CondBranch { cond, then_block: t, else_block: e } && cond == c
        && before.ops_view().len() <= t < k && before.ops_view().len() <= e < k && t != e
        && (ops[t as int] matches Op::AppendBlock { function: _, name: n } && n@ == "then"@)
        && (ops[e as int] matches Op::AppendBlock { function: _, name: n } && n@ == "else"@)
        && ops[k + 1] == (Op::PositionAtEnd { block: t })
}

/// Op `k` of `log`, added after `before`, branches on the value `c`: to a
/// new block named `on_true` where `c` holds and to a different, new block
/// named `on_false` where it does not; the op after it moves the builder
/// into the `on_true` block.
pub open spec fn cond_branch_at(before: InstrLog, log: InstrLog, c: usize, k: int, on_true: Seq<char>, on_false: Seq<char>) -> bool {
    let ops = log.ops_view();
    &&& before.ops_view().len() <= k && k + 1 < ops.len()
    &&& ops[k] matches Op::CondBranch { cond, then_block: t, else_block: e } && cond == c
        && before.ops_view().len() <= t < k && before.ops_view().len() <= e < k && t != e
        && (ops[t as int] matches Op::AppendBlock { function: _, name: n } && n@ == on_true)
        && (ops[e as int] matches Op::AppendBlock { function: _, name: n } && n@ == on_false)
        && ops[k + 1] == (Op::PositionAtEnd { block: t })
}

/// Appending to the log keeps a conditional branch.
pub proof fn lemma_cond_branch_kept(before: InstrLog, a: InstrLog, b: InstrLog, c: usize, k: int, on_true: Seq<char>, on_false: Seq<char>)
    requires
        prefix_of(a.ops_view(), b.ops_view()),
        cond_branch_at(before, a, c, k, on_true, on_false),
    ensures
        cond_branch_at(before, b, c, k, on_true, on_false),
{
    let ops = a.ops_view();
    let t = ops[k]->CondBranch_then_block;
    let e = ops[k]->CondBranch_else_block;
    assert(b.ops_view()[k] == ops[k]);
    assert(b.ops_view()[k + 1] == ops[k + 1]);
    assert(b.ops_view()[t as int] == ops[t as int]);
    assert(b.ops_view()[e as int] == ops[e as int]);
}

/// A `for` loop's test was emitted between `before` and `after`: a branch
/// into `for.body` where a comparison by `pred` holds and into `for.after`
/// where it does not.
pub open spec fn for_branch(before: InstrLog, after: InstrLog, pred: crate::lowering::IntPredicate) -> bool {
    exists|c: usize, k: int| #[trigger] cond_branch_at(before, after, c, k, "for.body"@, "for.after"@)
        && (after.ops_view()[c as int] matches Op::IntCompare { pred: p, lhs: _, rhs: _, name: _ } && p == pred)
}

/// A loop on `condition` was emitted between `before` and `after`: a
/// branch on the condition's value (see `condition_is`) into `on_true`
/// where it holds and `on_false` where it does not.
pub open spec fn branch_lowered(before: InstrLog, after: InstrLog, condition: Expr, on_true: Seq<char>, on_false: Seq<char>) -> bool {
    exists|c: usize, k: int| #[trigger] cond_branch_at(before, after, c, k, on_true, on_false) && condition_is(after, c, condition)
}

/// Value `c` of `log` is that of the condition `condition`: a literal is
/// the constant it denotes, and a comparison compares the values of its
/// operands in order, a literal operand being the constant it denotes.
pub open spec fn condition_is(log: InstrLog, c: usize, condition: Expr) -> bool {
    let ops = log.ops_view();
    &&& c < ops.len()
    &&& condition is Literal ==> crate::exprs::materialises(condition->Literal_0, ops[c as int])
    &&& condition matches Expr::Binary { op: _, left, right } ==> (ops[c as int] matches Op::IntCompare { pred: _, lhs, rhs, name: _ }
        ==> lhs < c && rhs < c
            && (*left is Literal ==> crate::exprs::materialises(left->Literal_0, ops[lhs as int]))
            && (*right is Literal ==> crate::exprs::materialises(right->Literal_0, ops[rhs as int])))
}

/// An `if` on `condition` was emitted between `before` and `after` (see
/// `if_branch_at` and `condition_is`).
pub open spec fn if_lowered(before: InstrLog, after: InstrLog, condition: Expr) -> bool {
    exists|c: usize, k: int| #[trigger] if_branch_at(before, after, c, k) && condition_is(after, c, condition)
}

/// Appending to the log keeps an `if` branch and what its condition is.
pub proof fn lemma_if_kept(before: InstrLog, a: InstrLog, b: InstrLog, c: usize, k: int, condition: Expr)
    requires
        prefix_of(a.ops_view(), b.ops_view()),
        condition_is(a, c, condition),
    ensures
        condition_is(b, c, condition),
        if_branch_at(before, a, c, k) ==> if_branch_at(before, b, c, k),
{
    let ops = a.ops_view();
    assert(b.ops_view()[c as int] == ops[c as int]);
    if condition is Binary {
        if let Op::IntCompare { pred: _, lhs, rhs, name: _ } = ops[c as int] {
            assert(b.ops_view()[lhs as int] == ops[lhs as int]);
            assert(b.ops_view()[rhs as int] == ops[rhs as int]);
        }
    }
    if if_branch_at(before, a, c, k) {
        let t = ops[k]->CondBranch_then_block;
        let e = ops[k]->CondBranch_else_block;
        assert(b.ops_view()[k] == ops[k]);
        assert(b.ops_view()[k + 1] == ops[k + 1]);
        assert(b.ops_view()[t as int] == ops[t as int]);
        assert(b.ops_view()[e as int] == ops[e as int]);
    }
}

/// Op `k` of `log`, added after `before`, enters a match arm exactly when
/// the value `val` equals the constant that `lit` denotes: a conditional
/// branch on an `Eq` comparison of `val` with that constant, whose true
/// target is a `match.arm` block and whose false target is a different,
/// `match.next` block.
pub open spec fn literal_test_at(before: InstrLog, log: InstrLog, lit: Literal, val: usize, k: int) -> bool {
    let ops = log.ops_view();
    &&& before.ops_view().len() <= k < ops.len()
    &&& ops[k] matches Op::CondBranch { cond: c, then_block: t, else_block: e } && c < k && t < k && e < k && t != e
        && (ops[t as int] matches Op::AppendBlock { function: _, name: n } && n@ == "match.arm"@)
        && (ops[e as int] matches Op::AppendBlock { function: _, name: n } && n@ == "match.next"@)
        && (ops[c as int] matches Op::IntCompare { pred: crate::lowering::IntPredicate::Eq, lhs: x, rhs: y, name: _ }
            && x == val && y < k && crate::exprs::materialises(lit, ops[y as int]))
}

/// Some op of `log` added after `before` is a test of `val` against `lit`
/// (see `literal_test_at`).
pub open spec fn literal_arm_tested(before: InstrLog, log: InstrLog, lit: Literal, val: usize) -> bool {
    exists|k: int| #[trigger] literal_test_at(before, log, lit, val, k)
}

/// Value `val` of `log` is the scrutinee `expr`: a literal scrutinee is
/// the constant it denotes.
pub open spec fn scrutinee_is(log: InstrLog, val: usize, expr: Expr) -> bool {
    val < log.ops_view().len() && (expr is Literal ==> crate::exprs::materialises(expr->Literal_0, log.ops_view()[val as int]))
}

/// Each literal arm of `arms` that the chain of tests reaches is entered
/// exactly when the scrutinee `expr` equals the arm's literal.
pub open spec fn literal_arms_tested(before: InstrLog, after: InstrLog, expr: Expr, arms: Seq<MatchArm>) -> bool {
    exists|val: usize| #[trigger] scrutinee_is(after, val, expr)
        && forall|j: int| 0 <= j < crate::matching::spec_planned_len(arms) && (#[trigger] arms[j]).pattern is Literal
            ==> literal_arm_tested(before, after, arms[j].pattern->Literal_0, val)
}

/// Op `k` of `log`, added after `before`, enters a match arm exactly when
/// the tag (field 0) of the value `val` is `tag`: a conditional branch on an
/// `Eq` comparison of that field with the `i8` constant `tag`, whose true
/// target is a `match.arm` block and whose false target is a different,
/// `match.next` block.
pub open spec fn tag_test_at(before: InstrLog, log: InstrLog, tag: u8, val: usize, k: int) -> bool {
    let ops = log.ops_view();
    &&& before.ops_view().len() <= k < ops.len()
    &&& ops[k] matches Op::CondBranch { cond: c, then_block: t, else_block: e } && c < k && t < k && e < k && t != e
        && (ops[t as int] matches Op::AppendBlock { function: _, name: n } && n@ == "match.arm"@)
        && (ops[e as int] matches Op::AppendBlock { function: _, name: n } && n@ == "match.next"@)
        && (ops[c as int] matches Op::IntCompare { pred: crate::lowering::IntPredicate::Eq, lhs: x, rhs: y, name: _ }
            && x < k && y < k
            && (ops[x as int] matches Op::ExtractValue { aggregate: a, index: i, name: _ } && a == val && i == 0)
            && ops[y as int] == (Op::ConstInt { ty: LlvmType::I8, value: tag as u64, signed: false }))
}

/// Some op of `log` added after `before` tests the tag of `val` against
/// `tag` (see `tag_test_at`).
pub open spec fn tag_arm_tested(before: InstrLog, log: InstrLog, tag: u8, val: usize) -> bool {
    exists|k: int| #[trigger] tag_test_at(before, log, tag, val, k)
}

/// Each variant arm (`Some`, `None`, `Ok`, `Error`) of `arms` that the
/// chain of tests reaches is entered exactly when the scrutinee's tag is
/// that variant's.
pub open spec fn tag_arms_tested(before: InstrLog, after: InstrLog, expr: Expr, arms: Seq<MatchArm>) -> bool {
    exists|val: usize| #[trigger] scrutinee_is(after, val, expr)
        && forall|j: int| 0 <= j < crate::matching::spec_planned_len(arms)
            ==> (crate::matching::spec_arm_plan((#[trigger] arms[j]).pattern).test matches ArmTest::TagEquals { tag }
            ==> tag_arm_tested(before, after, tag, val))
}

/// Appending to the log keeps the tag tests of the first `n` arms.
pub proof fn lemma_tag_arms_kept(before: InstrLog, a: InstrLog, b: InstrLog, arms: Seq<MatchArm>, val: usize, n: int)
    requires
        prefix_of(a.ops_view(), b.ops_view()),
        forall|j: int| 0 <= j < n ==> (crate::matching::spec_arm_plan((#[trigger] arms[j]).pattern).test matches ArmTest::TagEquals { tag }
            ==> tag_arm_tested(before, a, tag, val)),
    ensures
        forall|j: int| 0 <= j < n ==> (crate::matching::spec_arm_plan((#[trigger] arms[j]).pattern).test matches ArmTest::TagEquals { tag }
            ==> tag_arm_tested(before, b, tag, val)),
{
    assert forall|j: int| 0 <= j < n implies (crate::matching::spec_arm_plan((#[trigger] arms[j]).pattern).test matches ArmTest::TagEquals { tag }
        ==> tag_arm_tested(before, b, tag, val)) by {
        if let ArmTest::TagEquals { tag } = crate::matching::spec_arm_plan(arms[j].pattern).test {
            let k = choose|k: int| #[trigger] tag_test_at(before, a, tag, val, k);
            lemma_tag_test_kept(before, a, b, tag, val, k);
        }
    }
}

/// Appending to the log keeps a tag test.
pub proof fn lemma_tag_test_kept(before: InstrLog, a: InstrLog, b: InstrLog, tag: u8, val: usize, k: int)
    requires
        prefix_of(a.ops_view(), b.ops_view()),
        tag_test_at(before, a, tag, val, k),
    ensures
        tag_test_at(before, b, tag, val, k),
{
    let ops = a.ops_view();
    let c = ops[k]->CondBranch_cond;
    let t = ops[k]->CondBranch_then_block;
    let e = ops[k]->CondBranch_else_block;
    let x = ops[c as int]->IntCompare_lhs;
    let y = ops[c as int]->IntCompare_rhs;
    assert(b.ops_view()[k] == ops[k]);
    assert(b.ops_view()[c as int] == ops[c as int]);
    assert(b.ops_view()[t as int] == ops[t as int]);
    assert(b.ops_view()[e as int] == ops[e as int]);
    assert(b.ops_view()[x as int] == ops[x as int]);
    assert(b.ops_view()[y as int] == ops[y as int]);
}

/// Appending to the log keeps the literal tests of the first `n` arms.
pub proof fn lemma_literal_arms_kept(before: InstrLog, a: InstrLog, b: InstrLog, arms: Seq<MatchArm>, val: usize, expr: Expr, n: int)
    requires
        prefix_of(a.ops_view(), b.ops_view()),
        scrutinee_is(a, val, expr),
        forall|j: int| 0 <= j < n && (#[trigger] arms[j]).pattern is Literal ==> literal_arm_tested(before, a, arms[j].pattern->Literal_0, val),
    ensures
        scrutinee_is(b, val, expr),
        forall|j: int| 0 <= j < n && (#[trigger] arms[j]).pattern is Literal ==> literal_arm_tested(before, b, arms[j].pattern->Literal_0, val),
{
    assert(b.ops_view()[val as int] == a.ops_view()[val as int]);
    assert forall|j: int| 0 <= j < n && (#[trigger] arms[j]).pattern is Literal implies literal_arm_tested(before, b, arms[j].pattern->Literal_0, val) by {
        let lit = arms[j].pattern->Literal_0;
        let k = choose|k: int| #[trigger] literal_test_at(before, a, lit, val, k);
        let ops = a.ops_view();
        let c = ops[k]->CondBranch_cond;
        let t = ops[k]->CondBranch_then_block;
        let e = ops[k]->CondBranch_else_block;
        let y = ops[c as int]->IntCompare_rhs;
        assert(b.ops_view()[k] == ops[k]);
        assert(b.ops_view()[c as int] == ops[c as int]);
        assert(b.ops_view()[t as int] == ops[t as int]);
        assert(b.ops_view()[e as int] == ops[e as int]);
        assert(b.ops_view()[y as int] == ops[y as int]);
        assert(literal_test_at(before, b, lit, val, k));
    }
}

/// An `if` runs its `then` statements exactly where the condition holds:
/// what `compile_if` emits branches on the condition's value to a `then`
/// block when it is true and to a different `else` block when it is false,
/// and the builder moves into the `then` block right after the branch; a
/// comparison `a op b` of integer literals compares `a` with `b` in this
/// order.
pub proof fn law_if_takes_then_on_true(before: InstrLog, after: InstrLog, condition: Expr)
    requires
        if_lowered(before, after, condition),
    ensures
        exists|k: int| before.ops_view().len() <= k && k + 1 < after.ops_view().len()
            && (#[trigger] after.ops_view()[k] matches Op::CondBranch { cond: c, then_block: t, else_block: e } && t != e
            && (after.ops_view()[t as int] matches Op::AppendBlock { function: _, name: n } && n@ == "then"@)
            && (after.ops_view()[e as int] matches Op::AppendBlock { function: _, name: n } && n@ == "else"@)
            && after.ops_view()[k + 1] == (Op::PositionAtEnd { block: t })
            && (condition matches Expr::Binary { op: _, left, right }
                ==> (*left matches Expr::Literal(Literal::Integer(a)) ==> (*right matches Expr::Literal(Literal::Integer(b))
                ==> (after.ops_view()[c as int] matches Op::IntCompare { pred: _, lhs, rhs, name: _ }
                ==> after.ops_view()[lhs as int] == (Op::ConstInt { ty: LlvmType::I64, value: a as u64, signed: true })
                    && after.ops_view()[rhs as int] == (Op::ConstInt { ty: LlvmType::I64, value: b as u64, signed: true })))))),
{
    let (c, k) = choose|c: usize, k: int| #[trigger] if_branch_at(before, after, c, k) && condition_is(after, c, condition);
    assert(after.ops_view()[k] matches Op::CondBranch { cond, then_block: _, else_block: _ } && cond == c);
}

/// A literal arm of a `match` is entered exactly when the scrutinee equals
/// the arm's literal: for each integer-literal arm `n` that the chain of
/// tests reaches, what `compile_match_stmt` emits branches on an `==`
/// comparison of the scrutinee's value with the constant `n` to a
/// `match.arm` block when they are equal and to a different block when
/// they are not; for an integer-literal scrutinee `m`, that value is the
/// constant `m`.
pub proof fn law_literal_arm_entered_on_equality(before: InstrLog, after: InstrLog, expr: Expr, arms: Seq<MatchArm>, j: int, n: i64)
    requires
        literal_arms_tested(before, after, expr, arms),
        0 <= j < crate::matching::spec_planned_len(arms),
        arms[j].pattern == Pattern::Literal(Literal::Integer(n)),
    ensures
        exists|k: int| before.ops_view().len() <= k < after.ops_view().len()
            && (#[trigger] after.ops_view()[k] matches Op::CondBranch { cond: c, then_block: t, else_block: e } && t != e
            && (after.ops_view()[t as int] matches Op::AppendBlock { function: _, name: nm } && nm@ == "match.arm"@)
            && (after.ops_view()[c as int] matches Op::IntCompare { pred: crate::lowering::IntPredicate::Eq, lhs: x, rhs: y, name: _ }
                && after.ops_view()[y as int] == (Op::ConstInt { ty: LlvmType::I64, value: n as u64, signed: true })
                && (expr matches Expr::Literal(Literal::Integer(m)) ==> after.ops_view()[x as int] == (Op::ConstInt { ty: LlvmType::I64, value: m as u64, signed: true })))),
{
    let val = choose|val: usize| #[trigger] scrutinee_is(after, val, expr)
        && forall|i: int| 0 <= i < crate::matching::spec_planned_len(arms) && (#[trigger] arms[i]).pattern is Literal
            ==> literal_arm_tested(before, after, arms[i].pattern->Literal_0, val);
    assert(arms[j].pattern is Literal);
    let k = choose|k: int| #[trigger] literal_test_at(before, after, arms[j].pattern->Literal_0, val, k);
    assert(after.ops_view()[k] is CondBranch);
}

/// A block named `name` was added between `before` and `after`.
pub open spec fn emits_block(before: InstrLog, after: InstrLog, name: Seq<char>) -> bool {
    exists|k: int| before.ops_view().len() <= k < after.ops_view().len()
        && (#[trigger] after.ops_view()[k] matches Op::AppendBlock { function: _, name: n } && n@ == name)
}

/// A successful lowering yields an op recorded in the log.
pub open spec fn yields(after: Codegen, r: Result<usize, CodegenError>) -> bool {
    r matches Ok(v) ==> v < after.log.ops_view().len()
}

/// The names given to the tag test of a variant arm and to the value it
/// binds.
fn variant_names(v: &str) -> (r: (&'static str, &'static str))
    ensures
        v@ == "Some"@ ==> r.0@ == "is_some"@ && r.1@ == "inner"@,
        v@ != "Some"@ && v@ == "None"@ ==> r.0@ == "is_none"@ && r.1@ == "inner"@,
        v@ != "Some"@ && v@ != "None"@ && v@ == "Ok"@ ==> r.0@ == "is_ok"@ && r.1@ == "ok"@,
        v@ != "Some"@ && v@ != "None"@ && v@ != "Ok"@ ==> r.0@ == "is_error"@ && r.1@ == "err"@,
{
    if str_eq(v, "Some") {
        ("is_some", "inner")
    } else if str_eq(v, "None") {
        ("is_none", "inner")
    } else if str_eq(v, "Ok") {
        ("is_ok", "ok")
    } else {
        ("is_error", "err")
    }
}

impl Codegen {
    /// Lowers the statements of a block in order.
    pub fn compile_block(&mut self, stmts: &Vec<Stmt>) -> (r: Result<(), CodegenError>)
        requires
            old(self).wf(),
        ensures
            r is Ok && crate::ast::stmts_lambda_free(stmts@) ==> crate::ir::keeps_settled(old(self).log, final(self).log),
            keeps_tables(*old(self), *final(self)),
            stmts@.len() == 0 ==> r is Ok && *final(self) == *old(self),
            r is Ok && stmts@.len() > 0 && stmts@.last() is Return ==> !final(self).log.open_block(),
        decreases stmts, 5int,
    {
        proof {
            crate::ast::lemma_stmts_lambda_free(stmts@);
        }
        let mut i: usize = 0;
        while i < stmts.len()
            invariant
                i <= stmts@.len(),
                stmts@.len() == 0 ==> *self == *old(self),
                i > 0 && stmts@[i - 1] is Return ==> !self.log.open_block(),
                crate::ast::stmts_lambda_free(stmts@) <==> forall|k: int| 0 <= k < stmts@.len() ==> crate::ast::stmt_lambda_free(#[trigger] stmts@[k]),
                crate::ast::stmts_lambda_free(stmts@) ==> crate::ir::keeps_settled(old(self).log, self.log),
                keeps_tables(*old(self), *self),
            decreases stmts@.len() - i,
        {
            self.compile_stmt(&stmts[i])?;
            i = i + 1;
        }
        Ok(())
    }

    /// Lowers one statement. A `return`, and a `break` or `continue` inside a
    /// loop, end the block they stand in; `break` jumps to the innermost
    /// loop's exit and `continue` to its next iteration.
    pub fn compile_stmt(&mut self, s: &Stmt) -> (r: Result<(), CodegenError>)
        requires
            old(self).wf(),
        ensures
            r is Ok && crate::ast::stmt_lambda_free(*s) ==> crate::ir::keeps_settled(old(self).log, final(self).log),
            keeps_tables(*old(self), *final(self)),
            r is Ok && *s is Return ==> !final(self).log.open_block(),
            *s is Break && old(self).loops@.len() > 0 ==> {
                &&& !final(self).log.open_block()
                &&& final(self).log.ops_view() == old(self).log.ops_view().push(Op::Branch { target: old(self).loops@.last().1 })
            },
            *s is Continue && old(self).loops@.len() > 0 ==> {
                &&& !final(self).log.open_block()
                &&& final(self).log.ops_view() == old(self).log.ops_view().push(Op::Branch { target: old(self).loops@.last().0 })
            },
            s matches Stmt::Let { name, ty, value: _, mutable: _ } ==> r is Ok ==> {
                &&& final(self).state.vars().contains_key(name@) && final(self).state.vars()[name@] == ty@
                &&& final(self).var_slots@.contains_key(name@)
                &&& final(self).log.ops_view()[final(self).var_slots@[name@] as int] is Alloca
            },
            s matches Stmt::Return(value) ==> return_plan_of(*old(self), *value) == ReturnPlan::MainZero ==> {
                &&& r is Ok
                &&& final(self).log.ops_view() == old(self).log.ops_view()
                    .push(Op::ConstInt { ty: LlvmType::I32, value: 0, signed: false })
                    .push(Op::Return { value: Some(old(self).log.ops_view().len() as usize) })
            },
            s matches Stmt::Return(value) ==> return_plan_of(*old(self), *value) == ReturnPlan::TaskNone ==> {
                &&& r is Ok
                &&& final(self).log.ops_view() == old(self).log.ops_view()
                    .push(Op::ConstInt { ty: LlvmType::I8, value: 0, signed: false })
                    .push(Op::Return { value: Some(old(self).log.ops_view().len() as usize) })
            },
            s matches Stmt::Return(value) ==> return_plan_of(*old(self), *value) == ReturnPlan::Void ==> {
                &&& r is Ok
                &&& final(self).log.ops_view() == old(self).log.ops_view().push(Op::Return { value: None })
            },
        decreases s, 5int,
    {
        match s {
            Stmt::Let { name, ty, value, mutable: _ } => {
                let v = self.compile_expr(value)?;
                let slot = self.log.alloca(llvm_type(ty), name.as_str());
                self.log.store(slot, v);
                self.bind(name.as_str(), ty.duplicate(), slot);
                Ok(())
            },
            Stmt::Assign { target, value } => {
                let v = self.compile_expr(value)?;
                let ptr = self.compile_lvalue(target)?;
                self.log.store(ptr, v);
                Ok(())
            },
            Stmt::Expr(e) => {
                self.compile_expr(e)?;
                Ok(())
            },
            Stmt::Return(value) => {
                match self.state.plan_return(value) {
                    ReturnPlan::MainZero => {
                        let zero = self.int_const(LlvmType::I32, 0);
                        self.log.ret(Some(zero));
                    },
                    ReturnPlan::TaskNone => {
                        let zero = self.int_const(LlvmType::I8, 0);
                        self.log.ret(Some(zero));
                    },
                    ReturnPlan::Void => self.log.ret(None),
                    ReturnPlan::Value => match value {
                        Some(e) => {
                            let v = self.compile_expr(e)?;
                            self.log.ret(Some(v));
                        },
                        None => self.log.ret(None),
                    },
                }
                Ok(())
            },
            Stmt::If { .. } => self.compile_if(s),
            Stmt::While { .. } => self.compile_while(s),
            Stmt::For { .. } => self.compile_for(s),
            Stmt::Break => {
                match self.loops.break_target() {
                    Some(b) => {
                        let b = *b;
                        self.log.branch(b);
                    },
                    None => {},
                }
                Ok(())
            },
            Stmt::Continue => {
                match self.loops.continue_target() {
                    Some(b) => {
                        let b = *b;
                        self.log.branch(b);
                    },
                    None => {},
                }
                Ok(())
            },
            Stmt::Match { .. } => self.compile_match_stmt(s),
        }
    }

    /// Lowers `if cond { .. } else { .. }` into `then`, `else` and `merge`
    /// blocks; each branch falls through to `merge` unless it ends in a
    /// terminator.
    pub fn compile_if(&mut self, s: &Stmt) -> (r: Result<(), CodegenError>)
        requires
            old(self).wf(),
        ensures
            r is Ok && crate::ast::stmt_lambda_free(*s) ==> crate::ir::keeps_settled(old(self).log, final(self).log),
            keeps_tables(*old(self), *final(self)),
            r is Ok ==> continues_in(old(self).log, final(self).log, "merge"@),
            s matches Stmt::If { condition, then_block, else_block } ==> (crate::exprs::int_literal(*condition) && can_lower_constants(*old(self))
                && then_block@.len() == 0 && no_statements(*else_block) ==> r is Ok),
            s matches Stmt::If { condition, then_block: _, else_block: _ } ==> (r is Ok ==> if_lowered(old(self).log, final(self).log, *condition)),
        decreases s, 4int,
    {
        match s {
            Stmt::If { condition, then_block, else_block } => {
                let ghost s0 = self.log;
                let c = self.compile_expr(condition)?;
                let ghost s_c = self.log;
                let c = self.expect_int(c)?;
                proof {
                    assert(condition_is(s_c, c, *condition));
                }
                let f = self.function_for("if")?;
                let ghost s1 = self.log;
                let then_bb = self.log.append_block(f, "then");
                let ghost s2 = self.log;
                let else_bb = self.log.append_block(f, "else");
                let ghost s3 = self.log;
                let merge_bb = self.log.append_block(f, "merge");
                let ghost s4 = self.log;
                self.log.cond_branch(c, then_bb, else_bb);
                let ghost s5 = self.log;
                self.log.position_at_end(then_bb);
                let ghost s6 = self.log;
                proof {
                    let k = s4.ops_view().len() as int;
                    assert(s6.ops_view()[then_bb as int] == s2.ops_view()[then_bb as int]);
                    assert(s6.ops_view()[else_bb as int] == s3.ops_view()[else_bb as int]);
                    assert(s6.ops_view()[k] == s5.ops_view()[k]);
                    assert(if_branch_at(s0, s6, c, k));
                }
                self.compile_block(then_block)?;
                if self.log.needs_terminator() {
                    self.log.branch(merge_bb);
                }
                let ghost s8 = self.log;
                self.log.position_at_end(else_bb);
                let ghost s9 = self.log;
                match else_block {
                    Some(b) => self.compile_block(b)?,
                    None => {},
                }
                if self.log.needs_terminator() {
                    self.log.branch(merge_bb);
                }
                let ghost s11 = self.log;
                self.log.position_at_end(merge_bb);
                assert(self.log.ops_view()[merge_bb as int] == s4.ops_view()[merge_bb as int]);
                proof {
                    let k = s4.ops_view().len() as int;
                    lemma_if_kept(s0, s_c, s6, c, k, *condition);
                    lemma_if_kept(s0, s6, self.log, c, k, *condition);
                    assert(if_lowered(s0, self.log, *condition));
                }
                proof {
                    if crate::ast::stmt_lambda_free(*s) {
                        crate::ir::lemma_keeps_settled(s0, s1);
                        crate::ir::lemma_settled_but_start(s0, s1);
                        let p1 = crate::ir::position_set(s1);
                        crate::ir::lemma_settled_but_append(s0, s1, s2, p1, then_bb);
                        crate::ir::lemma_settled_but_append(s0, s2, s3, p1.insert(then_bb), else_bb);
                        crate::ir::lemma_settled_but_append(s0, s3, s4, p1.insert(then_bb).insert(else_bb), merge_bb);
                        let p4 = p1.insert(then_bb).insert(else_bb).insert(merge_bb);
                        crate::ir::lemma_steady_settled(s4, s5);
                        crate::ir::lemma_seal(s4, s5);
                        crate::ir::lemma_settled_but_seal(s0, s4, s5, p4);
                        let p5 = p4.difference(crate::ir::position_set(s4));
                        crate::ir::lemma_settled_but_move(s0, s5, s6, p5);
                        assert(crate::ir::keeps_settled(s6, s8));
                        crate::ir::lemma_keeps_settled(s6, s8);
                        crate::ir::lemma_seal(s6, s8);
                        crate::ir::lemma_settled_but_seal(s0, s6, s8, p5);
                        let p8 = p5.difference(crate::ir::position_set(s6));
                        crate::ir::lemma_settled_but_move(s0, s8, s9, p8);
                        assert(crate::ir::keeps_settled(s9, s11));
                        crate::ir::lemma_keeps_settled(s9, s11);
                        crate::ir::lemma_seal(s9, s11);
                        crate::ir::lemma_settled_but_seal(s0, s9, s11, p8);
                        let p11 = p8.difference(crate::ir::position_set(s9));
                        crate::ir::lemma_settled_but_move(s0, s11, self.log, p11);
                        assert(p11.subset_of(set![merge_bb]));
                        crate::ir::lemma_settled_but_done(s0, self.log, p11, merge_bb);
                        crate::ir::lemma_keeps_settled(s0, self.log);
                    }
                }
                Ok(())
            },
            _ => Err(error("Expected an if statement")),
        }
    }

    /// Lowers `while cond { .. }` into `while.cond`, `while.body` and
    /// `while.after` blocks; inside the body `continue` goes to the
    /// condition and `break` after the loop.
    pub fn compile_while(&mut self, s: &Stmt) -> (r: Result<(), CodegenError>)
        requires
            old(self).wf(),
        ensures
            r is Ok && crate::ast::stmt_lambda_free(*s) ==> crate::ir::keeps_settled(old(self).log, final(self).log),
            keeps_tables(*old(self), *final(self)),
            r is Ok ==> continues_in(old(self).log, final(self).log, "while.after"@),
            s matches Stmt::While { condition, body } ==> (crate::exprs::int_literal(*condition) && can_lower_constants(*old(self))
                && body@.len() == 0 ==> r is Ok),
            s matches Stmt::While { condition, body: _ } ==> (r is Ok ==> branch_lowered(old(self).log, final(self).log, *condition, "while.body"@, "while.after"@)),
        decreases s, 4int,
    {
        match s {
            Stmt::While { condition, body } => {
                let ghost s0 = self.log;
                let f = self.function_for("while")?;
                let cond_bb = self.log.append_block(f, "while.cond");
                let ghost s1 = self.log;
                let body_bb = self.log.append_block(f, "while.body");
                let ghost s2 = self.log;
                let after_bb = self.log.append_block(f, "while.after");
                let ghost s3 = self.log;
                self.log.branch(cond_bb);
                let ghost s4 = self.log;
                self.log.position_at_end(cond_bb);
                let ghost s5 = self.log;
                let c = self.compile_expr(condition)?;
                let ghost s_c = self.log;
                let c = self.expect_int(c)?;
                assert(condition_is(s_c, c, *condition));
                self.log.cond_branch(c, body_bb, after_bb);
                let ghost s7 = self.log;
                self.log.position_at_end(body_bb);
                let ghost s8 = self.log;
                proof {
                    let k = s_c.ops_view().len() as int;
                    assert(s8.ops_view()[body_bb as int] == s2.ops_view()[body_bb as int]);
                    assert(s8.ops_view()[after_bb as int] == s3.ops_view()[after_bb as int]);
                    assert(s8.ops_view()[k] == s7.ops_view()[k]);
                    assert(cond_branch_at(s0, s8, c, k, "while.body"@, "while.after"@));
                }
                self.loops.push(cond_bb, after_bb);
                self.compile_block(body)?;
                self.loops.pop();
                if self.log.needs_terminator() {
                    self.log.branch(cond_bb);
                }
                let ghost s10 = self.log;
                self.log.position_at_end(after_bb);
                assert(self.log.ops_view()[after_bb as int] == s3.ops_view()[after_bb as int]);
                proof {
                    let k = s_c.ops_view().len() as int;
                    lemma_if_kept(s0, s_c, self.log, c, k, *condition);
                    lemma_cond_branch_kept(s0, s8, self.log, c, k, "while.body"@, "while.after"@);
                    assert(branch_lowered(s0, self.log, *condition, "while.body"@, "while.after"@));
                }
                proof {
                    if crate::ast::stmt_lambda_free(*s) {
                        crate::ir::lemma_settled_but_refl(s0);
                        let p0 = crate::ir::position_set(s0);
                        crate::ir::lemma_settled_but_append(s0, s0, s1, p0, cond_bb);
                        crate::ir::lemma_settled_but_append(s0, s1, s2, p0.insert(cond_bb), body_bb);
                        crate::ir::lemma_settled_but_append(s0, s2, s3, p0.insert(cond_bb).insert(body_bb), after_bb);
                        let p3 = p0.insert(cond_bb).insert(body_bb).insert(after_bb);
                        crate::ir::lemma_settled_but_segment(s0, s3, s4, p3);
                        let p4 = p3.difference(crate::ir::position_set(s3));
                        crate::ir::lemma_settled_but_move(s0, s4, s5, p4);
                        crate::ir::lemma_settled_but_segment(s0, s5, s7, p4);
                        let p7 = p4.difference(crate::ir::position_set(s5));
                        crate::ir::lemma_settled_but_move(s0, s7, s8, p7);
                        crate::ir::lemma_settled_but_segment(s0, s8, s10, p7);
                        let p10 = p7.difference(crate::ir::position_set(s8));
                        crate::ir::lemma_settled_but_move(s0, s10, self.log, p10);
                        assert(p10.subset_of(set![after_bb]));
                        crate::ir::lemma_settled_but_done(s0, self.log, p10, after_bb);
                        crate::ir::lemma_keeps_settled(s0, self.log);
                    }
                }
                Ok(())
            },
            _ => Err(error("Expected a while statement")),
        }
    }

    /// Binds variable `name` again as it was (type `prev_ty`, slot
    /// `prev_slot`), or takes it out of scope where it was not bound.
    fn restore_binding(&mut self, name: &str, prev_ty: Option<Type>, prev_slot: Option<usize>)
        requires
            old(self).wf(),
            prev_slot matches Some(x) ==> x < old(self).log.ops_view().len(),
        ensures
            final(self).wf(),
            final(self).log == old(self).log,
            final(self).state.fns() == old(self).state.fns(),
            final(self).state.class_map() == old(self).state.class_map(),
            final(self).current_fn == old(self).current_fn,
            final(self).fn_slots == old(self).fn_slots,
            prev_ty matches Some(t) ==> (prev_slot matches Some(x) ==> {
                &&& final(self).var_slots@.contains_key(name@) && final(self).var_slots@[name@] == x
                &&& final(self).state.vars().contains_key(name@) && final(self).state.vars()[name@] == t@
            }),
            !(prev_ty is Some && prev_slot is Some) ==> !final(self).var_slots@.contains_key(name@) && !final(self).state.vars().contains_key(name@),
    {
        match (prev_ty, prev_slot) {
            (Some(t), Some(x)) => self.bind(name, t, x),
            _ => self.unbind(name),
        }
    }

    /// Lowers `for var in iterable { .. }`: a hidden counter runs from the
    /// start (0 by default) while the comparison with the end holds, and is
    /// incremented in `for.inc`, where `continue` goes. Over a range the
    /// variable takes the counter's value at the start of each pass; over a
    /// list (or a string) the counter runs up to its length and the
    /// variable takes the element (the character) the counter indexes.
    /// After the loop the variable is bound as it was before it.
    pub fn compile_for(&mut self, s: &Stmt) -> (r: Result<(), CodegenError>)
        requires
            old(self).wf(),
        ensures
            r is Ok && crate::ast::stmt_lambda_free(*s) ==> crate::ir::keeps_settled(old(self).log, final(self).log),
            keeps_tables(*old(self), *final(self)),
            r is Ok ==> continues_in(old(self).log, final(self).log, "for.after"@),
            s matches Stmt::For { var: _, var_type: _, iterable, body } ==> ((iterable matches Expr::Range { start: Some(a), end: Some(b), inclusive: _ }
                && crate::exprs::int_literal(**a) && crate::exprs::int_literal(**b)) && can_lower_constants(*old(self)) && body@.len() == 0 ==> r is Ok),
            s matches Stmt::For { var: _, var_type: _, iterable, body: _ } ==> (r is Ok ==> counts_up(old(self).log, final(self).log, for_predicate(*iterable))),
            s matches Stmt::For { var: _, var_type: _, iterable, body: _ } && iterable is Range ==> (r is Ok ==> binds_counter(old(self).log, final(self).log)),
            s matches Stmt::For { var: _, var_type: _, iterable, body: _ } ==> (r is Ok ==> for_branch(old(self).log, final(self).log, for_predicate(*iterable))),
            s is For && old(self).current_fn is None ==> (r matches Err(x) && x.message@ == "for loop used outside function"@ && *final(self) == *old(self)),
            s matches Stmt::For { var, var_type: _, iterable: _, body: _ } ==> (r is Ok ==> restores_binding(*old(self), *final(self), var@)),
        decreases s, 4int,
    {
        match s {
            Stmt::For { var, var_type: _, iterable: _, body: _ } => {
                let prev_slot: Option<usize> = match self.var_slots.get(var.as_str()) {
                    Some(x) => Some(*x),
                    None => None,
                };
                let prev_ty = self.var_type(var.as_str());
                self.compile_for_loop(s)?;
                self.restore_binding(var.as_str(), prev_ty, prev_slot);
                Ok(())
            },
            _ => self.compile_for_loop(s),
        }
    }

    /// Emits the blocks of a counting loop over the counter slot `counter`
    /// (up to `end`, compared by `pred`), storing into the variable's slot
    /// `slot` at the start of each pass the counter or, where `items` gives
    /// a list's storage (or a string), the element (the character) it
    /// indexes; the builder ends in `for.after`.
    #[verifier::spinoff_prover]
    #[verifier::rlimit(100)]
    fn emit_for_loop(&mut self, f: usize, counter: usize, end: usize, slot: usize, items: Option<(usize, bool)>,
        pred: crate::lowering::IntPredicate, var: &str, body: &Vec<Stmt>, Ghost(start): Ghost<InstrLog>) -> (r: Result<(), CodegenError>)
        requires
            old(self).wf(),
            prefix_of(start.ops_view(), old(self).log.ops_view()),
            start.ops_view().len() <= counter < old(self).log.ops_view().len(),
            old(self).log.ops_view()[counter as int] is Alloca,
            slot < old(self).log.ops_view().len(),
            old(self).log.ops_view()[slot as int] is Alloca,
            slot != counter,
        ensures
            r is Ok && crate::ast::stmts_lambda_free(body@) ==> crate::ir::keeps_settled(old(self).log, final(self).log),
            keeps_tables(*old(self), *final(self)),
            body@.len() == 0 ==> r is Ok,
            r is Ok ==> continues_in(start, final(self).log, "for.after"@),
            r is Ok ==> counts_up(start, final(self).log, pred),
            r is Ok ==> for_branch(start, final(self).log, pred),
            r is Ok && items is None ==> binds_counter(start, final(self).log),
        decreases body, 6int,
    {
        let ghost l_counter = self.log;
        let ghost s0 = self.log;
        let cond_bb = self.log.append_block(f, "for.cond");
        let ghost s1 = self.log;
        let body_bb = self.log.append_block(f, "for.body");
        let ghost s2 = self.log;
        let inc_bb = self.log.append_block(f, "for.inc");
        let ghost s3 = self.log;
        let after_bb = self.log.append_block(f, "for.after");
        let ghost s4 = self.log;
        self.log.branch(cond_bb);
        let ghost s5 = self.log;
        self.log.position_at_end(cond_bb);
        let ghost s6 = self.log;
        let current = self.log.load(LlvmType::I64, counter, "for.idx");
        let c = self.log.int_compare(pred, current, end, "cmp");
        let ghost l_test = self.log;
        let ghost first_load = current;
        self.log.cond_branch(c, body_bb, after_bb);
        let ghost s7 = self.log;
        self.log.position_at_end(body_bb);
        let ghost s8 = self.log;
        let ghost test_at = l_test.ops_view().len() as int;
        assert(cond_branch_at(start, s8, c, test_at, "for.body"@, "for.after"@)
            && (s8.ops_view()[c as int] matches Op::IntCompare { pred: p, lhs: _, rhs: _, name: _ } && p == pred)) by {
            assert(s8.ops_view()[body_bb as int] == s2.ops_view()[body_bb as int]);
            assert(s8.ops_view()[after_bb as int] == s4.ops_view()[after_bb as int]);
            assert(s8.ops_view()[test_at] == s7.ops_view()[test_at]);
            assert(s8.ops_view()[c as int] == l_test.ops_view()[c as int]);
        }
        let idx = self.log.load(LlvmType::I64, counter, "for.idx");
        let ghost bind_at: int = self.log.ops_view().len() as int;
        let ghost l_idx = self.log;
        match items {
            Some((base, true)) => {
                let p = self.log.gep(LlvmType::I8, base, vec![idx], "for.elem");
                let x = self.log.load(LlvmType::I8, p, var);
                self.log.store(slot, x);
            },
            Some((base, false)) => {
                let p = self.log.gep(LlvmType::I64, base, vec![idx], "for.elem");
                let x = self.log.load(LlvmType::I64, p, var);
                self.log.store(slot, x);
            },
            None => {
                self.log.store(slot, idx);
            },
        }
        let ghost l_bound = self.log;
        self.loops.push(inc_bb, after_bb);
        self.compile_block(body)?;
        self.loops.pop();
        if self.log.needs_terminator() {
            self.log.branch(inc_bb);
        }
        let ghost s10 = self.log;
        self.log.position_at_end(inc_bb);
        let ghost s11 = self.log;
        let current = self.log.load(LlvmType::I64, counter, "for.idx");
        let one = self.log.const_int(LlvmType::I64, 1, false);
        let next = self.log.arith(crate::ir::ArithOp::IntAdd, current, one, "inc");
        self.log.store(counter, next);
        let ghost l_inc = self.log;
        self.log.branch(cond_bb);
        let ghost s12 = self.log;
        self.log.position_at_end(after_bb);
        assert(self.log.ops_view()[after_bb as int] == s4.ops_view()[after_bb as int]);
        proof {
            let fin = self.log;
            assert(fin.ops_view()[counter as int] == l_counter.ops_view()[counter as int]);
            if items is None {
                assert(fin.ops_view()[bind_at] == l_bound.ops_view()[bind_at]);
                assert(fin.ops_view()[idx as int] == l_idx.ops_view()[idx as int]);
                assert(fin.ops_view()[slot as int] == l_idx.ops_view()[slot as int]);
                assert(binds_counter(start, fin));
            }
            assert(fin.ops_view()[c as int] == l_test.ops_view()[c as int]);
            assert(fin.ops_view()[first_load as int] == l_test.ops_view()[first_load as int]);
            assert(fin.ops_view()[current as int] == l_inc.ops_view()[current as int]);
            assert(fin.ops_view()[next as int] == l_inc.ops_view()[next as int]);
            assert(fin.ops_view()[next + 1] == l_inc.ops_view()[next + 1]);
            assert(fin.ops_view()[one as int] == l_inc.ops_view()[one as int]);
            assert(fin.ops_view()[(next - 2) as int] == l_inc.ops_view()[(next - 2) as int]);
            assert(counts_up(start, fin, pred));
            assert(for_branch(start, fin, pred)) by {
                lemma_cond_branch_kept(start, s8, fin, c, test_at, "for.body"@, "for.after"@);
                assert(fin.ops_view()[c as int] == s8.ops_view()[c as int]);
            }
        }
        proof {
            if crate::ast::stmts_lambda_free(body@) {
                assert(crate::ir::keeps_settled(old(self).log, s0));
                crate::ir::lemma_keeps_settled(old(self).log, s0);
                crate::ir::lemma_settled_but_start(old(self).log, s0);
                let p0 = crate::ir::position_set(s0);
                crate::ir::lemma_settled_but_append(old(self).log, s0, s1, p0, cond_bb);
                crate::ir::lemma_settled_but_append(old(self).log, s1, s2, p0.insert(cond_bb), body_bb);
                crate::ir::lemma_settled_but_append(old(self).log, s2, s3, p0.insert(cond_bb).insert(body_bb), inc_bb);
                crate::ir::lemma_settled_but_append(old(self).log, s3, s4, p0.insert(cond_bb).insert(body_bb).insert(inc_bb), after_bb);
                let p4 = p0.insert(cond_bb).insert(body_bb).insert(inc_bb).insert(after_bb);
                crate::ir::lemma_settled_but_segment(old(self).log, s4, s5, p4);
                let p5 = p4.difference(crate::ir::position_set(s4));
                crate::ir::lemma_settled_but_move(old(self).log, s5, s6, p5);
                crate::ir::lemma_settled_but_segment(old(self).log, s6, s7, p5);
                let p7 = p5.difference(crate::ir::position_set(s6));
                crate::ir::lemma_settled_but_move(old(self).log, s7, s8, p7);
                crate::ir::lemma_settled_but_segment(old(self).log, s8, s10, p7);
                let p10 = p7.difference(crate::ir::position_set(s8));
                crate::ir::lemma_settled_but_move(old(self).log, s10, s11, p10);
                crate::ir::lemma_settled_but_segment(old(self).log, s11, s12, p10);
                let p12 = p10.difference(crate::ir::position_set(s11));
                crate::ir::lemma_settled_but_move(old(self).log, s12, self.log, p12);
                assert(p12.subset_of(set![after_bb]));
                crate::ir::lemma_settled_but_done(old(self).log, self.log, p12, after_bb);
                crate::ir::lemma_keeps_settled(old(self).log, self.log);
            }
        }
        Ok(())
    }

    /// The loop of `compile_for`, leaving the loop variable bound.
    #[verifier::spinoff_prover]
    #[verifier::rlimit(100)]
    fn compile_for_loop(&mut self, s: &Stmt) -> (r: Result<(), CodegenError>)
        requires
            old(self).wf(),
        ensures
            r is Ok && crate::ast::stmt_lambda_free(*s) ==> crate::ir::keeps_settled(old(self).log, final(self).log),
            keeps_tables(*old(self), *final(self)),
            r is Ok ==> continues_in(old(self).log, final(self).log, "for.after"@),
            s matches Stmt::For { var: _, var_type: _, iterable, body } ==> ((iterable matches Expr::Range { start: Some(a), end: Some(b), inclusive: _ }
                && crate::exprs::int_literal(**a) && crate::exprs::int_literal(**b)) && can_lower_constants(*old(self)) && body@.len() == 0 ==> r is Ok),
            s matches Stmt::For { var: _, var_type: _, iterable, body: _ } ==> (r is Ok ==> counts_up(old(self).log, final(self).log, for_predicate(*iterable))),
            s matches Stmt::For { var: _, var_type: _, iterable, body: _ } && iterable is Range ==> (r is Ok ==> binds_counter(old(self).log, final(self).log)),
            s matches Stmt::For { var: _, var_type: _, iterable, body: _ } ==> (r is Ok ==> for_branch(old(self).log, final(self).log, for_predicate(*iterable))),
            s is For && old(self).current_fn is None ==> (r matches Err(x) && x.message@ == "for loop used outside function"@ && *final(self) == *old(self)),
        decreases s, 3int,
    {
        match s {
            Stmt::For { var, var_type, iterable, body } => {
                let f = match self.current_fn {
                    Some(f) => f,
                    None => return Err(error("for loop used outside function")),
                };
                let plan = plan_for(var_type, iterable);
                let counter = self.log.alloca(LlvmType::I64, "for.idx");
                let ghost l_counter = self.log;
                let mut items: Option<(usize, bool)> = None;
                let mut start = self.log.const_int(LlvmType::I64, 0, false);
                let mut end = self.log.const_int(LlvmType::I64, 0, false);
                match iterable {
                    Expr::Range { start: s0, end: e0, inclusive: _ } => {
                        match s0 {
                            Some(x) => {
                                start = self.compile_expr(x)?;
                            },
                            None => {},
                        }
                        match e0 {
                            Some(x) => {
                                end = self.compile_expr(x)?;
                            },
                            None => {},
                        }
                    },
                    _ => {
                        let v = self.compile_expr(iterable)?;
                        if self.log.is_int_value(v) {
                            end = v;
                        } else if self.log.is_pointer_value(v) {
                            let strlen = self.libc(crate::externs::LibcFn::Strlen);
                            end = self.log.call(strlen, vec![v], "for.len");
                            items = Some((v, true));
                        } else {
                            let n = self.extract(v, 1, "for.len")?;
                            let data = self.extract(v, 2, "for.data")?;
                            end = n;
                            items = Some((data, false));
                        }
                    },
                }
                let end = self.expect_int(end)?;
                let var_ty = match (items, var_type) {
                    (Some((_, true)), None) => Type::Char,
                    _ => plan.var_type,
                };
                let slot = self.log.alloca(llvm_type(&var_ty), var.as_str());
                self.log.store(counter, start);
                self.bind(var.as_str(), var_ty, slot);
                let ghost mid = self.log;
                proof {
                    assert(prefix_of(old(self).log.ops_view(), mid.ops_view()));
                    assert(old(self).log.ops_view().len() <= counter);
                }
                self.emit_for_loop(f, counter, end, slot, items, plan.keep_going, var.as_str(), body, Ghost(old(self).log))?;
                proof {
                    if crate::ast::stmt_lambda_free(*s) {
                        assert(crate::ast::stmts_lambda_free(body@));
                        crate::ir::lemma_keeps_settled(old(self).log, mid);
                        crate::ir::lemma_keeps_settled(mid, self.log);
                        crate::ir::lemma_settled_trans(old(self).log, mid, self.log);
                        crate::ir::lemma_keeps_settled(old(self).log, self.log);
                    }
                }
                Ok(())
            },
            _ => Err(error("Expected a for statement")),
        }
    }

    /// Appends a `match.merge` block and branches to it the block the builder
    /// stands in (when `close_current`) and every block in `blocks`, each
    /// where it lacks a terminator; the builder continues in `match.merge`.
    fn merge_arms(&mut self, f: usize, blocks: &Vec<usize>, close_current: bool, Ghost(track): Ghost<bool>, Ghost(start): Ghost<InstrLog>, Ghost(pending): Ghost<Set<usize>>)
        requires
            old(self).wf(),
            track ==> settled_but(start, old(self).log, pending),
            track ==> pending.subset_of(position_set(old(self).log).union(blocks@.to_set())),
            track && !close_current ==> pending.subset_of(blocks@.to_set()),
            track && close_current ==> position_set(old(self).log).subset_of(pending),
            track ==> forall|k: int| 0 <= k < blocks@.len() ==> !start.flags().contains_key(#[trigger] blocks@[k]) || start.position() == Some(blocks@[k]),
            forall|k: int| 0 <= k < blocks@.len() ==> #[trigger] blocks@[k] < old(self).log.ops_view().len() && old(self).log.ops_view()[blocks@[k] as int] is AppendBlock,
        ensures
            keeps_tables(*old(self), *final(self)),
            final(self).state == old(self).state,
            track ==> settled(start, final(self).log),
            continues_in(old(self).log, final(self).log, "match.merge"@),
    {
        let merge_bb = self.log.append_block(f, "match.merge");
        let ghost appended_merge = self.log;
        proof {
            if track {
                lemma_settled_but_append(start, old(self).log, self.log, pending, merge_bb);
            }
        }
        let ghost mut left = pending.insert(merge_bb);
        if close_current {
            let ghost before = self.log;
            if self.log.needs_terminator() {
                self.log.branch(merge_bb);
                proof {
                    if track {
                        lemma_settled_but_segment(start, before, self.log, left);
                    }
                }
            } else {
                proof {
                    if track {
                        lemma_settled_but_close(start, self.log, left);
                    }
                }
            }
            proof {
                left = left.difference(position_set(before));
            }
        }
        assert(track ==> forall|q: usize| #[trigger] left.contains(q) ==> q == merge_bb || blocks@.contains(q));
        let mut i: usize = 0;
        while i < blocks.len()
            invariant
                keeps_tables(*old(self), *self),
                self.state == old(self).state,
                i <= blocks@.len(),
                track ==> settled_but(start, self.log, left),
                track ==> forall|q: usize| #[trigger] left.contains(q) ==> q == merge_bb || exists|k: int| i <= k < blocks@.len() && blocks@[k] == q,
                track ==> forall|k: int| 0 <= k < blocks@.len() ==> !start.flags().contains_key(#[trigger] blocks@[k]) || start.position() == Some(blocks@[k]),
                forall|k: int| 0 <= k < blocks@.len() ==> #[trigger] blocks@[k] < self.log.ops_view().len() && self.log.ops_view()[blocks@[k] as int] is AppendBlock,
                merge_bb < self.log.ops_view().len() && self.log.ops_view()[merge_bb as int] == appended_merge.ops_view()[merge_bb as int],
                old(self).log.ops_view().len() <= merge_bb,
                appended_merge.ops_view()[merge_bb as int] is AppendBlock,
            decreases blocks@.len() - i,
        {
            let ghost pre = self.log;
            self.log.position_at_end(blocks[i]);
            let ghost before = self.log;
            proof {
                if track {
                    lemma_settled_but_move(start, pre, before, left);
                }
            }
            if self.log.needs_terminator() {
                self.log.branch(merge_bb);
                proof {
                    if track {
                        lemma_settled_but_segment(start, before, self.log, left);
                    }
                }
            } else {
                proof {
                    if track {
                        lemma_settled_but_close(start, self.log, left);
                    }
                }
            }
            proof {
                left = left.difference(position_set(before));
            }
            i = i + 1;
        }
        let ghost pre = self.log;
        self.log.position_at_end(merge_bb);
        assert(self.log.ops_view()[merge_bb as int] == appended_merge.ops_view()[merge_bb as int]);
        proof {
            if track {
                lemma_settled_but_move(start, pre, self.log, left);
                lemma_settled_but_done(start, self.log, left, merge_bb);
            }
        }
    }

    /// Lowers a `match` statement into a chain of tests, one block per arm;
    /// the first arm that always runs ends the chain. Arms that do not end
    /// in a terminator continue in a `match.merge` block created after all
    /// arm blocks.
    #[verifier::loop_isolation(false)]
    #[verifier::spinoff_prover]
    #[verifier::rlimit(100)]
    pub fn compile_match_stmt(&mut self, s: &Stmt) -> (r: Result<(), CodegenError>)
        requires
            old(self).wf(),
        ensures
            r is Ok && crate::ast::stmt_lambda_free(*s) ==> crate::ir::keeps_settled(old(self).log, final(self).log),
            keeps_tables(*old(self), *final(self)),
            r is Ok ==> continues_in(old(self).log, final(self).log, "match.merge"@),
            s matches Stmt::Match { expr, arms } ==> (crate::exprs::int_literal(*expr) && can_lower_constants(*old(self)) && arms@.len() == 0 ==> r is Ok),
            s matches Stmt::Match { expr: _, arms } ==> (r is Ok && arms@.len() > 0 ==> emits_block(old(self).log, final(self).log, "match.arm"@)),
            s matches Stmt::Match { expr, arms } ==> (r is Ok ==> literal_arms_tested(old(self).log, final(self).log, *expr, arms@)),
            s matches Stmt::Match { expr, arms } ==> (r is Ok ==> tag_arms_tested(old(self).log, final(self).log, *expr, arms@)),
        decreases s, 4int,
    {
        match s {
            Stmt::Match { expr, arms } => {
                let val = self.compile_expr(expr)?;
                assert(scrutinee_is(self.log, val, *expr));
                let f = match self.current_fn {
                    Some(f) => f,
                    None => return Err(error("match statement used outside function")),
                };
                let plans = plan_match(arms);
                let mut blocks: Vec<usize> = Vec::new();
                let ghost lf = crate::ast::stmt_lambda_free(*s);
                let ghost mut left = position_set(self.log);
                proof {
                    crate::ast::lemma_arms_lambda_free(arms@);
                    if lf {
                        crate::ir::lemma_keeps_settled(old(self).log, self.log);
                        crate::ir::lemma_settled_but_start(old(self).log, self.log);
                    }
                }
                let mut i: usize = 0;
                let ghost mut first_arm: int = 0;
                proof {
                    if arms@.len() > 0 {
                        assert(crate::matching::spec_planned_len(arms@) >= 1);
                    }
                }
                while i < plans.len()
                    invariant
                        arms@.len() > 0 ==> plans@.len() >= 1,
                        i > 0 ==> old(self).log.ops_view().len() <= first_arm < self.log.ops_view().len()
                            && (self.log.ops_view()[first_arm] matches Op::AppendBlock { function: _, name: n } && n@ == "match.arm"@),
                        keeps_tables(*old(self), *self),
                        plans@.len() <= arms@.len(),
                        lf ==> settled_but(old(self).log, self.log, left),
                        lf ==> left.subset_of(position_set(self.log).union(blocks@.to_set())),
                        lf ==> position_set(self.log).subset_of(left),
                        lf ==> forall|k: int| 0 <= k < blocks@.len() ==> !old(self).log.flags().contains_key(#[trigger] blocks@[k]) || old(self).log.position() == Some(blocks@[k]),
                        forall|k: int| 0 <= k < blocks@.len() ==> #[trigger] blocks@[k] < self.log.ops_view().len() && self.log.ops_view()[blocks@[k] as int] is AppendBlock,
                        scrutinee_is(self.log, val, *expr),
                        forall|j: int| 0 <= j < i && (#[trigger] arms@[j]).pattern is Literal ==> literal_arm_tested(old(self).log, self.log, arms@[j].pattern->Literal_0, val),
                        forall|j: int| 0 <= j < i ==> (crate::matching::spec_arm_plan((#[trigger] arms@[j]).pattern).test matches ArmTest::TagEquals { tag }
                            ==> tag_arm_tested(old(self).log, self.log, tag, val)),
                    decreases plans@.len() - i,
                {
                    let arm = &arms[i];
                    let plan = &plans[i];
                    let ghost s_i = self.log;
                    let ghost mut lit_log = self.log;
                    let ghost mut lit_k: int = 0;
                    let arm_bb = self.log.append_block(f, "match.arm");
                    let ghost s_arm = self.log;
                    proof {
                        if i == 0 {
                            first_arm = arm_bb as int;
                        }
                    }
                    proof {
                        if lf {
                            lemma_settled_but_append(old(self).log, s_i, s_arm, left, arm_bb);
                            left = left.insert(arm_bb);
                        }
                    }
                    match plan.test {
                        ArmTest::Always => {
                            self.log.branch(arm_bb);
                            let ghost s_br = self.log;
                            self.log.position_at_end(arm_bb);
                            let ghost s_in = self.log;
                            proof {
                                if lf {
                                    if let Some(p) = s_arm.position() {
                                        assert(position_set(s_i).contains(p));
                                        assert(left.contains(p));
                                    }
                                    lemma_settled_but_segment(old(self).log, s_arm, s_br, left);
                                    left = left.difference(position_set(s_arm));
                                    lemma_settled_but_move(old(self).log, s_br, s_in, left);
                                    assert(left.subset_of(blocks@.to_set().insert(arm_bb)));
                                }
                            }
                            match &plan.binding {
                                Some(b) => {
                                    let ty = self.type_of(val)?;
                                    let slot = self.log.alloca(ty, b.name.as_str());
                                    self.log.store(slot, val);
                                    self.bind(b.name.as_str(), b.ty.duplicate(), slot);
                                },
                                None => {},
                            }
                            self.compile_block(&arm.body)?;
                            let ghost s_body = self.log;
                            proof {
                                if lf {
                                    lemma_settled_but_open(old(self).log, s_in, s_body, left);
                                    left = left.difference(position_set(s_in)).union(position_set(s_body));
                                }
                            }
                            proof {
                                if lf {
                                    assert(left.subset_of(position_set(self.log).union(blocks@.to_set())));
                                }
                            }
                            if self.log.needs_terminator() {
                                let ghost old_blocks = blocks@;
                                match self.log.insert_block() {
                                    Some(b) => blocks.push(b),
                                    None => {},
                                }
                                proof {
                                    if lf {
                                        assert forall|q: usize| left.contains(q) implies #[trigger] blocks@.to_set().contains(q) by {
                                            if position_set(s_body).contains(q) {
                                                assert(blocks@[blocks@.len() - 1] == q);
                                            } else {
                                                assert(old_blocks.to_set().contains(q));
                                                let k = choose|k: int| 0 <= k < old_blocks.len() && old_blocks[k] == q;
                                                assert(blocks@[k] == q);
                                            }
                                        };
                                        assert forall|k: int| 0 <= k < blocks@.len() implies !old(self).log.flags().contains_key(#[trigger] blocks@[k]) || old(self).log.position() == Some(blocks@[k]) by {
                                            if k == blocks@.len() - 1 && k >= old_blocks.len() {
                                                assert(left.contains(blocks@[k]));
                                            } else {
                                                assert(blocks@[k] == old_blocks[k]);
                                            }
                                        };
                                    }
                                }
                            } else {
                                proof {
                                    if lf {
                                        lemma_settled_but_close(old(self).log, self.log, left);
                                        left = left.difference(position_set(s_body));
                                        assert(left.subset_of(blocks@.to_set()));
                                    }
                                }
                            }
                            self.merge_arms(f, &blocks, false, Ghost(lf), Ghost(old(self).log), Ghost(left));
                            assert(self.log.ops_view()[first_arm] == s_arm.ops_view()[first_arm]);
                            proof {
                                crate::matching::lemma_planned_len(arms@);
                                lemma_literal_arms_kept(old(self).log, s_i, self.log, arms@, val, *expr, i as int);
                                lemma_tag_arms_kept(old(self).log, s_i, self.log, arms@, val, i as int);
                                assert(i + 1 >= crate::matching::spec_planned_len(arms@));
                            }
                            proof {
                                if lf {
                                    crate::ir::lemma_keeps_settled(old(self).log, self.log);
                                }
                            }
                            return Ok(());
                        },
                        ArmTest::LiteralEquals => {
                            let next_bb = self.log.append_block(f, "match.next");
                            let ghost s_next = self.log;
                            proof {
                                if lf {
                                    lemma_settled_but_append(old(self).log, s_arm, s_next, left, next_bb);
                                    left = left.insert(next_bb);
                                }
                            }
                            let lit_val = match &arm.pattern {
                                Pattern::Literal(l) => self.compile_literal(l)?,
                                _ => return Err(error("Expected a literal pattern")),
                            };
                            let v = self.expect_int(val)?;
                            let lv = self.expect_int(lit_val)?;
                            let ghost l_lv = self.log;
                            let c = self.log.int_compare(crate::lowering::IntPredicate::Eq, v, lv, "cmp");
                            self.log.cond_branch(c, arm_bb, next_bb);
                            let ghost s_br = self.log;
                            proof {
                                let k = s_br.ops_view().len() - 1;
                                assert(s_br.ops_view()[arm_bb as int] == s_arm.ops_view()[arm_bb as int]);
                                assert(s_br.ops_view()[next_bb as int] == s_next.ops_view()[next_bb as int]);
                                assert(s_br.ops_view()[lv as int] == l_lv.ops_view()[lv as int]);
                                assert(literal_test_at(old(self).log, s_br, arms@[i as int].pattern->Literal_0, val, k));
                                lit_log = s_br;
                                lit_k = k;
                            }
                            self.log.position_at_end(arm_bb);
                            let ghost s_in = self.log;
                            proof {
                                if lf {
                                    if let Some(p) = s_next.position() {
                                        assert(position_set(s_i).contains(p));
                                        assert(left.contains(p));
                                    }
                                    lemma_settled_but_segment(old(self).log, s_next, s_br, left);
                                    left = left.difference(position_set(s_next));
                                    lemma_settled_but_move(old(self).log, s_br, s_in, left);
                                }
                            }
                            self.compile_block(&arm.body)?;
                            let ghost s_body = self.log;
                            proof {
                                if lf {
                                    lemma_settled_but_open(old(self).log, s_in, s_body, left);
                                    left = left.difference(position_set(s_in)).union(position_set(s_body));
                                }
                            }
                            proof {
                                if lf {
                                    s_i.lemma_flags_dom();
                                    crate::ir::lemma_keeps_settled(s_next, s_br);
                                    crate::ir::lemma_keeps_settled(s_in, s_body);
                                    assert(s_in.flags().contains_key(next_bb));
                                    assert(s_in.position() == Some(arm_bb));
                                    assert(!position_set(s_next).contains(next_bb));
                                    assert(!position_set(s_in).contains(next_bb));
                                    assert(!position_set(s_body).contains(next_bb));
                                    assert(left.contains(next_bb));
                                    assert(left.subset_of(position_set(s_body).union(blocks@.to_set()).insert(next_bb)));
                                }
                            }
                            let ghost old_blocks = blocks@;
                            if self.log.needs_terminator() {
                                match self.log.insert_block() {
                                    Some(b) => blocks.push(b),
                                    None => {},
                                }
                                proof {
                                    if lf {
                                        assert forall|q: usize| left.contains(q) implies #[trigger] blocks@.to_set().insert(next_bb).contains(q) by {
                                            if q != next_bb {
                                                if position_set(s_body).contains(q) {
                                                    assert(blocks@[blocks@.len() - 1] == q);
                                                } else {
                                                    assert(old_blocks.to_set().contains(q));
                                                    let k = choose|k: int| 0 <= k < old_blocks.len() && old_blocks[k] == q;
                                                    assert(blocks@[k] == q);
                                                }
                                            }
                                        };
                                        assert forall|k: int| 0 <= k < blocks@.len() implies !old(self).log.flags().contains_key(#[trigger] blocks@[k]) || old(self).log.position() == Some(blocks@[k]) by {
                                            if k == blocks@.len() - 1 && k >= old_blocks.len() {
                                                assert(left.contains(blocks@[k]));
                                            } else {
                                                assert(blocks@[k] == old_blocks[k]);
                                            }
                                        };
                                    }
                                }
                            } else {
                                proof {
                                    if lf {
                                        lemma_settled_but_close(old(self).log, self.log, left);
                                        left = left.difference(position_set(s_body));
                                        assert(left.contains(next_bb));
                                        assert(left.subset_of(blocks@.to_set().insert(next_bb)));
                                    }
                                }
                            }
                            let ghost s_end = self.log;
                            self.log.position_at_end(next_bb);
                            proof {
                                if lf {
                                    lemma_settled_but_move(old(self).log, s_end, self.log, left);
                                    assert(position_set(self.log) =~= set![next_bb]);
                                    assert(left.subset_of(blocks@.to_set().insert(next_bb)));
                                    assert(blocks@.to_set().insert(next_bb) =~= position_set(self.log).union(blocks@.to_set()));
                                }
                            }
                        },
                        ArmTest::TagEquals { tag } => {
                            let next_bb = self.log.append_block(f, "match.next");
                            let ghost s_next = self.log;
                            proof {
                                if lf {
                                    lemma_settled_but_append(old(self).log, s_arm, s_next, left, next_bb);
                                    left = left.insert(next_bb);
                                }
                            }
                            let (test_name, bind_name) = match &arm.pattern {
                                Pattern::Variant(v, _) => variant_names(v.as_str()),
                                _ => ("is_some", "inner"),
                            };
                            let t = self.extract(val, 0, "tag")?;
                            let ghost l_t = self.log;
                            let t = self.expect_int(t)?;
                            let want = self.int_const(LlvmType::I8, tag as u64);
                            let ghost l_want = self.log;
                            let c = self.log.int_compare(crate::lowering::IntPredicate::Eq, t, want, test_name);
                            self.log.cond_branch(c, arm_bb, next_bb);
                            let ghost s_br = self.log;
                            proof {
                                let k = s_br.ops_view().len() - 1;
                                assert(s_br.ops_view()[arm_bb as int] == s_arm.ops_view()[arm_bb as int]);
                                assert(s_br.ops_view()[next_bb as int] == s_next.ops_view()[next_bb as int]);
                                assert(s_br.ops_view()[t as int] == l_t.ops_view()[t as int]);
                                assert(s_br.ops_view()[want as int] == l_want.ops_view()[want as int]);
                                assert(tag_test_at(old(self).log, s_br, tag, val, k));
                                lit_log = s_br;
                                lit_k = k;
                            }
                            self.log.position_at_end(arm_bb);
                            let ghost s_in = self.log;
                            proof {
                                if lf {
                                    if let Some(p) = s_next.position() {
                                        assert(position_set(s_i).contains(p));
                                        assert(left.contains(p));
                                    }
                                    lemma_settled_but_segment(old(self).log, s_next, s_br, left);
                                    left = left.difference(position_set(s_next));
                                    lemma_settled_but_move(old(self).log, s_br, s_in, left);
                                }
                            }
                            match &plan.binding {
                                Some(b) => {
                                    let index: u32 = match b.source {
                                        BindingSource::Field(k) => k,
                                        BindingSource::Scrutinee => 0,
                                    };
                                    let inner = self.extract(val, index, bind_name)?;
                                    let ty = self.type_of(inner)?;
                                    let slot = self.log.alloca(ty, b.name.as_str());
                                    self.log.store(slot, inner);
                                    self.bind(b.name.as_str(), b.ty.duplicate(), slot);
                                },
                                None => {},
                            }
                            self.compile_block(&arm.body)?;
                            let ghost s_body = self.log;
                            proof {
                                if lf {
                                    lemma_settled_but_open(old(self).log, s_in, s_body, left);
                                    left = left.difference(position_set(s_in)).union(position_set(s_body));
                                }
                            }
                            proof {
                                if lf {
                                    s_i.lemma_flags_dom();
                                    crate::ir::lemma_keeps_settled(s_next, s_br);
                                    crate::ir::lemma_keeps_settled(s_in, s_body);
                                    assert(s_in.flags().contains_key(next_bb));
                                    assert(s_in.position() == Some(arm_bb));
                                    assert(!position_set(s_next).contains(next_bb));
                                    assert(!position_set(s_in).contains(next_bb));
                                    assert(!position_set(s_body).contains(next_bb));
                                    assert(left.contains(next_bb));
                                    assert(left.subset_of(position_set(s_body).union(blocks@.to_set()).insert(next_bb)));
                                }
                            }
                            let ghost old_blocks = blocks@;
                            if self.log.needs_terminator() {
                                match self.log.insert_block() {
                                    Some(b) => blocks.push(b),
                                    None => {},
                                }
                                proof {
                                    if lf {
                                        assert forall|q: usize| left.contains(q) implies #[trigger] blocks@.to_set().insert(next_bb).contains(q) by {
                                            if q != next_bb {
                                                if position_set(s_body).contains(q) {
                                                    assert(blocks@[blocks@.len() - 1] == q);
                                                } else {
                                                    assert(old_blocks.to_set().contains(q));
                                                    let k = choose|k: int| 0 <= k < old_blocks.len() && old_blocks[k] == q;
                                                    assert(blocks@[k] == q);
                                                }
                                            }
                                        };
                                        assert forall|k: int| 0 <= k < blocks@.len() implies !old(self).log.flags().contains_key(#[trigger] blocks@[k]) || old(self).log.position() == Some(blocks@[k]) by {
                                            if k == blocks@.len() - 1 && k >= old_blocks.len() {
                                                assert(left.contains(blocks@[k]));
                                            } else {
                                                assert(blocks@[k] == old_blocks[k]);
                                            }
                                        };
                                    }
                                }
                            } else {
                                proof {
                                    if lf {
                                        lemma_settled_but_close(old(self).log, self.log, left);
                                        left = left.difference(position_set(s_body));
                                        assert(left.contains(next_bb));
                                        assert(left.subset_of(blocks@.to_set().insert(next_bb)));
                                    }
                                }
                            }
                            let ghost s_end = self.log;
                            self.log.position_at_end(next_bb);
                            proof {
                                if lf {
                                    lemma_settled_but_move(old(self).log, s_end, self.log, left);
                                    assert(position_set(self.log) =~= set![next_bb]);
                                    assert(left.subset_of(blocks@.to_set().insert(next_bb)));
                                    assert(blocks@.to_set().insert(next_bb) =~= position_set(self.log).union(blocks@.to_set()));
                                }
                            }
                        },
                    }
                    proof {
                        lemma_literal_arms_kept(old(self).log, s_i, self.log, arms@, val, *expr, i as int);
                        if arms@[i as int].pattern is Literal {
                            let lit = arms@[i as int].pattern->Literal_0;
                            assert(literal_test_at(old(self).log, lit_log, lit, val, lit_k));
                            lemma_literal_arms_kept(old(self).log, lit_log, self.log, seq![arms@[i as int]], val, *expr, 1);
                            assert(seq![arms@[i as int]][0] == arms@[i as int]);
                            assert(literal_arm_tested(old(self).log, self.log, lit, val));
                        }
                        assert forall|j: int| 0 <= j < i + 1 && (#[trigger] arms@[j]).pattern is Literal implies literal_arm_tested(old(self).log, self.log, arms@[j].pattern->Literal_0, val) by {};
                        lemma_tag_arms_kept(old(self).log, s_i, self.log, arms@, val, i as int);
                        if let ArmTest::TagEquals { tag } = crate::matching::spec_arm_plan(arms@[i as int].pattern).test {
                            assert(plans@[i as int]@ == crate::matching::spec_arm_plan(arms@[i as int].pattern));
                            assert(tag_test_at(old(self).log, lit_log, tag, val, lit_k));
                            lemma_tag_test_kept(old(self).log, lit_log, self.log, tag, val, lit_k);
                        }
                        assert forall|j: int| 0 <= j < i + 1 implies (crate::matching::spec_arm_plan((#[trigger] arms@[j]).pattern).test matches ArmTest::TagEquals { tag }
                            ==> tag_arm_tested(old(self).log, self.log, tag, val)) by {};
                    }
                    i = i + 1;
                }
                let ghost before_merge = self.log;
                self.merge_arms(f, &blocks, true, Ghost(lf), Ghost(old(self).log), Ghost(left));
                proof {
                    if arms@.len() > 0 {
                        assert(self.log.ops_view()[first_arm] == before_merge.ops_view()[first_arm]);
                    }
                }
                proof {
                    if lf {
                        crate::ir::lemma_keeps_settled(old(self).log, self.log);
                    }
                    lemma_literal_arms_kept(old(self).log, before_merge, self.log, arms@, val, *expr, i as int);
                    lemma_tag_arms_kept(old(self).log, before_merge, self.log, arms@, val, i as int);
                }
                Ok(())
            },
            _ => Err(error("Expected a match statement")),
        }
    }
}

} // verus!
