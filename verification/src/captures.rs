//! Which variables of the enclosing scope a lambda body captures.
//!
//! A lambda captures each name that it reads, that is not one of its own
//! parameters (or a parameter of a lambda nested in it, within that lambda),
//! and that the enclosing scope binds; each name once, in the order of its
//! first reading.

use vstd::prelude::*;
use crate::ast::{Type, TypeV, Expr, Stmt, StringPart, MatchArm, Parameter};
use crate::tables::SymbolTable;
use crate::text::str_eq;

verus! {

broadcast use vstd::std_specs::vec::group_vec_axioms;

/// The names of a list of parameters.
pub open spec fn param_names(ps: Seq<Parameter>) -> Seq<Seq<char>> {
    ps.map_values(|p: Parameter| p.name@)
}

/// The names read by `e`, in reading order, leaving out those in `shadowed`.
/// Lambdas add their parameters to the shadowed names; literals, `this`,
/// borrows, dereferences, `require`, ranges, `if` expressions and blocks are
/// not looked into.
pub open spec fn expr_uses(e: Expr, shadowed: Seq<Seq<char>>) -> Seq<Seq<char>>
    decreases e, 2int,
{
    match e {
        Expr::Ident(n) => if shadowed.contains(n@) { Seq::empty() } else { seq![n@] },
        Expr::Binary { op: _, left, right } => expr_uses(*left, shadowed) + expr_uses(*right, shadowed),
        Expr::Unary { op: _, expr } => expr_uses(*expr, shadowed),
        Expr::Call { callee, args } => expr_uses(*callee, shadowed) + exprs_uses(args@, shadowed),
        Expr::Field { object, field: _ } => expr_uses(*object, shadowed),
        Expr::Index { object, index } => expr_uses(*object, shadowed) + expr_uses(*index, shadowed),
        Expr::Construct { ty: _, args } => exprs_uses(args@, shadowed),
        Expr::StringInterp(parts) => parts_uses(parts@, shadowed),
        Expr::Lambda { params, body } => expr_uses(*body, shadowed + param_names(params@)),
        Expr::Match { expr, arms } => expr_uses(*expr, shadowed) + arms_uses(arms@, shadowed),
        Expr::Try(inner) => expr_uses(*inner, shadowed),
        Expr::Await(inner) => expr_uses(*inner, shadowed),
        Expr::AsyncBlock(body) => stmts_uses(body@, shadowed),
        _ => Seq::empty(),
    }
}

/// The names read by a list of expressions, one after the other.
pub open spec fn exprs_uses(s: Seq<Expr>, shadowed: Seq<Seq<char>>) -> Seq<Seq<char>>
    decreases s, 1int,
{
    if s.len() == 0 {
        Seq::empty()
    } else {
        exprs_uses(s.drop_last(), shadowed) + expr_uses(s.last(), shadowed)
    }
}

/// The names read by the interpolated expressions of a string.
pub open spec fn parts_uses(s: Seq<StringPart>, shadowed: Seq<Seq<char>>) -> Seq<Seq<char>>
    decreases s, 1int,
{
    if s.len() == 0 {
        Seq::empty()
    } else {
        parts_uses(s.drop_last(), shadowed) + match s.last() {
            StringPart::Expr(e) => expr_uses(e, shadowed),
            StringPart::Literal(_) => Seq::empty(),
        }
    }
}

/// The names read by the bodies of match arms.
pub open spec fn arms_uses(s: Seq<MatchArm>, shadowed: Seq<Seq<char>>) -> Seq<Seq<char>>
    decreases s, 1int,
{
    if s.len() == 0 {
        Seq::empty()
    } else {
        arms_uses(s.drop_last(), shadowed) + stmts_uses(s.last().body@, shadowed)
    }
}

/// The names read by a statement. `let` reads its value, `return` its value;
/// `break`, `continue` and `match` statements are not looked into.
pub open spec fn stmt_uses(st: Stmt, shadowed: Seq<Seq<char>>) -> Seq<Seq<char>>
    decreases st, 2int,
{
    match st {
        Stmt::Expr(e) => expr_uses(e, shadowed),
        Stmt::Let { name: _, ty: _, value, mutable: _ } => expr_uses(value, shadowed),
        Stmt::Assign { target, value } => expr_uses(target, shadowed) + expr_uses(value, shadowed),
        Stmt::If { condition, then_block, else_block } => expr_uses(condition, shadowed) + stmts_uses(then_block@, shadowed)
            + match else_block {
            Some(b) => stmts_uses(b@, shadowed),
            None => Seq::empty(),
        },
        Stmt::While { condition, body } => expr_uses(condition, shadowed) + stmts_uses(body@, shadowed),
        Stmt::For { var: _, var_type: _, iterable, body } => expr_uses(iterable, shadowed) + stmts_uses(body@, shadowed),
        Stmt::Return(Some(e)) => expr_uses(e, shadowed),
        _ => Seq::empty(),
    }
}

/// The names read by a list of statements, one after the other.
pub open spec fn stmts_uses(s: Seq<Stmt>, shadowed: Seq<Seq<char>>) -> Seq<Seq<char>>
    decreases s, 1int,
{
    if s.len() == 0 {
        Seq::empty()
    } else {
        stmts_uses(s.drop_last(), shadowed) + stmt_uses(s.last(), shadowed)
    }
}

/// `acc` followed by each name of `uses` that `scope` binds and that is not
/// already there, in order.
pub open spec fn gather(acc: Seq<Seq<char>>, uses: Seq<Seq<char>>, scope: Map<Seq<char>, TypeV>) -> Seq<Seq<char>>
    decreases uses.len(),
{
    if uses.len() == 0 {
        acc
    } else {
        let r = gather(acc, uses.drop_last(), scope);
        let u = uses.last();
        if scope.contains_key(u) && !r.contains(u) {
            r.push(u)
        } else {
            r
        }
    }
}

/// The names that a lambda with parameters `params` and body `body` captures
/// from `scope`.
pub open spec fn spec_captures(body: Expr, params: Seq<Parameter>, scope: Map<Seq<char>, TypeV>) -> Seq<Seq<char>> {
    gather(Seq::empty(), expr_uses(body, param_names(params)), scope)
}

/// Gathering over two lists of uses is gathering over the first, then over
/// the second.
pub proof fn lemma_gather_concat(acc: Seq<Seq<char>>, a: Seq<Seq<char>>, b: Seq<Seq<char>>, scope: Map<Seq<char>, TypeV>)
    ensures
        gather(acc, a + b, scope) == gather(gather(acc, a, scope), b, scope),
    decreases b.len(),
{
    if b.len() == 0 {
        assert(a + b =~= a);
    } else {
        assert((a + b).drop_last() =~= a + b.drop_last());
        assert((a + b).last() == b.last());
        lemma_gather_concat(acc, a, b.drop_last(), scope);
    }
}

/// Gathering only appends: what was gathered before stays first.
pub proof fn lemma_gather_extends(acc: Seq<Seq<char>>, uses: Seq<Seq<char>>, scope: Map<Seq<char>, TypeV>)
    ensures
        gather(acc, uses, scope).len() >= acc.len(),
        gather(acc, uses, scope).subrange(0, acc.len() as int) == acc,
        forall|i: int| acc.len() <= i < gather(acc, uses, scope).len() ==> scope.contains_key(#[trigger] gather(acc, uses, scope)[i]),
    decreases uses.len(),
{
    if uses.len() == 0 {
        assert(acc.subrange(0, acc.len() as int) =~= acc);
    } else {
        lemma_gather_extends(acc, uses.drop_last(), scope);
        let r = gather(acc, uses.drop_last(), scope);
        if scope.contains_key(uses.last()) && !r.contains(uses.last()) {
            assert(r.push(uses.last()).subrange(0, acc.len() as int) =~= r.subrange(0, acc.len() as int));
        }
    }
}

/// Gathering never repeats a name, given that `acc` repeats none.
pub proof fn lemma_gather_no_duplicates(acc: Seq<Seq<char>>, uses: Seq<Seq<char>>, scope: Map<Seq<char>, TypeV>)
    requires
        acc.no_duplicates(),
    ensures
        gather(acc, uses, scope).no_duplicates(),
    decreases uses.len(),
{
    if uses.len() > 0 {
        lemma_gather_no_duplicates(acc, uses.drop_last(), scope);
        let r = gather(acc, uses.drop_last(), scope);
        let u = uses.last();
        if scope.contains_key(u) && !r.contains(u) {
            let r2 = r.push(u);
            assert forall|i: int, j: int| 0 <= i < r2.len() && 0 <= j < r2.len() && i != j implies r2[i] != r2[j] by {
                if i == r.len() as int {
                    assert(r2[j] == r[j]);
                } else if j == r.len() as int {
                    assert(r2[i] == r[i]);
                }
            }
        }
    }
}

/// A name is gathered exactly when `acc` holds it or it is used and bound.
pub proof fn lemma_gather_contains(acc: Seq<Seq<char>>, uses: Seq<Seq<char>>, scope: Map<Seq<char>, TypeV>, n: Seq<char>)
    ensures
        gather(acc, uses, scope).contains(n) <==> (acc.contains(n) || (uses.contains(n) && scope.contains_key(n))),
    decreases uses.len(),
{
    if uses.len() > 0 {
        lemma_gather_contains(acc, uses.drop_last(), scope, n);
        let p = uses.drop_last();
        let r = gather(acc, p, scope);
        let u = uses.last();
        if uses.contains(n) && !p.contains(n) {
            let k = choose|k: int| 0 <= k < uses.len() && uses[k] == n;
            if k < uses.len() - 1 {
                assert(p[k] == n);
            }
            assert(u == n);
        }
        if p.contains(n) {
            let k = choose|k: int| 0 <= k < p.len() && p[k] == n;
            assert(uses[k] == n);
        }
        if scope.contains_key(u) && !r.contains(u) {
            let r2 = r.push(u);
            if r2.contains(n) && n != u {
                let k = choose|k: int| 0 <= k < r2.len() && r2[k] == n;
                assert(r[k] == n);
            }
            if r.contains(n) {
                let k = choose|k: int| 0 <= k < r.len() && r[k] == n;
                assert(r2[k] == n);
            }
            assert(r2[r.len() as int] == u);
        }
        if uses.contains(n) && u == n {
            assert(uses[uses.len() - 1] == n);
        }
    }
}

/// A captured variable: its name and its type in the enclosing scope.
pub struct Capture {
    pub name: String,
    pub ty: Type,
}

/// The names of a list of captures.
pub open spec fn capture_names(c: Seq<Capture>) -> Seq<Seq<char>> {
    c.map_values(|x: Capture| x.name@)
}

/// Every capture carries the type that `scope` gives its name.
pub open spec fn captures_typed(c: Seq<Capture>, scope: Map<Seq<char>, TypeV>) -> bool {
    forall|i: int| 0 <= i < c.len() ==> scope.contains_key(#[trigger] c[i].name@) && c[i].ty@ == scope[c[i].name@]
}

/// The character sequences of a list of names.
pub open spec fn names_view(v: Seq<String>) -> Seq<Seq<char>> {
    v.map_values(|s: String| s@)
}

fn names_contain(names: &Vec<String>, n: &str) -> (r: bool)
    ensures
        r == names_view(names@).contains(n@),
{
    let mut i: usize = 0;
    while i < names.len()
        invariant
            i <= names@.len(),
            forall|j: int| 0 <= j < i ==> names@[j]@ != n@,
        decreases names@.len() - i,
    {
        if str_eq(names[i].as_str(), n) {
            assert(names_view(names@)[i as int] == n@);
            return true;
        }
        i = i + 1;
    }
    proof {
        if names_view(names@).contains(n@) {
            let k = choose|k: int| 0 <= k < names_view(names@).len() && names_view(names@)[k] == n@;
            assert(names@[k]@ == n@);
        }
    }
    false
}

fn captures_contain(c: &Vec<Capture>, n: &str) -> (r: bool)
    ensures
        r == capture_names(c@).contains(n@),
{
    let mut i: usize = 0;
    while i < c.len()
        invariant
            i <= c@.len(),
            forall|j: int| 0 <= j < i ==> c@[j].name@ != n@,
        decreases c@.len() - i,
    {
        if str_eq(c[i].name.as_str(), n) {
            assert(capture_names(c@)[i as int] == n@);
            return true;
        }
        i = i + 1;
    }
    proof {
        if capture_names(c@).contains(n@) {
            let k = choose|k: int| 0 <= k < capture_names(c@).len() && capture_names(c@)[k] == n@;
            assert(c@[k].name@ == n@);
        }
    }
    false
}

/// Records a reading of `n`.
fn visit_ident(n: &String, shadowed: &Vec<String>, scope: &SymbolTable<Type>, captures: &mut Vec<Capture>)
    requires
        scope.wf(),
        captures_typed(old(captures)@, scope.view()),
    ensures
        captures_typed(final(captures)@, scope.view()),
        capture_names(final(captures)@) == gather(
            capture_names(old(captures)@),
            expr_uses(Expr::Ident(*n), names_view(shadowed@)),
            scope.view(),
        ),
{
    let ghost u = expr_uses(Expr::Ident(*n), names_view(shadowed@));
    let ghost acc = capture_names(captures@);
    if names_contain(shadowed, n.as_str()) {
        assert(u =~= Seq::<Seq<char>>::empty());
        return;
    }
    assert(u =~= seq![n@]);
    assert(u.drop_last() =~= Seq::<Seq<char>>::empty());
    assert(u.last() == n@);
    assert(gather(acc, u.drop_last(), scope.view()) == acc);
    if captures_contain(captures, n.as_str()) {
        assert(gather(acc, u, scope.view()) == acc);
        return;
    }
    match scope.get(n.as_str()) {
        Some(t) => {
            let ty = t.duplicate();
            captures.push(Capture { name: n.clone(), ty });
            assert(capture_names(captures@) =~= acc.push(n@));
            assert(gather(acc, u, scope.view()) == acc.push(n@));
        },
        None => {
            assert(gather(acc, u, scope.view()) == acc);
        },
    }
}

fn extend_names(shadowed: &Vec<String>, params: &Vec<Parameter>) -> (r: Vec<String>)
    ensures
        names_view(r@) == names_view(shadowed@) + param_names(params@),
{
    let mut r: Vec<String> = Vec::new();
    let mut i: usize = 0;
    while i < shadowed.len()
        invariant
            i <= shadowed@.len(),
            names_view(r@) == names_view(shadowed@.subrange(0, i as int)),
        decreases shadowed@.len() - i,
    {
        r.push(shadowed[i].clone());
        assert(names_view(shadowed@.subrange(0, i + 1)) =~= names_view(shadowed@.subrange(0, i as int)).push(shadowed@[i as int]@));
        assert(names_view(r@) =~= names_view(shadowed@.subrange(0, i + 1)));
        i = i + 1;
    }
    assert(shadowed@.subrange(0, shadowed@.len() as int) =~= shadowed@);
    let mut j: usize = 0;
    while j < params.len()
        invariant
            j <= params@.len(),
            names_view(r@) == names_view(shadowed@) + param_names(params@.subrange(0, j as int)),
        decreases params@.len() - j,
    {
        let ghost r0 = r@;
        r.push(params[j].name.clone());
        assert(names_view(r@) =~= names_view(r0).push(params@[j as int].name@));
        assert(param_names(params@.subrange(0, j + 1)) =~= param_names(params@.subrange(0, j as int)).push(params@[j as int].name@));
        assert(names_view(r@) =~= names_view(shadowed@) + param_names(params@.subrange(0, j + 1)));
        j = j + 1;
    }
    assert(params@.subrange(0, params@.len() as int) =~= params@);
    r
}

/// Records the readings of `e`.
pub fn walk_expr_for_captures(e: &Expr, shadowed: &Vec<String>, scope: &SymbolTable<Type>, captures: &mut Vec<Capture>)
    requires
        scope.wf(),
        captures_typed(old(captures)@, scope.view()),
    ensures
        captures_typed(final(captures)@, scope.view()),
        capture_names(final(captures)@) == gather(capture_names(old(captures)@), expr_uses(*e, names_view(shadowed@)), scope.view()),
    decreases e, 2int,
{
    let ghost sh = names_view(shadowed@);
    let ghost acc = capture_names(captures@);
    let ghost sc = scope.view();
    match e {
        Expr::Ident(n) => {
            visit_ident(n, shadowed, scope, captures);
        },
        Expr::Binary { op: _, left, right } => {
            walk_expr_for_captures(left, shadowed, scope, captures);
            walk_expr_for_captures(right, shadowed, scope, captures);
            proof {
                lemma_gather_concat(acc, expr_uses(**left, sh), expr_uses(**right, sh), sc);
            }
        },
        Expr::Unary { op: _, expr } => {
            walk_expr_for_captures(expr, shadowed, scope, captures);
        },
        Expr::Call { callee, args } => {
            walk_expr_for_captures(callee, shadowed, scope, captures);
            walk_exprs_for_captures(args, shadowed, scope, captures);
            proof {
                lemma_gather_concat(acc, expr_uses(**callee, sh), exprs_uses(args@, sh), sc);
            }
        },
        Expr::Field { object, field: _ } => {
            walk_expr_for_captures(object, shadowed, scope, captures);
        },
        Expr::Index { object, index } => {
            walk_expr_for_captures(object, shadowed, scope, captures);
            walk_expr_for_captures(index, shadowed, scope, captures);
            proof {
                lemma_gather_concat(acc, expr_uses(**object, sh), expr_uses(**index, sh), sc);
            }
        },
        Expr::Construct { ty: _, args } => {
            walk_exprs_for_captures(args, shadowed, scope, captures);
        },
        Expr::StringInterp(parts) => {
            walk_parts_for_captures(parts, shadowed, scope, captures);
        },
        Expr::Lambda { params, body } => {
            let nested = extend_names(shadowed, params);
            walk_expr_for_captures(body, &nested, scope, captures);
        },
        Expr::Match { expr, arms } => {
            walk_expr_for_captures(expr, shadowed, scope, captures);
            walk_arms_for_captures(arms, shadowed, scope, captures);
            proof {
                lemma_gather_concat(acc, expr_uses(**expr, sh), arms_uses(arms@, sh), sc);
            }
        },
        Expr::Try(inner) => {
            walk_expr_for_captures(inner, shadowed, scope, captures);
        },
        Expr::Await(inner) => {
            walk_expr_for_captures(inner, shadowed, scope, captures);
        },
        Expr::AsyncBlock(body) => {
            walk_stmts_for_captures(body, shadowed, scope, captures);
        },
        _ => {},
    }
}

/// Records the readings of a list of expressions.
fn walk_exprs_for_captures(es: &Vec<Expr>, shadowed: &Vec<String>, scope: &SymbolTable<Type>, captures: &mut Vec<Capture>)
    requires
        scope.wf(),
        captures_typed(old(captures)@, scope.view()),
    ensures
        captures_typed(final(captures)@, scope.view()),
        capture_names(final(captures)@) == gather(capture_names(old(captures)@), exprs_uses(es@, names_view(shadowed@)), scope.view()),
    decreases es, 1int,
{
    let ghost sh = names_view(shadowed@);
    let ghost acc = capture_names(captures@);
    let ghost sc = scope.view();
    let mut i: usize = 0;
    while i < es.len()
        invariant
            scope.wf(),
            i <= es@.len(),
            sh == names_view(shadowed@),
            sc == scope.view(),
            captures_typed(captures@, sc),
            capture_names(captures@) == gather(acc, exprs_uses(es@.subrange(0, i as int), sh), sc),
        decreases es@.len() - i,
    {
        let ghost before = capture_names(captures@);
        walk_expr_for_captures(&es[i], shadowed, scope, captures);
        proof {
            let s = es@.subrange(0, i + 1);
            assert(s.drop_last() =~= es@.subrange(0, i as int));
            assert(s.last() == es@[i as int]);
            lemma_gather_concat(acc, exprs_uses(es@.subrange(0, i as int), sh), expr_uses(es@[i as int], sh), sc);
        }
        i = i + 1;
    }
    assert(es@.subrange(0, es@.len() as int) =~= es@);
}

/// Records the readings of the interpolated expressions of a string.
fn walk_parts_for_captures(ps: &Vec<StringPart>, shadowed: &Vec<String>, scope: &SymbolTable<Type>, captures: &mut Vec<Capture>)
    requires
        scope.wf(),
        captures_typed(old(captures)@, scope.view()),
    ensures
        captures_typed(final(captures)@, scope.view()),
        capture_names(final(captures)@) == gather(capture_names(old(captures)@), parts_uses(ps@, names_view(shadowed@)), scope.view()),
    decreases ps, 1int,
{
    let ghost sh = names_view(shadowed@);
    let ghost acc = capture_names(captures@);
    let ghost sc = scope.view();
    let mut i: usize = 0;
    while i < ps.len()
        invariant
            scope.wf(),
            i <= ps@.len(),
            sh == names_view(shadowed@),
            sc == scope.view(),
            captures_typed(captures@, sc),
            capture_names(captures@) == gather(acc, parts_uses(ps@.subrange(0, i as int), sh), sc),
        decreases ps@.len() - i,
    {
        let ghost s = ps@.subrange(0, i + 1);
        proof {
            assert(s.drop_last() =~= ps@.subrange(0, i as int));
            assert(s.last() == ps@[i as int]);
        }
        match &ps[i] {
            StringPart::Expr(e) => {
                walk_expr_for_captures(e, shadowed, scope, captures);
                proof {
                    lemma_gather_concat(acc, parts_uses(ps@.subrange(0, i as int), sh), expr_uses(*e, sh), sc);
                }
            },
            StringPart::Literal(_) => {
                assert(parts_uses(s, sh) =~= parts_uses(ps@.subrange(0, i as int), sh));
            },
        }
        i = i + 1;
    }
    assert(ps@.subrange(0, ps@.len() as int) =~= ps@);
}

/// Records the readings of the bodies of match arms.
fn walk_arms_for_captures(arms: &Vec<MatchArm>, shadowed: &Vec<String>, scope: &SymbolTable<Type>, captures: &mut Vec<Capture>)
    requires
        scope.wf(),
        captures_typed(old(captures)@, scope.view()),
    ensures
        captures_typed(final(captures)@, scope.view()),
        capture_names(final(captures)@) == gather(capture_names(old(captures)@), arms_uses(arms@, names_view(shadowed@)), scope.view()),
    decreases arms, 1int,
{
    let ghost sh = names_view(shadowed@);
    let ghost acc = capture_names(captures@);
    let ghost sc = scope.view();
    let mut i: usize = 0;
    while i < arms.len()
        invariant
            scope.wf(),
            i <= arms@.len(),
            sh == names_view(shadowed@),
            sc == scope.view(),
            captures_typed(captures@, sc),
            capture_names(captures@) == gather(acc, arms_uses(arms@.subrange(0, i as int), sh), sc),
        decreases arms@.len() - i,
    {
        walk_stmts_for_captures(&arms[i].body, shadowed, scope, captures);
        proof {
            let s = arms@.subrange(0, i + 1);
            assert(s.drop_last() =~= arms@.subrange(0, i as int));
            assert(s.last() == arms@[i as int]);
            lemma_gather_concat(acc, arms_uses(arms@.subrange(0, i as int), sh), stmts_uses(arms@[i as int].body@, sh), sc);
        }
        i = i + 1;
    }
    assert(arms@.subrange(0, arms@.len() as int) =~= arms@);
}

/// Records the readings of a statement.
pub fn walk_stmt_for_captures(st: &Stmt, shadowed: &Vec<String>, scope: &SymbolTable<Type>, captures: &mut Vec<Capture>)
    requires
        scope.wf(),
        captures_typed(old(captures)@, scope.view()),
    ensures
        captures_typed(final(captures)@, scope.view()),
        capture_names(final(captures)@) == gather(capture_names(old(captures)@), stmt_uses(*st, names_view(shadowed@)), scope.view()),
    decreases st, 2int,
{
    let ghost sh = names_view(shadowed@);
    let ghost acc = capture_names(captures@);
    let ghost sc = scope.view();
    match st {
        Stmt::Expr(e) => {
            walk_expr_for_captures(e, shadowed, scope, captures);
        },
        Stmt::Let { name: _, ty: _, value, mutable: _ } => {
            walk_expr_for_captures(value, shadowed, scope, captures);
        },
        Stmt::Assign { target, value } => {
            walk_expr_for_captures(target, shadowed, scope, captures);
            walk_expr_for_captures(value, shadowed, scope, captures);
            proof {
                lemma_gather_concat(acc, expr_uses(*target, sh), expr_uses(*value, sh), sc);
            }
        },
        Stmt::If { condition, then_block, else_block } => {
            walk_expr_for_captures(condition, shadowed, scope, captures);
            walk_stmts_for_captures(then_block, shadowed, scope, captures);
            proof {
                lemma_gather_concat(acc, expr_uses(*condition, sh), stmts_uses(then_block@, sh), sc);
            }
            let ghost mid = capture_names(captures@);
            match else_block {
                Some(b) => {
                    walk_stmts_for_captures(b, shadowed, scope, captures);
                    proof {
                        lemma_gather_concat(acc, expr_uses(*condition, sh) + stmts_uses(then_block@, sh), stmts_uses(b@, sh), sc);
                    }
                },
                None => {
                    assert(expr_uses(*condition, sh) + stmts_uses(then_block@, sh) + Seq::<Seq<char>>::empty() =~= expr_uses(*condition, sh) + stmts_uses(then_block@, sh));
                },
            }
        },
        Stmt::While { condition, body } => {
            walk_expr_for_captures(condition, shadowed, scope, captures);
            walk_stmts_for_captures(body, shadowed, scope, captures);
            proof {
                lemma_gather_concat(acc, expr_uses(*condition, sh), stmts_uses(body@, sh), sc);
            }
        },
        Stmt::For { var: _, var_type: _, iterable, body } => {
            walk_expr_for_captures(iterable, shadowed, scope, captures);
            walk_stmts_for_captures(body, shadowed, scope, captures);
            proof {
                lemma_gather_concat(acc, expr_uses(*iterable, sh), stmts_uses(body@, sh), sc);
            }
        },
        Stmt::Return(Some(e)) => {
            walk_expr_for_captures(e, shadowed, scope, captures);
        },
        _ => {},
    }
}

/// Records the readings of a list of statements.
fn walk_stmts_for_captures(ss: &Vec<Stmt>, shadowed: &Vec<String>, scope: &SymbolTable<Type>, captures: &mut Vec<Capture>)
    requires
        scope.wf(),
        captures_typed(old(captures)@, scope.view()),
    ensures
        captures_typed(final(captures)@, scope.view()),
        capture_names(final(captures)@) == gather(capture_names(old(captures)@), stmts_uses(ss@, names_view(shadowed@)), scope.view()),
    decreases ss, 1int,
{
    let ghost sh = names_view(shadowed@);
    let ghost acc = capture_names(captures@);
    let ghost sc = scope.view();
    let mut i: usize = 0;
    while i < ss.len()
        invariant
            scope.wf(),
            i <= ss@.len(),
            sh == names_view(shadowed@),
            sc == scope.view(),
            captures_typed(captures@, sc),
            capture_names(captures@) == gather(acc, stmts_uses(ss@.subrange(0, i as int), sh), sc),
        decreases ss@.len() - i,
    {
        walk_stmt_for_captures(&ss[i], shadowed, scope, captures);
        proof {
            let s = ss@.subrange(0, i + 1);
            assert(s.drop_last() =~= ss@.subrange(0, i as int));
            assert(s.last() == ss@[i as int]);
            lemma_gather_concat(acc, stmts_uses(ss@.subrange(0, i as int), sh), stmt_uses(ss@[i as int], sh), sc);
        }
        i = i + 1;
    }
    assert(ss@.subrange(0, ss@.len() as int) =~= ss@);
}

/// The variables of `scope` that a lambda with parameters `params` and body
/// `body` captures, each with its type in `scope`.
pub fn identify_captures(body: &Expr, params: &Vec<Parameter>, scope: &SymbolTable<Type>) -> (r: Vec<Capture>)
    requires
        scope.wf(),
    ensures
        capture_names(r@) == spec_captures(*body, params@, scope.view()),
        captures_typed(r@, scope.view()),
{
    let mut captures: Vec<Capture> = Vec::new();
    let empty: Vec<String> = Vec::new();
    let shadowed = extend_names(&empty, params);
    assert(names_view(empty@) =~= Seq::<Seq<char>>::empty());
    assert(names_view(shadowed@) =~= param_names(params@));
    assert(capture_names(captures@) =~= Seq::<Seq<char>>::empty());
    walk_expr_for_captures(body, &shadowed, scope, &mut captures);
    captures
}

/// A lambda captures each name at most once.
pub proof fn law_captures_distinct(body: Expr, params: Seq<Parameter>, scope: Map<Seq<char>, TypeV>)
    ensures
        spec_captures(body, params, scope).no_duplicates(),
{
    lemma_gather_no_duplicates(Seq::empty(), expr_uses(body, param_names(params)), scope);
}

/// A lambda captures exactly the names that its body reads outside its own
/// parameters and that the enclosing scope binds.
pub proof fn law_captures_exactly_free_bound_names(body: Expr, params: Seq<Parameter>, scope: Map<Seq<char>, TypeV>, n: Seq<char>)
    ensures
        spec_captures(body, params, scope).contains(n) <==> (expr_uses(body, param_names(params)).contains(n) && scope.contains_key(n)),
{
    lemma_gather_contains(Seq::empty(), expr_uses(body, param_names(params)), scope, n);
}

/// A lambda never captures one of its own parameters.
pub proof fn law_parameters_not_captured(e: Expr, shadowed: Seq<Seq<char>>, n: Seq<char>)
    requires
        shadowed.contains(n),
    ensures
        !expr_uses(e, shadowed).contains(n),
    decreases e, 2int,
{
    lemma_uses_avoid_shadowed_expr(e, shadowed, n);
}

proof fn lemma_concat_avoids(a: Seq<Seq<char>>, b: Seq<Seq<char>>, n: Seq<char>)
    requires
        !a.contains(n),
        !b.contains(n),
    ensures
        !(a + b).contains(n),
{
    if (a + b).contains(n) {
        let k = choose|k: int| 0 <= k < (a + b).len() && (a + b)[k] == n;
        if k < a.len() {
            assert(a[k] == n);
        } else {
            assert(b[k - a.len()] == n);
        }
    }
}

proof fn lemma_shadow_grows(shadowed: Seq<Seq<char>>, more: Seq<Seq<char>>, n: Seq<char>)
    requires
        shadowed.contains(n),
    ensures
        (shadowed + more).contains(n),
{
    let k = choose|k: int| 0 <= k < shadowed.len() && shadowed[k] == n;
    assert((shadowed + more)[k] == n);
}

proof fn lemma_uses_avoid_shadowed_expr(e: Expr, shadowed: Seq<Seq<char>>, n: Seq<char>)
    requires
        shadowed.contains(n),
    ensures
        !expr_uses(e, shadowed).contains(n),
    decreases e, 2int,
{
    match e {
        Expr::Ident(m) => {
            if !shadowed.contains(m@) {
                assert(seq![m@][0] == m@);
                if seq![m@].contains(n) {
                    let k = choose|k: int| 0 <= k < 1 && seq![m@][k] == n;
                    assert(m@ == n);
                }
            }
        },
        Expr::Binary { op: _, left, right } => {
            lemma_uses_avoid_shadowed_expr(*left, shadowed, n);
            lemma_uses_avoid_shadowed_expr(*right, shadowed, n);
            lemma_concat_avoids(expr_uses(*left, shadowed), expr_uses(*right, shadowed), n);
        },
        Expr::Unary { op: _, expr } => {
            lemma_uses_avoid_shadowed_expr(*expr, shadowed, n);
        },
        Expr::Call { callee, args } => {
            lemma_uses_avoid_shadowed_expr(*callee, shadowed, n);
            lemma_uses_avoid_shadowed_exprs(args@, shadowed, n);
            lemma_concat_avoids(expr_uses(*callee, shadowed), exprs_uses(args@, shadowed), n);
        },
        Expr::Field { object, field: _ } => {
            lemma_uses_avoid_shadowed_expr(*object, shadowed, n);
        },
        Expr::Index { object, index } => {
            lemma_uses_avoid_shadowed_expr(*object, shadowed, n);
            lemma_uses_avoid_shadowed_expr(*index, shadowed, n);
            lemma_concat_avoids(expr_uses(*object, shadowed), expr_uses(*index, shadowed), n);
        },
        Expr::Construct { ty: _, args } => {
            lemma_uses_avoid_shadowed_exprs(args@, shadowed, n);
        },
        Expr::StringInterp(parts) => {
            lemma_uses_avoid_shadowed_parts(parts@, shadowed, n);
        },
        Expr::Lambda { params, body } => {
            lemma_shadow_grows(shadowed, param_names(params@), n);
            lemma_uses_avoid_shadowed_expr(*body, shadowed + param_names(params@), n);
        },
        Expr::Match { expr, arms } => {
            lemma_uses_avoid_shadowed_expr(*expr, shadowed, n);
            lemma_uses_avoid_shadowed_arms(arms@, shadowed, n);
            lemma_concat_avoids(expr_uses(*expr, shadowed), arms_uses(arms@, shadowed), n);
        },
        Expr::Try(inner) => {
            lemma_uses_avoid_shadowed_expr(*inner, shadowed, n);
        },
        Expr::Await(inner) => {
            lemma_uses_avoid_shadowed_expr(*inner, shadowed, n);
        },
        Expr::AsyncBlock(body) => {
            lemma_uses_avoid_shadowed_stmts(body@, shadowed, n);
        },
        _ => {},
    }
}

proof fn lemma_uses_avoid_shadowed_exprs(s: Seq<Expr>, shadowed: Seq<Seq<char>>, n: Seq<char>)
    requires
        shadowed.contains(n),
    ensures
        !exprs_uses(s, shadowed).contains(n),
    decreases s, 1int,
{
    if s.len() > 0 {
        lemma_uses_avoid_shadowed_exprs(s.drop_last(), shadowed, n);
        lemma_uses_avoid_shadowed_expr(s.last(), shadowed, n);
        lemma_concat_avoids(exprs_uses(s.drop_last(), shadowed), expr_uses(s.last(), shadowed), n);
    }
}

proof fn lemma_uses_avoid_shadowed_parts(s: Seq<StringPart>, shadowed: Seq<Seq<char>>, n: Seq<char>)
    requires
        shadowed.contains(n),
    ensures
        !parts_uses(s, shadowed).contains(n),
    decreases s, 1int,
{
    if s.len() > 0 {
        lemma_uses_avoid_shadowed_parts(s.drop_last(), shadowed, n);
        match s.last() {
            StringPart::Expr(e) => {
                lemma_uses_avoid_shadowed_expr(e, shadowed, n);
                lemma_concat_avoids(parts_uses(s.drop_last(), shadowed), expr_uses(e, shadowed), n);
            },
            StringPart::Literal(_) => {
                lemma_concat_avoids(parts_uses(s.drop_last(), shadowed), Seq::empty(), n);
            },
        }
    }
}

proof fn lemma_uses_avoid_shadowed_arms(s: Seq<MatchArm>, shadowed: Seq<Seq<char>>, n: Seq<char>)
    requires
        shadowed.contains(n),
    ensures
        !arms_uses(s, shadowed).contains(n),
    decreases s, 1int,
{
    if s.len() > 0 {
        lemma_uses_avoid_shadowed_arms(s.drop_last(), shadowed, n);
        lemma_uses_avoid_shadowed_stmts(s.last().body@, shadowed, n);
        lemma_concat_avoids(arms_uses(s.drop_last(), shadowed), stmts_uses(s.last().body@, shadowed), n);
    }
}

proof fn lemma_uses_avoid_shadowed_stmt(st: Stmt, shadowed: Seq<Seq<char>>, n: Seq<char>)
    requires
        shadowed.contains(n),
    ensures
        !stmt_uses(st, shadowed).contains(n),
    decreases st, 2int,
{
    match st {
        Stmt::Expr(e) => {
            lemma_uses_avoid_shadowed_expr(e, shadowed, n);
        },
        Stmt::Let { name: _, ty: _, value, mutable: _ } => {
            lemma_uses_avoid_shadowed_expr(value, shadowed, n);
        },
        Stmt::Assign { target, value } => {
            lemma_uses_avoid_shadowed_expr(target, shadowed, n);
            lemma_uses_avoid_shadowed_expr(value, shadowed, n);
            lemma_concat_avoids(expr_uses(target, shadowed), expr_uses(value, shadowed), n);
        },
        Stmt::If { condition, then_block, else_block } => {
            lemma_uses_avoid_shadowed_expr(condition, shadowed, n);
            lemma_uses_avoid_shadowed_stmts(then_block@, shadowed, n);
            lemma_concat_avoids(expr_uses(condition, shadowed), stmts_uses(then_block@, shadowed), n);
            match else_block {
                Some(b) => {
                    lemma_uses_avoid_shadowed_stmts(b@, shadowed, n);
                    lemma_concat_avoids(expr_uses(condition, shadowed) + stmts_uses(then_block@, shadowed), stmts_uses(b@, shadowed), n);
                },
                None => {
                    lemma_concat_avoids(expr_uses(condition, shadowed) + stmts_uses(then_block@, shadowed), Seq::empty(), n);
                },
            }
        },
        Stmt::While { condition, body } => {
            lemma_uses_avoid_shadowed_expr(condition, shadowed, n);
            lemma_uses_avoid_shadowed_stmts(body@, shadowed, n);
            lemma_concat_avoids(expr_uses(condition, shadowed), stmts_uses(body@, shadowed), n);
        },
        Stmt::For { var: _, var_type: _, iterable, body } => {
            lemma_uses_avoid_shadowed_expr(iterable, shadowed, n);
            lemma_uses_avoid_shadowed_stmts(body@, shadowed, n);
            lemma_concat_avoids(expr_uses(iterable, shadowed), stmts_uses(body@, shadowed), n);
        },
        Stmt::Return(Some(e)) => {
            lemma_uses_avoid_shadowed_expr(e, shadowed, n);
        },
        _ => {},
    }
}

proof fn lemma_uses_avoid_shadowed_stmts(s: Seq<Stmt>, shadowed: Seq<Seq<char>>, n: Seq<char>)
    requires
        shadowed.contains(n),
    ensures
        !stmts_uses(s, shadowed).contains(n),
    decreases s, 1int,
{
    if s.len() > 0 {
        lemma_uses_avoid_shadowed_stmts(s.drop_last(), shadowed, n);
        lemma_uses_avoid_shadowed_stmt(s.last(), shadowed, n);
        lemma_concat_avoids(stmts_uses(s.drop_last(), shadowed), stmt_uses(s.last(), shadowed), n);
    }
}

} // verus!
