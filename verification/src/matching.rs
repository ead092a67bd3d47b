//! How a `match` statement is lowered: which test guards each arm, what the
//! arm binds, and where the chain of arms stops.

use vstd::prelude::*;
use crate::ast::{Type, TypeV, Pattern, MatchArm};
use crate::text::str_eq;

verus! {

broadcast use vstd::std_specs::vec::group_vec_axioms;

/// The tag of an optional value that holds a value.
pub const TAG_SOME: u8 = 1;
/// The tag of an optional value that holds none.
pub const TAG_NONE: u8 = 0;
/// The tag of a successful result.
pub const TAG_OK: u8 = 1;
/// The tag of a failed result.
pub const TAG_ERROR: u8 = 0;

/// What guards an arm.
#[derive(Clone, Copy, PartialEq, Eq, Structural, Debug)]
pub enum ArmTest {
    /// The arm always runs.
    Always,
    /// The scrutinee, an integer, equals the arm's literal.
    LiteralEquals,
    /// Field 0 of the scrutinee, an `i8` tag, equals `tag`.
    TagEquals { tag: u8 },
}

/// Where an arm's binding takes its value from.
#[derive(Clone, Copy, PartialEq, Eq, Structural, Debug)]
pub enum BindingSource {
    /// The whole scrutinee.
    Scrutinee,
    /// A field of the scrutinee struct.
    Field(u32),
}

/// A variable that an arm binds.
pub struct ArmBinding {
    pub name: String,
    pub source: BindingSource,
    pub ty: Type,
}

/// The plan of one arm.
pub struct ArmPlan {
    pub test: ArmTest,
    pub binding: Option<ArmBinding>,
}

/// The value of an arm's plan.
pub struct ArmPlanV {
    pub test: ArmTest,
    pub binding: Option<(Seq<char>, BindingSource, TypeV)>,
}

impl View for ArmPlan {
    type V = ArmPlanV;

    open spec fn view(&self) -> ArmPlanV {
        ArmPlanV {
            test: self.test,
            binding: match self.binding {
                Some(b) => Some((b.name@, b.source, b.ty@)),
                None => None,
            },
        }
    }
}

/// The first name bound by a variant pattern, if any.
pub open spec fn first_binding(bs: Seq<String>) -> Option<Seq<char>> {
    if bs.len() == 0 {
        None
    } else {
        Some(bs[0]@)
    }
}

/// The binding made from the first name of `bs`, if there is one.
pub open spec fn bind_first(bs: Seq<String>, source: BindingSource, ty: TypeV) -> Option<(Seq<char>, BindingSource, TypeV)> {
    match first_binding(bs) {
        Some(n) => Some((n, source, ty)),
        None => None,
    }
}

/// The plan of an arm with pattern `p`: `_` always runs; a name always runs
/// and binds the scrutinee as an integer; a literal compares the scrutinee
/// with it; `Some(x)` and `Ok(x)` test for tag 1 and bind field 1 (as an
/// integer), `None` tests for tag 0, `Error(e)` tests for tag 0 and binds
/// field 2 as a string; any other variant always runs.
pub open spec fn spec_arm_plan(p: Pattern) -> ArmPlanV {
    match p {
        Pattern::Wildcard => ArmPlanV { test: ArmTest::Always, binding: None },
        Pattern::Ident(b) => ArmPlanV { test: ArmTest::Always, binding: Some((b@, BindingSource::Scrutinee, TypeV::Integer)) },
        Pattern::Literal(_) => ArmPlanV { test: ArmTest::LiteralEquals, binding: None },
        Pattern::Variant(v, bs) => if v@ == "Some"@ {
            ArmPlanV { test: ArmTest::TagEquals { tag: TAG_SOME }, binding: bind_first(bs@, BindingSource::Field(1), TypeV::Integer) }
        } else if v@ == "None"@ {
            ArmPlanV { test: ArmTest::TagEquals { tag: TAG_NONE }, binding: None }
        } else if v@ == "Ok"@ {
            ArmPlanV { test: ArmTest::TagEquals { tag: TAG_OK }, binding: bind_first(bs@, BindingSource::Field(1), TypeV::Integer) }
        } else if v@ == "Error"@ {
            ArmPlanV { test: ArmTest::TagEquals { tag: TAG_ERROR }, binding: bind_first(bs@, BindingSource::Field(2), TypeV::String) }
        } else {
            ArmPlanV { test: ArmTest::Always, binding: None }
        },
    }
}

/// The number of arms lowered: up to and including the first arm that
/// always runs, or all of them.
pub open spec fn spec_planned_len(arms: Seq<MatchArm>) -> nat
    decreases arms.len(),
{
    if arms.len() == 0 {
        0
    } else if spec_arm_plan(arms[0].pattern).test == ArmTest::Always {
        1
    } else {
        1 + spec_planned_len(arms.drop_first())
    }
}

fn first_name(bs: &Vec<String>) -> (r: Option<String>)
    ensures
        match r {
            Some(n) => first_binding(bs@) == Some(n@),
            None => first_binding(bs@) is None,
        },
{
    if bs.len() == 0 {
        None
    } else {
        Some(bs[0].clone())
    }
}

fn binding_from(bs: &Vec<String>, source: BindingSource, ty: Type) -> (r: Option<ArmBinding>)
    ensures
        match r {
            Some(b) => bind_first(bs@, source, ty@) == Some((b.name@, b.source, b.ty@)),
            None => bind_first(bs@, source, ty@) is None,
        },
{
    match first_name(bs) {
        Some(name) => Some(ArmBinding { name, source, ty }),
        None => None,
    }
}

/// The plan of one arm.
pub fn plan_arm(p: &Pattern) -> (r: ArmPlan)
    ensures
        r@ == spec_arm_plan(*p),
{
    match p {
        Pattern::Wildcard => ArmPlan { test: ArmTest::Always, binding: None },
        Pattern::Ident(b) => ArmPlan { test: ArmTest::Always, binding: Some(ArmBinding { name: b.clone(), source: BindingSource::Scrutinee, ty: Type::Integer }) },
        Pattern::Literal(_) => ArmPlan { test: ArmTest::LiteralEquals, binding: None },
        Pattern::Variant(v, bs) => {
            let v = v.as_str();
            if str_eq(v, "Some") {
                ArmPlan { test: ArmTest::TagEquals { tag: TAG_SOME }, binding: binding_from(bs, BindingSource::Field(1), Type::Integer) }
            } else if str_eq(v, "None") {
                ArmPlan { test: ArmTest::TagEquals { tag: TAG_NONE }, binding: None }
            } else if str_eq(v, "Ok") {
                ArmPlan { test: ArmTest::TagEquals { tag: TAG_OK }, binding: binding_from(bs, BindingSource::Field(1), Type::Integer) }
            } else if str_eq(v, "Error") {
                ArmPlan { test: ArmTest::TagEquals { tag: TAG_ERROR }, binding: binding_from(bs, BindingSource::Field(2), Type::String) }
            } else {
                ArmPlan { test: ArmTest::Always, binding: None }
            }
        },
    }
}

pub proof fn lemma_planned_len(arms: Seq<MatchArm>)
    ensures
        spec_planned_len(arms) <= arms.len(),
        forall|i: int| 0 <= i < spec_planned_len(arms) - 1 ==> spec_arm_plan(#[trigger] arms[i].pattern).test != ArmTest::Always,
        spec_planned_len(arms) < arms.len() ==> spec_planned_len(arms) > 0 && spec_arm_plan(arms[spec_planned_len(arms) - 1].pattern).test == ArmTest::Always,
        spec_planned_len(arms) == arms.len() && arms.len() > 0 && spec_arm_plan(arms[arms.len() - 1].pattern).test != ArmTest::Always ==>
            forall|i: int| 0 <= i < arms.len() ==> spec_arm_plan(#[trigger] arms[i].pattern).test != ArmTest::Always,
    decreases arms.len(),
{
    if arms.len() > 0 && spec_arm_plan(arms[0].pattern).test != ArmTest::Always {
        let rest = arms.drop_first();
        lemma_planned_len(rest);
        assert forall|i: int| 0 <= i < spec_planned_len(arms) - 1 implies spec_arm_plan(#[trigger] arms[i].pattern).test != ArmTest::Always by {
            if i > 0 {
                assert(arms[i] == rest[i - 1]);
            }
        }
        if spec_planned_len(arms) < arms.len() {
            assert(arms[spec_planned_len(arms) - 1] == rest[spec_planned_len(rest) - 1]);
        }
        if spec_planned_len(arms) == arms.len() && spec_arm_plan(arms[arms.len() - 1].pattern).test != ArmTest::Always {
            if rest.len() > 0 {
                assert(arms[arms.len() - 1] == rest[rest.len() - 1]);
            }
            assert forall|i: int| 0 <= i < arms.len() implies spec_arm_plan(#[trigger] arms[i].pattern).test != ArmTest::Always by {
                if i > 0 {
                    assert(arms[i] == rest[i - 1]);
                }
            }
        }
    }
}

/// Plans a `match` statement: the arms in order, up to and including the
/// first that always runs; arms after it are never reached and not lowered.
pub fn plan_match(arms: &Vec<MatchArm>) -> (r: Vec<ArmPlan>)
    ensures
        r@.len() <= arms@.len(),
        r@.len() == spec_planned_len(arms@),
        forall|i: int| 0 <= i < r@.len() ==> (#[trigger] r@[i])@ == spec_arm_plan(arms@[i].pattern),
{
    let mut r: Vec<ArmPlan> = Vec::new();
    let mut i: usize = 0;
    assert(arms@.subrange(0, arms@.len() as int) =~= arms@);
    while i < arms.len()
        invariant
            i <= arms@.len(),
            r@.len() == i,
            forall|j: int| 0 <= j < i ==> (#[trigger] r@[j])@ == spec_arm_plan(arms@[j].pattern),
            spec_planned_len(arms@) == i + spec_planned_len(arms@.subrange(i as int, arms@.len() as int)),
        decreases arms@.len() - i,
    {
        let p = plan_arm(&arms[i].pattern);
        let always = p.test == ArmTest::Always;
        r.push(p);
        proof {
            let rest = arms@.subrange(i as int, arms@.len() as int);
            assert(rest[0] == arms@[i as int]);
            assert(rest.drop_first() =~= arms@.subrange(i + 1, arms@.len() as int));
        }
        i = i + 1;
        if always {
            return r;
        }
    }
    r
}

/// Only the last lowered arm can be one that always runs, and the arms
/// after the first such arm are not lowered.
pub proof fn law_catch_all_ends_the_match(arms: Seq<MatchArm>)
    ensures
        spec_planned_len(arms) <= arms.len(),
        forall|i: int| 0 <= i < spec_planned_len(arms) - 1 ==> spec_arm_plan(#[trigger] arms[i].pattern).test != ArmTest::Always,
        spec_planned_len(arms) < arms.len() ==> spec_arm_plan(arms[spec_planned_len(arms) - 1].pattern).test == ArmTest::Always,
{
    lemma_planned_len(arms);
}

/// Matching on `Some`/`None` (and `Ok`/`Error`) tests for distinct tags, so
/// at most one of the two arms can run.
pub proof fn law_variant_tags_distinct()
    ensures
        TAG_SOME != TAG_NONE,
        TAG_OK != TAG_ERROR,
{
}

} // verus!
