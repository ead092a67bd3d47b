//! The order in which a program's declarations are declared and then
//! compiled, and the symbols they are emitted under.
//!
//! Functions and classes are emitted under their own names; the functions
//! and classes of a module `m` under `m__name`. Enums, interfaces, imports
//! and declarations nested deeper in a module emit nothing.

use vstd::prelude::*;
use crate::ast::{Program, Decl};
use crate::text::{qualified_name, spec_qualified};

verus! {

broadcast use vstd::std_specs::vec::group_vec_axioms;

/// Whether a unit is a function or a class.
#[derive(Clone, Copy, PartialEq, Eq, Structural, Debug)]
pub enum UnitKind {
    Function,
    Class,
}

/// A function or class to emit: where it is declared (the top-level
/// declaration, and the member of a module), what it is, and its symbol.
pub struct CodeUnit {
    pub decl: usize,
    pub member: Option<usize>,
    pub kind: UnitKind,
    pub symbol: String,
}

/// The value of a unit.
pub struct UnitV {
    pub decl: int,
    pub member: Option<int>,
    pub kind: UnitKind,
    pub symbol: Seq<char>,
}

impl View for CodeUnit {
    type V = UnitV;

    open spec fn view(&self) -> UnitV {
        UnitV {
            decl: self.decl as int,
            member: match self.member {
                Some(m) => Some(m as int),
                None => None,
            },
            kind: self.kind,
            symbol: self.symbol@,
        }
    }
}

/// The units of the members of module `m`, declaration `d` of the program.
pub open spec fn member_units(d: int, m: Seq<char>, members: Seq<Decl>) -> Seq<UnitV>
    decreases members.len(),
{
    if members.len() == 0 {
        Seq::empty()
    } else {
        let j = members.len() - 1;
        member_units(d, m, members.drop_last()) + match members.last() {
            Decl::Function(f) => seq![UnitV { decl: d, member: Some(j), kind: UnitKind::Function, symbol: spec_qualified(m, f.name@) }],
            Decl::Class(c) => seq![UnitV { decl: d, member: Some(j), kind: UnitKind::Class, symbol: spec_qualified(m, c.name@) }],
            _ => Seq::empty(),
        }
    }
}

/// The units of a program's declarations, in declaration order.
pub open spec fn spec_units(decls: Seq<Decl>) -> Seq<UnitV>
    decreases decls.len(),
{
    if decls.len() == 0 {
        Seq::empty()
    } else {
        let i = decls.len() - 1;
        spec_units(decls.drop_last()) + match decls.last() {
            Decl::Function(f) => seq![UnitV { decl: i, member: None, kind: UnitKind::Function, symbol: f.name@ }],
            Decl::Class(c) => seq![UnitV { decl: i, member: None, kind: UnitKind::Class, symbol: c.name@ }],
            Decl::Module(m) => member_units(i, m.name@, m.declarations@),
            _ => Seq::empty(),
        }
    }
}

/// The values of a list of units.
pub open spec fn units_view(u: Seq<CodeUnit>) -> Seq<UnitV> {
    u.map_values(|x: CodeUnit| x@)
}

fn push_unit(out: &mut Vec<CodeUnit>, u: CodeUnit)
    ensures
        units_view(final(out)@) == units_view(old(out)@) + seq![u@],
{
    out.push(u);
    assert(units_view(out@) =~= units_view(old(out)@) + seq![u@]);
}

/// The functions and classes of a program to declare and then compile, in
/// order.
pub fn plan_program(p: &Program) -> (r: Vec<CodeUnit>)
    ensures
        units_view(r@) == spec_units(p.declarations@),
{
    let decls = &p.declarations;
    let mut out: Vec<CodeUnit> = Vec::new();
    let mut i: usize = 0;
    while i < decls.len()
        invariant
            i <= decls@.len(),
            units_view(out@) == spec_units(decls@.subrange(0, i as int)),
        decreases decls@.len() - i,
    {
        proof {
            let t = decls@.subrange(0, i + 1);
            assert(t.drop_last() =~= decls@.subrange(0, i as int));
            assert(t.last() == decls@[i as int]);
        }
        match &decls[i] {
            Decl::Function(f) => {
                push_unit(&mut out, CodeUnit { decl: i, member: None, kind: UnitKind::Function, symbol: f.name.clone() });
            },
            Decl::Class(c) => {
                push_unit(&mut out, CodeUnit { decl: i, member: None, kind: UnitKind::Class, symbol: c.name.clone() });
            },
            Decl::Module(m) => {
                let ghost before = units_view(out@);
                let members = &m.declarations;
                let mut j: usize = 0;
                while j < members.len()
                    invariant
                        i < decls@.len(),
                        j <= members@.len(),
                        units_view(out@) == before + member_units(i as int, m.name@, members@.subrange(0, j as int)),
                    decreases members@.len() - j,
                {
                    proof {
                        let t = members@.subrange(0, j + 1);
                        assert(t.drop_last() =~= members@.subrange(0, j as int));
                        assert(t.last() == members@[j as int]);
                    }
                    match &members[j] {
                        Decl::Function(f) => {
                            let s = qualified_name(m.name.as_str(), f.name.as_str());
                            push_unit(&mut out, CodeUnit { decl: i, member: Some(j), kind: UnitKind::Function, symbol: s });
                        },
                        Decl::Class(c) => {
                            let s = qualified_name(m.name.as_str(), c.name.as_str());
                            push_unit(&mut out, CodeUnit { decl: i, member: Some(j), kind: UnitKind::Class, symbol: s });
                        },
                        _ => {},
                    }
                    assert(units_view(out@) =~= before + member_units(i as int, m.name@, members@.subrange(0, j + 1)));
                    j = j + 1;
                }
                assert(members@.subrange(0, members@.len() as int) =~= members@);
            },
            _ => {},
        }
        assert(units_view(out@) =~= spec_units(decls@.subrange(0, i + 1)));
        i = i + 1;
    }
    assert(decls@.subrange(0, decls@.len() as int) =~= decls@);
    out
}

/// The declaration a unit stands for, if its position names one.
pub open spec fn unit_target(decls: Seq<Decl>, u: UnitV) -> Option<Decl> {
    if 0 <= u.decl < decls.len() {
        match u.member {
            None => Some(decls[u.decl]),
            Some(j) => match decls[u.decl] {
                Decl::Module(m) => if 0 <= j < m.declarations@.len() {
                    Some(m.declarations@[j])
                } else {
                    None
                },
                _ => None,
            },
        }
    } else {
        None
    }
}

/// Whether no function or class that `decls` emits holds a lambda.
pub open spec fn program_lambda_free(decls: Seq<Decl>) -> bool {
    forall|k: int| 0 <= k < spec_units(decls).len() ==>
        (unit_target(decls, #[trigger] spec_units(decls)[k]) matches Some(d) ==> crate::ast::decl_lambda_free(d))
}

/// A planned function unit stands for a function, a planned class unit for
/// a class.
pub proof fn lemma_unit_target(decls: Seq<Decl>, k: int)
    requires
        0 <= k < spec_units(decls).len(),
    ensures
        spec_units(decls)[k].kind == UnitKind::Function ==> unit_target(decls, spec_units(decls)[k]) matches Some(Decl::Function(_)),
        spec_units(decls)[k].kind == UnitKind::Class ==> unit_target(decls, spec_units(decls)[k]) matches Some(Decl::Class(_)),
{
    law_unit_symbols(decls, k);
}

/// Every unit is emitted under its own name at the top level, and under
/// `module__name` inside a module.
pub proof fn law_unit_symbols(decls: Seq<Decl>, k: int)
    requires
        0 <= k < spec_units(decls).len(),
    ensures
        ({
            let u = spec_units(decls)[k];
            &&& 0 <= u.decl < decls.len()
            &&& match u.member {
                None => match decls[u.decl] {
                    Decl::Function(f) => u.kind == UnitKind::Function && u.symbol == f.name@,
                    Decl::Class(c) => u.kind == UnitKind::Class && u.symbol == c.name@,
                    _ => false,
                },
                Some(j) => match decls[u.decl] {
                    Decl::Module(m) => 0 <= j < m.declarations@.len() && match m.declarations@[j] {
                        Decl::Function(f) => u.kind == UnitKind::Function && u.symbol == spec_qualified(m.name@, f.name@),
                        Decl::Class(c) => u.kind == UnitKind::Class && u.symbol == spec_qualified(m.name@, c.name@),
                        _ => false,
                    },
                    _ => false,
                },
            }
        }),
    decreases decls.len(),
{
    let p = decls.drop_last();
    let i = decls.len() - 1;
    let tail = match decls.last() {
        Decl::Function(f) => seq![UnitV { decl: i, member: None, kind: UnitKind::Function, symbol: f.name@ }],
        Decl::Class(c) => seq![UnitV { decl: i, member: None, kind: UnitKind::Class, symbol: c.name@ }],
        Decl::Module(m) => member_units(i, m.name@, m.declarations@),
        _ => Seq::empty(),
    };
    assert(spec_units(decls) == spec_units(p) + tail);
    if k < spec_units(p).len() {
        law_unit_symbols(p, k);
        let u = spec_units(p)[k];
        assert(spec_units(decls)[k] == u);
        assert(decls[u.decl] == p[u.decl]);
    } else {
        let kk = k - spec_units(p).len();
        assert(spec_units(decls)[k] == tail[kk]);
        match decls.last() {
            Decl::Module(m) => {
                lemma_member_units(i, m.name@, m.declarations@, kk);
            },
            _ => {},
        }
    }
}

proof fn lemma_member_units(d: int, mname: Seq<char>, members: Seq<Decl>, k: int)
    requires
        0 <= k < member_units(d, mname, members).len(),
    ensures
        ({
            let u = member_units(d, mname, members)[k];
            &&& u.decl == d
            &&& u.member matches Some(j) && 0 <= j < members.len() && match members[j] {
                Decl::Function(f) => u.kind == UnitKind::Function && u.symbol == spec_qualified(mname, f.name@),
                Decl::Class(c) => u.kind == UnitKind::Class && u.symbol == spec_qualified(mname, c.name@),
                _ => false,
            }
        }),
    decreases members.len(),
{
    let p = members.drop_last();
    let j = members.len() - 1;
    let tail = match members.last() {
        Decl::Function(f) => seq![UnitV { decl: d, member: Some(j), kind: UnitKind::Function, symbol: spec_qualified(mname, f.name@) }],
        Decl::Class(c) => seq![UnitV { decl: d, member: Some(j), kind: UnitKind::Class, symbol: spec_qualified(mname, c.name@) }],
        _ => Seq::empty(),
    };
    assert(member_units(d, mname, members) == member_units(d, mname, p) + tail);
    if k < member_units(d, mname, p).len() {
        lemma_member_units(d, mname, p, k);
        let u = member_units(d, mname, p)[k];
        assert(member_units(d, mname, members)[k] == u);
        let jj = u.member->0;
        assert(members[jj] == p[jj]);
    } else {
        assert(member_units(d, mname, members)[k] == tail[k - member_units(d, mname, p).len()]);
    }
}

} // verus!
