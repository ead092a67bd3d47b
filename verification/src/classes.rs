//! What the generator knows of a class: its fields, their positions in the
//! instance struct and their types.

use vstd::prelude::*;
use crate::ast::{Type, TypeV, Field};
use crate::text::str_eq;

verus! {

/// The fields of a declared class, in declaration order.
pub struct ClassInfo {
    pub fields: Vec<Field>,
}

/// The value of a class: each field's name and type, in declaration order.
pub open spec fn fields_view(fs: Seq<Field>) -> Seq<(Seq<char>, TypeV)> {
    fs.map_values(|f: Field| (f.name@, f.ty@))
}

impl View for ClassInfo {
    type V = Seq<(Seq<char>, TypeV)>;

    open spec fn view(&self) -> Seq<(Seq<char>, TypeV)> {
        fields_view(self.fields@)
    }
}

/// The position of field `name`: when a name is declared twice, the later
/// declaration wins.
pub open spec fn spec_field_index(fs: Seq<(Seq<char>, TypeV)>, name: Seq<char>) -> Option<int>
    decreases fs.len(),
{
    if fs.len() == 0 {
        None
    } else if fs.last().0 == name {
        Some(fs.len() - 1)
    } else {
        spec_field_index(fs.drop_last(), name)
    }
}

/// The type of field `name`, by the same rule.
pub open spec fn spec_field_type(fs: Seq<(Seq<char>, TypeV)>, name: Seq<char>) -> Option<TypeV> {
    match spec_field_index(fs, name) {
        Some(i) => Some(fs[i].1),
        None => None,
    }
}

/// A found position is in range and holds the name; no later field has it.
pub proof fn lemma_field_index(fs: Seq<(Seq<char>, TypeV)>, name: Seq<char>)
    ensures
        spec_field_index(fs, name) matches Some(i) ==> 0 <= i < fs.len() && fs[i].0 == name
            && forall|j: int| i < j < fs.len() ==> fs[j].0 != name,
        spec_field_index(fs, name) is None ==> forall|j: int| 0 <= j < fs.len() ==> fs[j].0 != name,
    decreases fs.len(),
{
    if fs.len() > 0 {
        lemma_field_index(fs.drop_last(), name);
        if fs.last().0 != name {
            assert forall|j: int| 0 <= j < fs.len() - 1 implies fs[j] == fs.drop_last()[j] by {}
        }
    }
}

impl ClassInfo {
    /// The class information of a class with these fields.
    pub fn from_fields(fields: &Vec<Field>) -> (c: ClassInfo)
        ensures
            c@ == fields_view(fields@),
    {
        let mut out: Vec<Field> = Vec::new();
        let mut i: usize = 0;
        while i < fields.len()
            invariant
                i <= fields@.len(),
                fields_view(out@) == fields_view(fields@.subrange(0, i as int)),
            decreases fields@.len() - i,
        {
            let ghost o0 = out@;
            out.push(Field { name: fields[i].name.clone(), ty: fields[i].ty.duplicate() });
            assert(fields_view(out@) =~= fields_view(o0).push((fields@[i as int].name@, fields@[i as int].ty@)));
            assert(fields_view(fields@.subrange(0, i + 1)) =~= fields_view(fields@.subrange(0, i as int)).push((fields@[i as int].name@, fields@[i as int].ty@)));
            i = i + 1;
        }
        assert(fields@.subrange(0, fields@.len() as int) =~= fields@);
        ClassInfo { fields: out }
    }

    /// The position of field `name` in the instance struct.
    pub fn field_index(&self, name: &str) -> (r: Option<usize>)
        ensures
            r matches Some(i) ==> spec_field_index(self@, name@) == Some(i as int),
            r is None ==> spec_field_index(self@, name@) is None,
    {
        let mut found: Option<usize> = None;
        let mut i: usize = 0;
        while i < self.fields.len()
            invariant
                i <= self.fields@.len(),
                found matches Some(k) ==> spec_field_index(fields_view(self.fields@.subrange(0, i as int)), name@) == Some(k as int),
                found is None ==> spec_field_index(fields_view(self.fields@.subrange(0, i as int)), name@) is None,
            decreases self.fields@.len() - i,
        {
            let ghost s1 = fields_view(self.fields@.subrange(0, i + 1));
            assert(s1.drop_last() =~= fields_view(self.fields@.subrange(0, i as int)));
            assert(s1.last() == (self.fields@[i as int].name@, self.fields@[i as int].ty@));
            if str_eq(self.fields[i].name.as_str(), name) {
                found = Some(i);
            }
            i = i + 1;
        }
        assert(self.fields@.subrange(0, self.fields@.len() as int) =~= self.fields@);
        found
    }

    /// The type of field `name`.
    pub fn field_type(&self, name: &str) -> (r: Option<Type>)
        ensures
            r is Some <==> spec_field_type(self@, name@) is Some,
            r matches Some(t) ==> spec_field_type(self@, name@) == Some(t@),
    {
        match self.field_index(name) {
            Some(i) => {
                proof {
                    lemma_field_index(self@, name@);
                }
                Some(self.fields[i].ty.duplicate())
            },
            None => None,
        }
    }
}

} // verus!
