//! Symbol tables keyed by name: variables, functions and classes.
//!
//! A table is a list of entries in which no name occurs twice; inserting a
//! name that is present replaces its value, as a hash map would.

use vstd::prelude::*;
use crate::text::str_eq;

verus! {

/// One binding of a table.
pub struct Entry<V> {
    pub name: String,
    pub value: V,
}

/// A table from names to values.
pub struct SymbolTable<V> {
    entries: Vec<Entry<V>>,
}

/// The map that a list of entries denotes: a later entry for a name wins.
pub open spec fn entries_map<V: View>(s: Seq<Entry<V>>) -> Map<Seq<char>, V::V>
    decreases s.len(),
{
    if s.len() == 0 {
        Map::empty()
    } else {
        entries_map(s.drop_last()).insert(s.last().name@, s.last().value@)
    }
}

/// No name occurs twice in the list.
pub open spec fn names_distinct<V>(s: Seq<Entry<V>>) -> bool {
    forall|i: int, j: int| 0 <= i < s.len() && 0 <= j < s.len() && i != j ==> s[i].name@ != s[j].name@
}

/// Under distinct names, the map holds exactly the entries' names, each bound
/// to its entry's value.
pub proof fn lemma_entries_map<V: View>(s: Seq<Entry<V>>)
    requires
        names_distinct(s),
    ensures
        forall|k: Seq<char>| #[trigger] entries_map(s).contains_key(k) <==> exists|i: int| 0 <= i < s.len() && s[i].name@ == k,
        forall|i: int| 0 <= i < s.len() ==> #[trigger] entries_map(s)[s[i].name@] == s[i].value@,
    decreases s.len(),
{
    if s.len() > 0 {
        let p = s.drop_last();
        assert(names_distinct(p));
        lemma_entries_map(p);
        assert forall|k: Seq<char>| #[trigger] entries_map(s).contains_key(k) <==> exists|i: int| 0 <= i < s.len() && s[i].name@ == k by {
            if entries_map(s).contains_key(k) {
                if k == s.last().name@ {
                    assert(s[s.len() - 1].name@ == k);
                } else {
                    assert(entries_map(p).contains_key(k));
                    let i = choose|i: int| 0 <= i < p.len() && p[i].name@ == k;
                    assert(s[i] == p[i]);
                    assert(s[i].name@ == k);
                }
            }
            if exists|i: int| 0 <= i < s.len() && s[i].name@ == k {
                let i = choose|i: int| 0 <= i < s.len() && s[i].name@ == k;
                if i < s.len() - 1 {
                    assert(p[i] == s[i]);
                    assert(p[i].name@ == k);
                    assert(entries_map(p).contains_key(k));
                }
            }
        }
        assert forall|i: int| 0 <= i < s.len() implies #[trigger] entries_map(s)[s[i].name@] == s[i].value@ by {
            if i < s.len() - 1 {
                assert(p[i] == s[i]);
                assert(s[i].name@ != s[s.len() - 1].name@);
                assert(entries_map(p)[p[i].name@] == p[i].value@);
            }
        }
    }
}

impl<V: View> SymbolTable<V> {
    /// The names bound and their values.
    pub closed spec fn view(&self) -> Map<Seq<char>, V::V> {
        entries_map(self.entries@)
    }

    /// The table's invariant: no name occurs twice.
    pub closed spec fn wf(&self) -> bool {
        names_distinct(self.entries@)
    }

    /// An empty table.
    pub fn new() -> (t: Self)
        ensures
            t.wf(),
            t.view() == Map::<Seq<char>, V::V>::empty(),
    {
        SymbolTable { entries: Vec::new() }
    }

    /// Removes every binding.
    pub fn clear(&mut self)
        ensures
            final(self).wf(),
            final(self).view() == Map::<Seq<char>, V::V>::empty(),
    {
        self.entries = Vec::new();
    }

    fn find(&self, name: &str) -> (r: Option<usize>)
        requires
            self.wf(),
        ensures
            r matches Some(i) ==> i < self.entries@.len() && self.entries@[i as int].name@ == name@,
            r is None ==> !self.view().contains_key(name@),
    {
        proof {
            lemma_entries_map(self.entries@);
        }
        let mut i: usize = 0;
        while i < self.entries.len()
            invariant
                i <= self.entries@.len(),
                forall|j: int| 0 <= j < i ==> self.entries@[j].name@ != name@,
            decreases self.entries@.len() - i,
        {
            if str_eq(self.entries[i].name.as_str(), name) {
                return Some(i);
            }
            i = i + 1;
        }
        None
    }

    /// Whether `name` is bound.
    pub fn contains(&self, name: &str) -> (r: bool)
        requires
            self.wf(),
        ensures
            r == self.view().contains_key(name@),
    {
        proof {
            lemma_entries_map(self.entries@);
        }
        self.find(name).is_some()
    }

    /// The value bound to `name`, if any.
    pub fn get(&self, name: &str) -> (r: Option<&V>)
        requires
            self.wf(),
        ensures
            r is Some <==> self.view().contains_key(name@),
            r matches Some(v) ==> v@ == self.view()[name@],
    {
        proof {
            lemma_entries_map(self.entries@);
        }
        match self.find(name) {
            Some(i) => Some(&self.entries[i].value),
            None => None,
        }
    }

    /// Binds `name` to `value`, replacing an earlier binding of the name.
    pub fn insert(&mut self, name: String, value: V)
        requires
            old(self).wf(),
        ensures
            final(self).wf(),
            final(self).view() == old(self).view().insert(name@, value@),
    {
        let ghost k = name@;
        let ghost v = value@;
        proof {
            lemma_entries_map(self.entries@);
        }
        match self.find(name.as_str()) {
            Some(i) => {
                let ghost s0 = self.entries@;
                self.entries.set(i, Entry { name, value });
                let ghost s1 = self.entries@;
                assert(names_distinct(s1)) by {
                    assert forall|a: int, b: int| 0 <= a < s1.len() && 0 <= b < s1.len() && a != b implies s1[a].name@ != s1[b].name@ by {
                        if a != i && b != i {
                            assert(s1[a] == s0[a] && s1[b] == s0[b]);
                        } else if a == i {
                            assert(s1[b] == s0[b]);
                        } else {
                            assert(s1[a] == s0[a]);
                        }
                    }
                }
                proof {
                    lemma_entries_map(s1);
                    let m0 = entries_map(s0).insert(k, v);
                    let m1 = entries_map(s1);
                    assert forall|key: Seq<char>| #[trigger] m1.contains_key(key) <==> m0.contains_key(key) by {
                        if m1.contains_key(key) {
                            let j = choose|j: int| 0 <= j < s1.len() && s1[j].name@ == key;
                            if j != i {
                                assert(s0[j] == s1[j]);
                                assert(entries_map(s0).contains_key(key));
                            }
                        }
                        if m0.contains_key(key) {
                            if key == k {
                                assert(s1[i as int].name@ == key);
                            } else {
                                assert(entries_map(s0).contains_key(key));
                                let j = choose|j: int| 0 <= j < s0.len() && s0[j].name@ == key;
                                assert(s0[j] == s1[j]);
                                assert(s1[j].name@ == key);
                            }
                        }
                    }
                    assert forall|key: Seq<char>| m1.contains_key(key) implies #[trigger] m1[key] == m0[key] by {
                        let j = choose|j: int| 0 <= j < s1.len() && s1[j].name@ == key;
                        if j != i {
                            assert(s0[j] == s1[j]);
                            assert(m1[s1[j].name@] == s1[j].value@);
                        } else {
                            assert(m1[s1[i as int].name@] == s1[i as int].value@);
                        }
                    }
                    assert(m1 =~= m0);
                }
            },
            None => {
                let ghost s0 = self.entries@;
                self.entries.push(Entry { name, value });
                assert(self.entries@.drop_last() =~= s0);
                assert(names_distinct(self.entries@)) by {
                    assert forall|a: int, b: int| 0 <= a < self.entries@.len() && 0 <= b < self.entries@.len() && a != b implies self.entries@[a].name@ != self.entries@[b].name@ by {
                        if a < s0.len() && b < s0.len() {
                            assert(self.entries@[a] == s0[a] && self.entries@[b] == s0[b]);
                        } else if a < s0.len() {
                            assert(self.entries@[a] == s0[a]);
                            assert(entries_map(s0).contains_key(s0[a].name@));
                        } else {
                            assert(self.entries@[b] == s0[b]);
                            assert(entries_map(s0).contains_key(s0[b].name@));
                        }
                    }
                }
            },
        }
    }

    /// Removes the binding of `name`, if there is one.
    pub fn remove(&mut self, name: &str)
        requires
            old(self).wf(),
        ensures
            final(self).wf(),
            final(self).view() == old(self).view().remove(name@),
    {
        let ghost k = name@;
        proof {
            lemma_entries_map(self.entries@);
        }
        match self.find(name) {
            Some(i) => {
                let ghost s0 = self.entries@;
                self.entries.remove(i);
                let ghost s1 = self.entries@;
                assert(s1 =~= s0.remove(i as int));
                assert(names_distinct(s1)) by {
                    assert forall|a: int, b: int| 0 <= a < s1.len() && 0 <= b < s1.len() && a != b implies s1[a].name@ != s1[b].name@ by {
                        let a0 = if a < i { a } else { a + 1 };
                        let b0 = if b < i { b } else { b + 1 };
                        assert(s1[a] == s0[a0] && s1[b] == s0[b0]);
                    }
                }
                proof {
                    lemma_entries_map(s1);
                    let m0 = entries_map(s0).remove(k);
                    let m1 = entries_map(s1);
                    assert forall|key: Seq<char>| #[trigger] m1.contains_key(key) <==> m0.contains_key(key) by {
                        if m1.contains_key(key) {
                            let j = choose|j: int| 0 <= j < s1.len() && s1[j].name@ == key;
                            let j0 = if j < i { j } else { j + 1 };
                            assert(s1[j] == s0[j0]);
                            assert(entries_map(s0).contains_key(key));
                            assert(j0 != i);
                        }
                        if m0.contains_key(key) {
                            let j0 = choose|j: int| 0 <= j < s0.len() && s0[j].name@ == key;
                            assert(j0 != i);
                            let j = if j0 < i { j0 } else { j0 - 1 };
                            assert(s1[j] == s0[j0]);
                            assert(s1[j].name@ == key);
                        }
                    }
                    assert forall|key: Seq<char>| m1.contains_key(key) implies #[trigger] m1[key] == m0[key] by {
                        let j = choose|j: int| 0 <= j < s1.len() && s1[j].name@ == key;
                        let j0 = if j < i { j } else { j + 1 };
                        assert(s1[j] == s0[j0]);
                        assert(m1[s1[j].name@] == s1[j].value@);
                        assert(entries_map(s0)[s0[j0].name@] == s0[j0].value@);
                    }
                    assert(m1 =~= m0);
                }
            },
            None => {
                assert(self.view() =~= old(self).view().remove(k));
            },
        }
    }

    /// The number of names bound.
    pub fn len(&self) -> (n: usize)
        requires
            self.wf(),
        ensures
            n == self.view().dom().len(),
    {
        proof {
            lemma_entries_dom_len(self.entries@);
        }
        self.entries.len()
    }
}

/// Under distinct names, the map has as many keys as there are entries.
pub proof fn lemma_entries_dom_len<V: View>(s: Seq<Entry<V>>)
    requires
        names_distinct(s),
    ensures
        entries_map(s).dom().finite(),
        entries_map(s).dom().len() == s.len(),
    decreases s.len(),
{
    if s.len() > 0 {
        let p = s.drop_last();
        assert(names_distinct(p));
        lemma_entries_dom_len(p);
        lemma_entries_map(p);
        assert(!entries_map(p).contains_key(s.last().name@)) by {
            if entries_map(p).contains_key(s.last().name@) {
                let i = choose|i: int| 0 <= i < p.len() && p[i].name@ == s.last().name@;
                assert(s[i] == p[i]);
            }
        }
    }
}

/// Reading a name right after binding it gives the value bound.
pub proof fn law_get_after_insert<V: View>(t: Map<Seq<char>, V::V>, name: Seq<char>, value: V::V)
    ensures
        t.insert(name, value).contains_key(name),
        t.insert(name, value)[name] == value,
{
}

/// Binding a name leaves the value of every other name as it was.
pub proof fn law_insert_keeps_others<V: View>(t: Map<Seq<char>, V::V>, name: Seq<char>, value: V::V, other: Seq<char>)
    requires
        other != name,
    ensures
        t.insert(name, value).contains_key(other) == t.contains_key(other),
        t.contains_key(other) ==> t.insert(name, value)[other] == t[other],
{
}

} // verus!
