//! Name-keyed tables: variable storage and the label table. Both are
//! association vectors with unique names, seen in contracts as a `Map`
//! from character sequences to their contents.

use vstd::prelude::*;
use crate::text::str_eq;
use crate::value::{SpecValue, Value};

verus! {

pub open spec fn var_map_of(s: Seq<(String, Value)>) -> Map<Seq<char>, SpecValue>
    decreases s.len(),
{
    if s.len() == 0 {
        Map::empty()
    } else {
        var_map_of(s.drop_last()).insert(s.last().0@, s.last().1@)
    }
}

pub open spec fn unique_var_names(s: Seq<(String, Value)>) -> bool {
    forall|i: int, j: int| 0 <= i < j < s.len() ==> s[i].0@ != s[j].0@
}

proof fn lemma_var_absent(s: Seq<(String, Value)>, k: Seq<char>)
    requires
        forall|i: int| 0 <= i < s.len() ==> s[i].0@ != k,
    ensures
        !var_map_of(s).contains_key(k),
    decreases s.len(),
{
    if s.len() > 0 {
        lemma_var_absent(s.drop_last(), k);
    }
}

proof fn lemma_var_get(s: Seq<(String, Value)>, i: int)
    requires
        unique_var_names(s),
        0 <= i < s.len(),
    ensures
        var_map_of(s).contains_key(s[i].0@),
        var_map_of(s)[s[i].0@] == s[i].1@,
    decreases s.len(),
{
    if i < s.len() - 1 {
        lemma_var_get(s.drop_last(), i);
    }
}

proof fn lemma_var_update(s: Seq<(String, Value)>, i: int, e: (String, Value))
    requires
        unique_var_names(s),
        0 <= i < s.len(),
        e.0@ == s[i].0@,
    ensures
        var_map_of(s.update(i, e)) =~= var_map_of(s).insert(e.0@, e.1@),
    decreases s.len(),
{
    let t = s.update(i, e);
    if i == s.len() - 1 {
        assert(t.drop_last() =~= s.drop_last());
    } else {
        assert(t.drop_last() =~= s.drop_last().update(i, e));
        lemma_var_update(s.drop_last(), i, e);
        assert(t.last() == s.last());
        assert(s.last().0@ != e.0@);
    }
}

/// Variable storage: maps a name to the value last assigned to it.
pub struct VarTable {
    entries: Vec<(String, Value)>,
}

impl View for VarTable {
    type V = Map<Seq<char>, SpecValue>;

    closed spec fn view(&self) -> Map<Seq<char>, SpecValue> {
        var_map_of(self.entries@)
    }
}

impl VarTable {
    /// The table's names are pairwise distinct.
    pub closed spec fn wf(&self) -> bool {
        unique_var_names(self.entries@)
    }

    pub fn new() -> (t: Self)
        ensures
            t@ == Map::<Seq<char>, SpecValue>::empty(),
            t.wf(),
    {
        VarTable { entries: Vec::new() }
    }

    /// The value stored under `name`, if any was put there.
    pub fn get(&self, name: &str) -> (r: Option<&Value>)
        requires
            self.wf(),
        ensures
            match r {
                Some(v) => self@.contains_key(name@) && v@ == self@[name@],
                None => !self@.contains_key(name@),
            },
    {
        let n = self.entries.len();
        for i in 0..n
            invariant
                n == self.entries@.len(),
                unique_var_names(self.entries@),
                self@ == var_map_of(self.entries@),
                forall|j: int| 0 <= j < i ==> self.entries@[j].0@ != name@,
        {
            if str_eq(self.entries[i].0.as_str(), name) {
                proof {
                    lemma_var_get(self.entries@, i as int);
                }
                return Some(&self.entries[i].1);
            }
        }
        proof {
            lemma_var_absent(self.entries@, name@);
        }
        None
    }

    /// Stores `value` under `name`, replacing what was there.
    pub fn put(&mut self, name: String, value: Value)
        requires
            old(self).wf(),
        ensures
            final(self)@ == old(self)@.insert(name@, value@),
            final(self).wf(),
    {
        let n = self.entries.len();
        for i in 0..n
            invariant
                n == self.entries@.len(),
                unique_var_names(self.entries@),
                self@ == var_map_of(self.entries@),
                *self == *old(self),
                forall|j: int| 0 <= j < i ==> self.entries@[j].0@ != name@,
        {
            if str_eq(self.entries[i].0.as_str(), name.as_str()) {
                proof {
                    lemma_var_update(self.entries@, i as int, (name, value));
                }
                self.entries.set(i, (name, value));
                return ;
            }
        }
        proof {
            lemma_var_absent(self.entries@, name@);
            assert(self.entries@.push((name, value)).drop_last() =~= self.entries@);
        }
        self.entries.push((name, value));
    }
}

pub open spec fn label_map_of(s: Seq<(String, usize)>) -> Map<Seq<char>, int>
    decreases s.len(),
{
    if s.len() == 0 {
        Map::empty()
    } else {
        label_map_of(s.drop_last()).insert(s.last().0@, s.last().1 as int)
    }
}

pub open spec fn unique_label_names(s: Seq<(String, usize)>) -> bool {
    forall|i: int, j: int| 0 <= i < j < s.len() ==> s[i].0@ != s[j].0@
}

proof fn lemma_label_absent(s: Seq<(String, usize)>, k: Seq<char>)
    requires
        forall|i: int| 0 <= i < s.len() ==> s[i].0@ != k,
    ensures
        !label_map_of(s).contains_key(k),
    decreases s.len(),
{
    if s.len() > 0 {
        lemma_label_absent(s.drop_last(), k);
    }
}

proof fn lemma_label_get(s: Seq<(String, usize)>, i: int)
    requires
        unique_label_names(s),
        0 <= i < s.len(),
    ensures
        label_map_of(s).contains_key(s[i].0@),
        label_map_of(s)[s[i].0@] == s[i].1 as int,
    decreases s.len(),
{
    if i < s.len() - 1 {
        lemma_label_get(s.drop_last(), i);
    }
}

proof fn lemma_label_update(s: Seq<(String, usize)>, i: int, e: (String, usize))
    requires
        unique_label_names(s),
        0 <= i < s.len(),
        e.0@ == s[i].0@,
    ensures
        label_map_of(s.update(i, e)) =~= label_map_of(s).insert(e.0@, e.1 as int),
    decreases s.len(),
{
    let t = s.update(i, e);
    if i == s.len() - 1 {
        assert(t.drop_last() =~= s.drop_last());
    } else {
        assert(t.drop_last() =~= s.drop_last().update(i, e));
        lemma_label_update(s.drop_last(), i, e);
        assert(t.last() == s.last());
        assert(s.last().0@ != e.0@);
    }
}

/// The label table: maps a label name to the index of the statement the
/// label stood before. A later definition of the same name overwrites the
/// earlier one.
pub struct LabelTable {
    entries: Vec<(String, usize)>,
}

impl View for LabelTable {
    type V = Map<Seq<char>, int>;

    closed spec fn view(&self) -> Map<Seq<char>, int> {
        label_map_of(self.entries@)
    }
}

impl LabelTable {
    /// The table's names are pairwise distinct.
    pub closed spec fn wf(&self) -> bool {
        unique_label_names(self.entries@)
    }

    pub fn new() -> (t: Self)
        ensures
            t@ == Map::<Seq<char>, int>::empty(),
            t.wf(),
    {
        LabelTable { entries: Vec::new() }
    }

    /// The statement index bound to `name`, if the label was defined.
    pub fn get(&self, name: &str) -> (r: Option<usize>)
        requires
            self.wf(),
        ensures
            match r {
                Some(ix) => self@.contains_key(name@) && ix as int == self@[name@],
                None => !self@.contains_key(name@),
            },
    {
        let n = self.entries.len();
        for i in 0..n
            invariant
                n == self.entries@.len(),
                unique_label_names(self.entries@),
                self@ == label_map_of(self.entries@),
                forall|j: int| 0 <= j < i ==> self.entries@[j].0@ != name@,
        {
            if str_eq(self.entries[i].0.as_str(), name) {
                proof {
                    lemma_label_get(self.entries@, i as int);
                }
                return Some(self.entries[i].1);
            }
        }
        proof {
            lemma_label_absent(self.entries@, name@);
        }
        None
    }

    /// Binds `name` to `position`, replacing an earlier binding.
    pub fn put(&mut self, name: String, position: usize)
        requires
            old(self).wf(),
        ensures
            final(self)@ == old(self)@.insert(name@, position as int),
            final(self).wf(),
    {
        let n = self.entries.len();
        for i in 0..n
            invariant
                n == self.entries@.len(),
                unique_label_names(self.entries@),
                self@ == label_map_of(self.entries@),
                *self == *old(self),
                forall|j: int| 0 <= j < i ==> self.entries@[j].0@ != name@,
        {
            if str_eq(self.entries[i].0.as_str(), name.as_str()) {
                proof {
                    lemma_label_update(self.entries@, i as int, (name, position));
                }
                self.entries.set(i, (name, position));
                return ;
            }
        }
        proof {
            lemma_label_absent(self.entries@, name@);
            assert(self.entries@.push((name, position)).drop_last() =~= self.entries@);
        }
        self.entries.push((name, position));
    }
}

} // verus!
