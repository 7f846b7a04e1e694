//! Sets and tables of which the keys are strings.

use vstd::prelude::*;
use vstd::string::*;

use crate::text::{clone_strings, str_eq};

verus! {

/// A set of names. Each name is held once; the order is that of insertion.
#[derive(Debug)]
pub struct NameSet {
    items: Vec<String>,
}

impl View for NameSet {
    type V = Set<Seq<char>>;

    closed spec fn view(&self) -> Set<Seq<char>> {
        Set::new(|t: Seq<char>| exists|i: int| 0 <= i < self.items@.len() && (#[trigger] self.items@[i])@ == t)
    }
}

/// `v` holds each name of `s` once and nothing else.
pub open spec fn lists(v: Seq<String>, s: Set<Seq<char>>) -> bool {
    &&& forall|i: int, j: int| 0 <= i < j < v.len() ==> (#[trigger] v[i])@ != (#[trigger] v[j])@
    &&& forall|i: int| 0 <= i < v.len() ==> s.contains((#[trigger] v[i])@)
    &&& forall|t: Seq<char>| #[trigger]
        s.contains(t) ==> exists|i: int| 0 <= i < v.len() && (#[trigger] v[i])@ == t
}

impl NameSet {
    /// No name is held twice.
    pub closed spec fn wf(&self) -> bool {
        forall|i: int, j: int|
            0 <= i < j < self.items@.len() ==> (#[trigger] self.items@[i])@ != (
            #[trigger] self.items@[j])@
    }

    /// The empty set.
    pub fn new() -> (r: Self)
        ensures
            r.wf(),
            r@ == Set::<Seq<char>>::empty(),
    {
        NameSet { items: Vec::new() }
    }

    fn position(&self, name: &str) -> (r: Option<usize>)
        ensures
            match r {
                Some(i) => i < self.items@.len() && self.items@[i as int]@ == name@,
                None => forall|i: int| 0 <= i < self.items@.len() ==> (#[trigger] self.items@[i])@ != name@,
            },
    {
        let mut i: usize = 0;
        while i < self.items.len()
            invariant
                i <= self.items@.len(),
                forall|j: int| 0 <= j < i ==> (#[trigger] self.items@[j])@ != name@,
            decreases self.items@.len() - i,
        {
            if str_eq(self.items[i].as_str(), name) {
                return Some(i);
            }
            i += 1;
        }
        None
    }

    /// The set holds `name`.
    pub fn contains(&self, name: &str) -> (r: bool)
        ensures
            r == self@.contains(name@),
    {
        match self.position(name) {
            Some(i) => {
                assert(self.items@[i as int]@ == name@);
                true
            },
            None => false,
        }
    }

    /// Adds a name; true where it was not there yet.
    pub fn insert(&mut self, name: String) -> (r: bool)
        requires
            old(self).wf(),
        ensures
            final(self).wf(),
            final(self)@ == old(self)@.insert(name@),
            r == !old(self)@.contains(name@),
    {
        if self.contains(name.as_str()) {
            assert(self@ =~= old(self)@.insert(name@));
            return false;
        }
        let ghost before = self.items@;
        let ghost added = name;
        self.items.push(name);
        proof {
            assert forall|t: Seq<char>| #[trigger]
                self@.contains(t) == old(self)@.insert(added@).contains(t) by {
                if old(self)@.contains(t) {
                    let i = choose|i: int| 0 <= i < before.len() && (#[trigger] before[i])@ == t;
                    assert(self.items@[i]@ == t);
                }
                if t == added@ {
                    assert(self.items@[before.len() as int]@ == t);
                }
                if self@.contains(t) {
                    let i = choose|i: int|
                        0 <= i < self.items@.len() && (#[trigger] self.items@[i])@ == t;
                    if i < before.len() {
                        assert(before[i]@ == t);
                    }
                }
            }
            assert(self@ =~= old(self)@.insert(added@));
            assert forall|i: int, j: int| 0 <= i < j < self.items@.len() implies (
            #[trigger] self.items@[i])@ != (#[trigger] self.items@[j])@ by {
                if j == before.len() {
                    assert(before[i]@ != added@) by {
                        assert(old(self)@.contains(before[i]@));
                    }
                } else {
                    assert(before[i]@ != before[j]@);
                }
            }
        }
        true
    }

    /// Drops a name; true where it was there.
    pub fn remove(&mut self, name: &str) -> (r: bool)
        requires
            old(self).wf(),
        ensures
            final(self).wf(),
            final(self)@ == old(self)@.remove(name@),
            r == old(self)@.contains(name@),
    {
        let ghost before = self.items@;
        match self.position(name) {
            Some(i) => {
                assert(old(self)@.contains(before[i as int]@));
                self.items.remove(i);
                proof {
                    let after = self.items@;
                    assert forall|k: int| 0 <= k < after.len() implies #[trigger] after[k]
                        == before[if k < i {
                        k
                    } else {
                        k + 1
                    }] by {}
                    assert forall|t: Seq<char>| #[trigger]
                        self@.contains(t) == old(self)@.remove(name@).contains(t) by {
                        if old(self)@.remove(name@).contains(t) {
                            let k = choose|k: int|
                                0 <= k < before.len() && (#[trigger] before[k])@ == t;
                            let m = if k < i {
                                k
                            } else {
                                k - 1
                            };
                            assert(after[m]@ == t);
                        }
                        if self@.contains(t) {
                            let k = choose|k: int|
                                0 <= k < after.len() && (#[trigger] after[k])@ == t;
                            let m = if k < i {
                                k
                            } else {
                                k + 1
                            };
                            assert(before[m]@ == t);
                            assert(before[m]@ != before[i as int]@);
                        }
                    }
                    assert(self@ =~= old(self)@.remove(name@));
                }
                true
            },
            None => {
                assert(self@ =~= old(self)@.remove(name@));
                false
            },
        }
    }

    /// The names, each once.
    pub fn to_vec(&self) -> (r: Vec<String>)
        requires
            self.wf(),
        ensures
            lists(r@, self@),
    {
        let r = clone_strings(&self.items);
        proof {
            assert forall|i: int| 0 <= i < r@.len() implies self@.contains((#[trigger] r@[i])@) by {
                assert(self.items@[i]@ == r@[i]@);
            }
        }
        r
    }
}

/// A table from names to values.
pub struct NameTable<T> {
    entries: Vec<(String, T)>,
}

/// The entry at a position of a list has the given name.
pub open spec fn named<T>(s: Seq<(String, T)>, i: int, name: Seq<char>) -> bool {
    0 <= i < s.len() && s[i].0@ == name
}

/// No two entries have one name.
pub open spec fn distinct_names<T>(s: Seq<(String, T)>) -> bool {
    forall|i: int, j: int|
        0 <= i < j < s.len() ==> (#[trigger] s[i]).0@ != (#[trigger] s[j]).0@
}

/// The map that a list of entries stands for.
pub open spec fn table_of<T>(s: Seq<(String, T)>) -> Map<Seq<char>, T> {
    Map::new(
        |name: Seq<char>| exists|i: int| #[trigger] named(s, i, name),
        |name: Seq<char>| s[choose|i: int| #[trigger] named(s, i, name)].1,
    )
}

/// Where names are distinct, each entry is what the map holds under its name.
pub proof fn lemma_table_entry<T>(s: Seq<(String, T)>, i: int)
    requires
        distinct_names(s),
        0 <= i < s.len(),
    ensures
        table_of(s).contains_key(s[i].0@),
        table_of(s)[s[i].0@] == s[i].1,
{
    assert(named(s, i, s[i].0@));
    let k = choose|k: int| #[trigger] named(s, k, s[i].0@);
    assert(named(s, k, s[i].0@));
    if k < i {
        assert(s[k].0@ != s[i].0@);
    }
    if i < k {
        assert(s[i].0@ != s[k].0@);
    }
}

impl<T> View for NameTable<T> {
    type V = Map<Seq<char>, T>;

    closed spec fn view(&self) -> Map<Seq<char>, T> {
        table_of(self.entries@)
    }
}

impl<T> NameTable<T> {
    /// No name is held twice.
    pub closed spec fn wf(&self) -> bool {
        distinct_names(self.entries@)
    }

    /// The empty table.
    pub fn new() -> (r: Self)
        ensures
            r.wf(),
            r@ == Map::<Seq<char>, T>::empty(),
    {
        let r: NameTable<T> = NameTable { entries: Vec::new() };
        assert(r@ =~= Map::empty());
        r
    }

    fn position(&self, name: &str) -> (r: Option<usize>)
        ensures
            match r {
                Some(i) => named(self.entries@, i as int, name@),
                None => forall|i: int| !named(self.entries@, i, name@),
            },
    {
        let mut i: usize = 0;
        while i < self.entries.len()
            invariant
                i <= self.entries@.len(),
                forall|j: int| j < i ==> !named(self.entries@, j, name@),
            decreases self.entries@.len() - i,
        {
            if str_eq(self.entries[i].0.as_str(), name) {
                return Some(i);
            }
            i += 1;
        }
        None
    }

    /// The table has an entry under `name`.
    pub fn contains(&self, name: &str) -> (r: bool)
        ensures
            r == self@.contains_key(name@),
    {
        self.position(name).is_some()
    }

    /// The number of entries.
    pub fn len(&self) -> (r: usize)
        requires
            self.wf(),
        ensures
            r == self@.dom().len(),
    {
        proof {
            let names = self.entries@.map_values(|e: (String, T)| e.0@);
            assert forall|i: int, j: int|
                0 <= i < names.len() && 0 <= j < names.len() && i != j implies names[i]
                != names[j] by {
                if i < j {
                    assert(self.entries@[i].0@ != self.entries@[j].0@);
                } else {
                    assert(self.entries@[j].0@ != self.entries@[i].0@);
                }
            }
            assert forall|t: Seq<char>| #[trigger]
                names.to_set().contains(t) == self@.dom().contains(t) by {
                if names.to_set().contains(t) {
                    let i = choose|i: int| 0 <= i < names.len() && names[i] == t;
                    assert(named(self.entries@, i, t));
                }
                if self@.dom().contains(t) {
                    let i = choose|i: int| #[trigger] named(self.entries@, i, t);
                    assert(names[i] == t);
                }
            }
            assert(names.to_set() =~= self@.dom());
            names.unique_seq_to_set();
        }
        self.entries.len()
    }

    /// The value under `name`.
    pub fn get(&self, name: &str) -> (r: Option<&T>)
        requires
            self.wf(),
        ensures
            match r {
                Some(v) => self@.contains_key(name@) && *v == self@[name@],
                None => !self@.contains_key(name@),
            },
    {
        match self.position(name) {
            Some(i) => {
                proof {
                    lemma_table_entry(self.entries@, i as int);
                }
                Some(&self.entries[i].1)
            },
            None => None,
        }
    }

    /// Takes the entry under `name` out of the table.
    pub fn remove(&mut self, name: &str) -> (r: Option<T>)
        requires
            old(self).wf(),
        ensures
            final(self).wf(),
            final(self)@ == old(self)@.remove(name@),
            match r {
                Some(v) => old(self)@.contains_key(name@) && v == old(self)@[name@],
                None => !old(self)@.contains_key(name@),
            },
    {
        let ghost before = self.entries@;
        match self.position(name) {
            Some(i) => {
                proof {
                    lemma_table_entry(before, i as int);
                }
                let entry = self.entries.remove(i);
                proof {
                    let after = self.entries@;
                    assert forall|k: int| 0 <= k < after.len() implies #[trigger] after[k]
                        == before[if k < i {
                        k
                    } else {
                        k + 1
                    }] by {}
                    assert(distinct_names(after));
                    assert forall|t: Seq<char>| true implies {
                        &&& self@.contains_key(t) == #[trigger] old(self)@.remove(
                            name@,
                        ).contains_key(t)
                        &&& self@.contains_key(t) ==> self@[t] == old(self)@.remove(name@)[t]
                    } by {
                        if old(self)@.remove(name@).contains_key(t) {
                            let k = choose|k: int| #[trigger] named(before, k, t);
                            let m = if k < i {
                                k
                            } else {
                                k - 1
                            };
                            assert(named(after, m, t));
                            lemma_table_entry(before, k);
                            lemma_table_entry(after, m);
                        }
                        if self@.contains_key(t) {
                            let k = choose|k: int| #[trigger] named(after, k, t);
                            let m = if k < i {
                                k
                            } else {
                                k + 1
                            };
                            assert(named(before, m, t));
                            assert(before[m].0@ != before[i as int].0@);
                        }
                    }
                    assert(self@ =~= old(self)@.remove(name@));
                }
                Some(entry.1)
            },
            None => {
                assert(self@ =~= old(self)@.remove(name@));
                None
            },
        }
    }

    /// Puts a value under `name` and hands back the one that it displaced.
    pub fn insert(&mut self, name: String, value: T) -> (r: Option<T>)
        requires
            old(self).wf(),
        ensures
            final(self).wf(),
            final(self)@ == old(self)@.insert(name@, value),
            match r {
                Some(v) => old(self)@.contains_key(name@) && v == old(self)@[name@],
                None => !old(self)@.contains_key(name@),
            },
    {
        let displaced = self.remove(name.as_str());
        let ghost before = self.entries@;
        let ghost added = name@;
        self.entries.push((name, value));
        proof {
            let after = self.entries@;
            assert forall|i: int, j: int| 0 <= i < j < after.len() implies (
            #[trigger] after[i]).0@ != (#[trigger] after[j]).0@ by {
                if j == before.len() {
                    assert(!table_of(before).contains_key(added));
                    assert(!named(before, i, added));
                } else {
                    assert(before[i].0@ != before[j].0@);
                }
            }
            assert forall|t: Seq<char>| true implies {
                &&& self@.contains_key(t) == #[trigger] old(self)@.insert(added, value).contains_key(t)
                &&& self@.contains_key(t) ==> self@[t] == old(self)@.insert(added, value)[t]
            } by {
                if t == added {
                    assert(named(after, before.len() as int, t));
                    lemma_table_entry(after, before.len() as int);
                } else {
                    if table_of(before).contains_key(t) {
                        let k = choose|k: int| #[trigger] named(before, k, t);
                        assert(named(after, k, t));
                        lemma_table_entry(before, k);
                        lemma_table_entry(after, k);
                    }
                    if self@.contains_key(t) {
                        let k = choose|k: int| #[trigger] named(after, k, t);
                        assert(named(before, k, t));
                    }
                }
            }
            assert(self@ =~= old(self)@.insert(added, value));
        }
        displaced
    }

    /// Empties the table and hands out what it held.
    pub fn drain(&mut self) -> (r: Vec<(String, T)>)
        requires
            old(self).wf(),
        ensures
            final(self).wf(),
            final(self)@ == Map::<Seq<char>, T>::empty(),
            distinct_names(r@),
            table_of(r@) == old(self)@,
    {
        let mut held: Vec<(String, T)> = Vec::new();
        std::mem::swap(&mut held, &mut self.entries);
        assert(self@ =~= Map::empty());
        held
    }
}

} // verus!
