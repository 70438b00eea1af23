//! A map from names to values that keeps its entries in insertion order, so
//! that walking it is deterministic.

use vstd::prelude::*;

verus! {

/// The map that inserting the entries of `s` one after another, from the
/// first to the last, builds: a later entry replaces an earlier one of the
/// same name.
pub open spec fn table_map<V>(s: Seq<(String, V)>) -> Map<Seq<char>, V>
    decreases s.len(),
{
    if s.len() == 0 {
        Map::empty()
    } else {
        table_map(s.drop_last()).insert(s.last().0@, s.last().1)
    }
}

/// No two entries of `s` carry the same name.
pub open spec fn unique_names<V>(s: Seq<(String, V)>) -> bool {
    forall|i: int, j: int| 0 <= i < j < s.len() ==> s[i].0@ != s[j].0@
}

/// A name is a key of the built map exactly when some entry carries it.
pub proof fn lemma_table_map_keys<V>(s: Seq<(String, V)>, name: Seq<char>)
    ensures
        table_map(s).contains_key(name) <==> exists|i: int| 0 <= i < s.len() && s[i].0@ == name,
    decreases s.len(),
{
    if s.len() > 0 {
        let p = s.drop_last();
        lemma_table_map_keys(p, name);
        if table_map(s).contains_key(name) && s.last().0@ != name {
            let i = choose|i: int| 0 <= i < p.len() && p[i].0@ == name;
            assert(s[i] == p[i]);
        }
        if exists|i: int| 0 <= i < s.len() && s[i].0@ == name {
            let i = choose|i: int| 0 <= i < s.len() && s[i].0@ == name;
            if i < s.len() - 1 {
                assert(p[i] == s[i]);
            }
        }
    }
}

/// With unique names, each entry's value is what the built map holds under
/// its name.
pub proof fn lemma_table_map_entry<V>(s: Seq<(String, V)>, i: int)
    requires
        unique_names(s),
        0 <= i < s.len(),
    ensures
        table_map(s).contains_key(s[i].0@),
        table_map(s)[s[i].0@] == s[i].1,
    decreases s.len(),
{
    if i < s.len() - 1 {
        let p = s.drop_last();
        assert(p[i] == s[i]);
        lemma_table_map_entry(p, i);
    }
}

/// With unique names, replacing the value of one entry in place is an insert
/// into the built map.
pub proof fn lemma_table_map_update<V>(s: Seq<(String, V)>, i: int, e: (String, V))
    requires
        unique_names(s),
        0 <= i < s.len(),
        e.0@ == s[i].0@,
    ensures
        table_map(s.update(i, e)) == table_map(s).insert(e.0@, e.1),
    decreases s.len(),
{
    let t = s.update(i, e);
    if i == s.len() - 1 {
        assert(t.drop_last() =~= s.drop_last());
    } else {
        let p = s.drop_last();
        assert(t.drop_last() =~= p.update(i, e));
        lemma_table_map_update(p, i, e);
        assert(s.last().0@ != e.0@);
        assert(table_map(t) =~= table_map(s).insert(e.0@, e.1));
    }
}

/// The entries of `s` with each name as its view.
pub open spec fn keyed_entries<V>(s: Seq<(String, V)>) -> Seq<(Seq<char>, V)> {
    s.map_values(|e: (String, V)| (e.0@, e.1))
}

/// No two entries of `s` carry the same name.
pub open spec fn unique_keys<V>(s: Seq<(Seq<char>, V)>) -> bool {
    forall|i: int, j: int| 0 <= i < j < s.len() ==> s[i].0 != s[j].0
}

pub proof fn lemma_keyed_unique<V>(s: Seq<(String, V)>)
    requires
        unique_names(s),
    ensures
        unique_keys(keyed_entries(s)),
{
    assert forall|i: int, j: int| 0 <= i < j < keyed_entries(s).len() implies keyed_entries(s)[i].0
        != keyed_entries(s)[j].0 by {
        assert(s[i].0@ != s[j].0@);
    }
}

/// The entry sequence after setting `value` under `name`: an entry that
/// already carries `name` takes the value in place, otherwise a new entry goes
/// last.
pub open spec fn keyed_insert<V>(t: Seq<(Seq<char>, V)>, name: Seq<char>, value: V) -> Seq<
    (Seq<char>, V),
> {
    if exists|i: int| 0 <= i < t.len() && t[i].0 == name {
        let i = choose|i: int| 0 <= i < t.len() && t[i].0 == name;
        t.update(i, (name, value))
    } else {
        t.push((name, value))
    }
}

pub struct NameTable<V> {
    entries: Vec<(String, V)>,
}

impl<V> NameTable<V> {
    /// The entries, in the order in which their names were first inserted.
    pub closed spec fn entries(&self) -> Seq<(String, V)> {
        self.entries@
    }

    pub open spec fn view(&self) -> Map<Seq<char>, V> {
        table_map(self.entries())
    }

    pub open spec fn wf(&self) -> bool {
        unique_names(self.entries())
    }

    /// The entries, in order, with each name as its view.
    pub open spec fn keyed(&self) -> Seq<(Seq<char>, V)> {
        keyed_entries(self.entries())
    }

    pub fn new() -> (r: Self)
        ensures
            r.entries() == Seq::<(String, V)>::empty(),
            r.wf(),
    {
        NameTable { entries: Vec::new() }
    }

    pub fn len(&self) -> (r: usize)
        ensures
            r == self.entries().len(),
    {
        self.entries.len()
    }

    pub fn entry(&self, i: usize) -> (r: &(String, V))
        requires
            i < self.entries().len(),
        ensures
            *r == self.entries()[i as int],
    {
        &self.entries[i]
    }

    /// Position of the entry that carries `name`, if any.
    pub fn find(&self, name: &String) -> (r: Option<usize>)
        ensures
            match r {
                Some(i) => i < self.entries().len() && self.entries()[i as int].0@ == name@,
                None => forall|i: int|
                    0 <= i < self.entries().len() ==> self.entries()[i].0@ != name@,
            },
    {
        let mut i: usize = 0;
        while i < self.entries.len()
            invariant
                i <= self.entries@.len(),
                forall|k: int| 0 <= k < i ==> self.entries@[k].0@ != name@,
            decreases self.entries@.len() - i,
        {
            if self.entries[i].0 == *name {
                return Some(i);
            }
            i = i + 1;
        }
        None
    }

    pub fn get(&self, name: &String) -> (r: Option<&V>)
        requires
            self.wf(),
        ensures
            match r {
                Some(v) => self@.contains_key(name@) && *v == self@[name@],
                None => !self@.contains_key(name@),
            },
    {
        proof {
            lemma_table_map_keys(self.entries(), name@);
        }
        match self.find(name) {
            Some(i) => {
                proof {
                    lemma_table_map_entry(self.entries(), i as int);
                }
                Some(&self.entries[i].1)
            },
            None => None,
        }
    }

    /// Sets the value under `name`: an existing entry keeps its place, a new
    /// name goes last.
    pub fn insert(&mut self, name: String, value: V)
        requires
            old(self).wf(),
        ensures
            final(self).wf(),
            final(self)@ == old(self)@.insert(name@, value),
            final(self).keyed() == keyed_insert(old(self).keyed(), name@, value),
            old(self)@.contains_key(name@) ==> final(self).entries().len() == old(self).entries().len(),
            !old(self)@.contains_key(name@) ==> final(self).entries() == old(self).entries().push(
                (name, value),
            ),
    {
        proof {
            lemma_table_map_keys(self.entries(), name@);
        }
        match self.find(&name) {
            Some(i) => {
                proof {
                    lemma_table_map_update(self.entries(), i as int, (name, value));
                }
                let ghost k = old(self).keyed();
                let ghost nm = name@;
                self.entries.set(i, (name, value));
                proof {
                    assert(k[i as int].0 == nm);
                    let j = choose|j: int| 0 <= j < k.len() && k[j].0 == nm;
                    assert(j == i) by {
                        if j < i {
                            assert(old(self).entries()[j].0@ != old(self).entries()[i as int].0@);
                        } else if j > i {
                            assert(old(self).entries()[i as int].0@ != old(self).entries()[j].0@);
                        }
                    }
                    assert(self.keyed() =~= keyed_insert(k, nm, value));
                }
                assert(unique_names(self.entries())) by {
                    assert forall|a: int, b: int|
                        0 <= a < b < self.entries@.len() implies self.entries@[a].0@
                        != self.entries@[b].0@ by {
                        assert(old(self).entries@[i as int].0@ == name@);
                    }
                }
            },
            None => {
                let ghost s = self.entries@;
                let ghost nm = name@;
                self.entries.push((name, value));
                assert(self.entries@.drop_last() =~= s);
                proof {
                    let k = old(self).keyed();
                    if exists|j: int| 0 <= j < k.len() && k[j].0 == nm {
                        let j = choose|j: int| 0 <= j < k.len() && k[j].0 == nm;
                        assert(old(self).entries()[j].0@ == nm);
                    }
                    assert(self.keyed() =~= keyed_insert(k, nm, value));
                }
            },
        }
    }
}

} // verus!
