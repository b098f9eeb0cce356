//! A map from names to values, kept as a list of entries with distinct names.
use vstd::prelude::*;

verus! {

/// The map that a list of (name, value) entries stands for; a later entry wins.
pub open spec fn map_of_entries<V>(s: Seq<(String, V)>) -> Map<Seq<char>, V>
    decreases s.len(),
{
    if s.len() == 0 {
        Map::empty()
    } else {
        map_of_entries(s.drop_last()).insert(s.last().0@, s.last().1)
    }
}

/// No two entries share a name.
pub open spec fn names_distinct<V>(s: Seq<(String, V)>) -> bool {
    forall|i: int, j: int| 0 <= i < j < s.len() ==> s[i].0@ != s[j].0@
}

/// With distinct names, the map holds exactly the entries of the list.
pub proof fn lemma_map_of_entries<V>(s: Seq<(String, V)>)
    requires
        names_distinct(s),
    ensures
        forall|k: Seq<char>| #[trigger]
            map_of_entries(s).contains_key(k) <==> exists|i: int| 0 <= i < s.len() && s[i].0@ == k,
        forall|i: int|
            0 <= i < s.len() ==> #[trigger] map_of_entries(s)[s[i].0@] == s[i].1,
        map_of_entries(s).dom().finite(),
        map_of_entries(s).dom().len() == s.len(),
    decreases s.len(),
{
    if s.len() > 0 {
        let t = s.drop_last();
        assert(names_distinct(t));
        lemma_map_of_entries(t);
        let k = s.last().0@;
        assert(!map_of_entries(t).contains_key(k)) by {
            if map_of_entries(t).contains_key(k) {
                let i = choose|i: int| 0 <= i < t.len() && t[i].0@ == k;
                assert(s[i].0@ == s[s.len() - 1].0@);
            }
        }
        assert forall|k2: Seq<char>| #[trigger]
            map_of_entries(s).contains_key(k2) <==> exists|i: int|
                0 <= i < s.len() && s[i].0@ == k2 by {
            if map_of_entries(t).contains_key(k2) {
                let i = choose|i: int| 0 <= i < t.len() && t[i].0@ == k2;
                assert(s[i].0@ == k2);
            }
            if exists|i: int| 0 <= i < s.len() && s[i].0@ == k2 {
                let i = choose|i: int| 0 <= i < s.len() && s[i].0@ == k2;
                if i < s.len() - 1 {
                    assert(t[i].0@ == k2);
                }
            }
        }
        assert forall|i: int| 0 <= i < s.len() implies #[trigger] map_of_entries(s)[s[i].0@]
            == s[i].1 by {
            if i < s.len() - 1 {
                assert(t[i] == s[i]);
                assert(s[i].0@ != k);
            }
        }
    }
}

/// A map from names to values. Lookups compare names exactly.
#[derive(Debug, PartialEq, Eq)]
pub struct NameMap<V> {
    entries: Vec<(String, V)>,
}

impl<V> View for NameMap<V> {
    type V = Map<Seq<char>, V>;

    closed spec fn view(&self) -> Map<Seq<char>, V> {
        map_of_entries(self.entries@)
    }
}

impl<V> NameMap<V> {
    #[verifier::type_invariant]
    closed spec fn well_formed(self) -> bool {
        names_distinct(self.entries@)
    }

    /// The entries in the order in which their names were first inserted.
    pub closed spec fn entry_seq(self) -> Seq<(String, V)> {
        self.entries@
    }

    pub fn new() -> (r: NameMap<V>)
        ensures
            r@ == Map::<Seq<char>, V>::empty(),
            r.entry_seq().len() == 0,
    {
        NameMap { entries: Vec::new() }
    }

    /// The position of the entry named `name`, if there is one.
    fn position(&self, name: &String) -> (r: Option<usize>)
        ensures
            match r {
                Some(i) => i < self.entries@.len() && self.entries@[i as int].0@ == name@,
                None => forall|i: int| 0 <= i < self.entries@.len() ==> self.entries@[i].0@ != name@,
            },
    {
        let mut i: usize = 0;
        while i < self.entries.len()
            invariant
                i <= self.entries@.len(),
                forall|j: int| 0 <= j < i ==> self.entries@[j].0@ != name@,
            decreases self.entries@.len() - i,
        {
            if self.entries[i].0 == *name {
                return Some(i);
            }
            i = i + 1;
        }
        None
    }

    /// Maps `name` to `value`, replacing the value that `name` had.
    pub fn insert(&mut self, name: String, value: V)
        ensures
            final(self)@ == old(self)@.insert(name@, value),
    {
        proof {
            use_type_invariant(&*self);
            lemma_map_of_entries(self.entries@);
        }
        let ghost n = name@;
        match self.position(&name) {
            Some(i) => {
                let ghost before = self.entries@;
                let mut entries: Vec<(String, V)> = Vec::new();
                std::mem::swap(&mut self.entries, &mut entries);
                entries.set(i, (name, value));
                let ghost after = entries@;
                proof {
                    assert(names_distinct(after)) by {
                        assert forall|a: int, b: int| 0 <= a < b < after.len() implies after[a].0@
                            != after[b].0@ by {
                            if a != i && b != i {
                                assert(after[a] == before[a] && after[b] == before[b]);
                            } else if a == i {
                                assert(after[b] == before[b]);
                            } else {
                                assert(after[a] == before[a]);
                            }
                        }
                    }
                    lemma_map_of_entries(after);
                }
                std::mem::swap(&mut self.entries, &mut entries);
                proof {
                    assert(self@ =~= old(self)@.insert(name@, value)) by {
                        assert forall|k: Seq<char>| #[trigger] self@.contains_key(k) implies old(
                            self,
                        )@.insert(name@, value).contains_key(k) by {
                            let j = choose|j: int| 0 <= j < after.len() && after[j].0@ == k;
                            if j != i {
                                assert(before[j] == after[j]);
                            }
                        }
                        assert forall|k: Seq<char>| #[trigger] old(self)@.insert(
                            name@,
                            value,
                        ).contains_key(k) implies self@.contains_key(k) by {
                            if k != name@ {
                                let j = choose|j: int| 0 <= j < before.len() && before[j].0@ == k;
                                assert(after[j] == before[j]);
                            } else {
                                assert(after[i as int].0@ == k);
                            }
                        }
                        assert forall|k: Seq<char>| #[trigger] self@.contains_key(k) implies self@[k]
                            == old(self)@.insert(name@, value)[k] by {
                            let j = choose|j: int| 0 <= j < after.len() && after[j].0@ == k;
                            assert(self@[after[j].0@] == after[j].1);
                            if j != i {
                                assert(before[j] == after[j]);
                                assert(old(self)@[before[j].0@] == before[j].1);
                            }
                        }
                    }
                }
            },
            None => {
                assert(forall|j: int|
                    0 <= j < old(self).entries@.len() ==> old(self).entries@[j].0@ != n);
                let mut entries: Vec<(String, V)> = Vec::new();
                std::mem::swap(&mut self.entries, &mut entries);
                entries.push((name, value));
                proof {
                    let prev = entries@.drop_last();
                    assert(prev =~= old(self).entries@);
                    assert forall|a: int, b: int| 0 <= a < b < entries@.len() implies entries@[a].0@
                        != entries@[b].0@ by {
                        if b == entries@.len() - 1 {
                            assert(prev[a].0@ != n);
                        } else {
                            assert(prev[a] == entries@[a] && prev[b] == entries@[b]);
                        }
                    }
                }
                std::mem::swap(&mut self.entries, &mut entries);
            },
        }
    }

    /// Adds an entry under a name that the map does not hold yet.
    pub fn insert_new(&mut self, name: String, value: V)
        requires
            !old(self)@.contains_key(name@),
        ensures
            final(self)@ == old(self)@.insert(name@, value),
            final(self).entry_seq() == old(self).entry_seq().push((name, value)),
    {
        proof {
            use_type_invariant(&*self);
            lemma_map_of_entries(self.entries@);
        }
        let ghost n = name@;
        let mut entries: Vec<(String, V)> = Vec::new();
        std::mem::swap(&mut self.entries, &mut entries);
        entries.push((name, value));
        proof {
            assert(entries@.drop_last() =~= old(self).entries@);
            assert forall|a: int, b: int| 0 <= a < b < entries@.len() implies entries@[a].0@
                != entries@[b].0@ by {
                if b == entries@.len() - 1 {
                    assert(old(self).entries@[a].0@ != n);
                }
            }
        }
        std::mem::swap(&mut self.entries, &mut entries);
    }

    /// The value mapped to `name`, if any.
    pub fn get(&self, name: &str) -> (r: Option<&V>)
        ensures
            match r {
                Some(v) => self@.contains_key(name@) && *v == self@[name@],
                None => !self@.contains_key(name@),
            },
    {
        proof {
            use_type_invariant(self);
            lemma_map_of_entries(self.entries@);
        }
        let key = name.to_owned();
        match self.position(&key) {
            Some(i) => {
                assert(self.entries@[i as int].0@ == name@);
                assert(self@.contains_key(name@));
                assert(self@[self.entries@[i as int].0@] == self.entries@[i as int].1);
                let v = &self.entries[i].1;
                assert(*v == self@[name@]);
                Some(v)
            },
            None => None,
        }
    }

    /// The number of names in the map.
    pub fn len(&self) -> (r: usize)
        ensures
            r == self@.dom().len(),
    {
        proof {
            use_type_invariant(self);
            lemma_map_of_entries(self.entries@);
        }
        self.entries.len()
    }

    /// The entries, each name once, in the order in which they were first inserted.
    pub fn entries(&self) -> (r: &[(String, V)])
        ensures
            r@ == self.entry_seq(),
            names_distinct(r@),
            self@ == map_of_entries(r@),
    {
        proof {
            use_type_invariant(self);
        }
        self.entries.as_slice()
    }
}

impl<V: Clone> Clone for NameMap<V> {
    /// A copy holding the same names, each with a clone of its value.
    fn clone(&self) -> (r: Self)
        ensures
            r@.dom() == self@.dom(),
    {
        proof {
            use_type_invariant(self);
            lemma_map_of_entries(self.entries@);
        }
        let mut entries: Vec<(String, V)> = Vec::new();
        let mut i: usize = 0;
        while i < self.entries.len()
            invariant
                i <= self.entries@.len(),
                entries@.len() == i,
                names_distinct(self.entries@),
                forall|j: int| 0 <= j < i ==> #[trigger] entries@[j].0 == self.entries@[j].0,
            decreases self.entries@.len() - i,
        {
            let name = self.entries[i].0.clone();
            let value = self.entries[i].1.clone();
            entries.push((name, value));
            i = i + 1;
        }
        proof {
            lemma_map_of_entries(entries@);
            assert forall|k: Seq<char>| #[trigger] self@.contains_key(k) <==> map_of_entries(
                entries@,
            ).contains_key(k) by {
                if self@.contains_key(k) {
                    let j = choose|j: int| 0 <= j < self.entries@.len() && self.entries@[j].0@ == k;
                    assert(entries@[j].0@ == k);
                }
                if map_of_entries(entries@).contains_key(k) {
                    let j = choose|j: int| 0 <= j < entries@.len() && entries@[j].0@ == k;
                    assert(self.entries@[j].0@ == k);
                }
            }
            assert(map_of_entries(entries@).dom() =~= self@.dom());
        }
        NameMap { entries }
    }
}

} // verus!
