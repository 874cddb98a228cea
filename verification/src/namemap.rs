//! A small map from names to values that keeps the order in which names
//! were first bound. No name occurs twice; binding a name again replaces its
//! value in place.
use crate::text::same_text;
use vstd::prelude::*;
use vstd::std_specs::cmp::PartialEqSpecImpl;

verus! {

#[derive(Debug)]
pub struct NameMap<V> {
    entries: Vec<(String, V)>,
}

/// The names of a sequence of entries, in order.
pub open spec fn entry_names<V>(entries: Seq<(String, V)>) -> Seq<Seq<char>> {
    entries.map_values(|e: (String, V)| e.0@)
}

impl<V> View for NameMap<V> {
    type V = Map<Seq<char>, V>;

    closed spec fn view(&self) -> Map<Seq<char>, V> {
        Map::new(
            |k: Seq<char>| entry_names(self.entries@).contains(k),
            |k: Seq<char>| self.entries@[entry_names(self.entries@).index_of(k)].1,
        )
    }
}

impl<V> NameMap<V> {
    /// The bound names, in the order in which they were first bound.
    pub closed spec fn names(&self) -> Seq<Seq<char>> {
        entry_names(self.entries@)
    }

    #[verifier::type_invariant]
    spec fn distinct(&self) -> bool {
        entry_names(self.entries@).no_duplicates()
    }

    /// What holds of every map: the names are distinct and are exactly the
    /// keys of the view.
    pub open spec fn wf(&self) -> bool {
        &&& self.names().no_duplicates()
        &&& self@.dom() =~= self.names().to_set()
        &&& self@.dom().finite()
    }

    proof fn lemma_view(&self)
        requires
            self.distinct(),
        ensures
            self.wf(),
            forall|i: int|
                0 <= i < self.entries@.len() ==> self@.contains_key(#[trigger] self.names()[i])
                    && self@[self.names()[i]] == self.entries@[i].1,
    {
        let names = entry_names(self.entries@);
        assert(self@.dom() =~= names.to_set());
        vstd::seq_lib::seq_to_set_is_finite(names);
        assert forall|i: int| 0 <= i < self.entries@.len() implies self@.contains_key(
            #[trigger] names[i],
        ) && self@[names[i]] == self.entries@[i].1 by {
            let j = names.index_of(names[i]);
            assert(names.contains(names[i]));
            assert(names[j] == names[i]);
        }
    }

    /// The map that binds nothing.
    pub fn new() -> (r: NameMap<V>)
        ensures
            r@ == Map::<Seq<char>, V>::empty(),
            r.names() == Seq::<Seq<char>>::empty(),
            r.wf(),
    {
        let r = NameMap { entries: Vec::new() };
        proof {
            r.lemma_view();
            assert(r@ =~= Map::<Seq<char>, V>::empty());
            assert(r.names() =~= Seq::<Seq<char>>::empty());
        }
        r
    }

    /// How many names are bound.
    pub fn len(&self) -> (r: usize)
        ensures
            r == self.names().len(),
            self.wf(),
    {
        proof {
            use_type_invariant(self);
            self.lemma_view();
        }
        self.entries.len()
    }

    /// The name bound at a position.
    pub fn name_at(&self, i: usize) -> (r: &String)
        requires
            i < self.names().len(),
        ensures
            r@ == self.names()[i as int],
            self@.contains_key(r@),
    {
        proof {
            use_type_invariant(self);
            self.lemma_view();
        }
        &self.entries[i].0
    }

    /// The value bound at a position.
    pub fn value_at(&self, i: usize) -> (r: &V)
        requires
            i < self.names().len(),
        ensures
            self@.contains_key(self.names()[i as int]),
            *r == self@[self.names()[i as int]],
    {
        proof {
            use_type_invariant(self);
            self.lemma_view();
        }
        &self.entries[i].1
    }

    /// The position of a name, if it is bound.
    fn position(&self, name: &str) -> (r: Option<usize>)
        ensures
            match r {
                Some(i) => i < self.entries@.len() && self.entries@[i as int].0@ == name@,
                None => !entry_names(self.entries@).contains(name@),
            },
    {
        let ghost names = entry_names(self.entries@);
        let mut i: usize = 0;
        while i < self.entries.len()
            invariant
                i <= self.entries@.len(),
                names == entry_names(self.entries@),
                forall|j: int| 0 <= j < i ==> names[j] != name@,
            decreases self.entries@.len() - i,
        {
            if same_text(self.entries[i].0.as_str(), name) {
                return Some(i);
            }
            i = i + 1;
        }
        None
    }

    /// Whether a name is bound.
    pub fn contains(&self, name: &str) -> (r: bool)
        ensures
            r == self@.contains_key(name@),
    {
        let found = self.position(name);
        proof {
            if let Some(i) = found {
                assert(entry_names(self.entries@)[i as int] == name@);
            }
        }
        found.is_some()
    }

    /// The value bound to a name, if any.
    pub fn get(&self, name: &str) -> (r: Option<&V>)
        ensures
            match r {
                Some(v) => self@.contains_key(name@) && *v == self@[name@],
                None => !self@.contains_key(name@),
            },
    {
        proof {
            use_type_invariant(self);
            self.lemma_view();
        }
        match self.position(name) {
            Some(i) => {
                assert(self.names()[i as int] == name@);
                Some(&self.entries[i].1)
            },
            None => None,
        }
    }

    /// The map with a name bound: a new name goes last, a bound name keeps its
    /// place and gets the new value.
    pub fn with(self, name: String, value: V) -> (r: NameMap<V>)
        ensures
            r@ == self@.insert(name@, value),
            r.names() == if self@.contains_key(name@) {
                self.names()
            } else {
                self.names().push(name@)
            },
            r.wf(),
    {
        proof {
            use_type_invariant(&self);
            self.lemma_view();
        }
        let found = self.position(name.as_str());
        let mut entries = self.entries;
        match found {
            Some(i) => {
                entries.set(i, (name, value));
                proof {
                    assert(entry_names(entries@) =~= entry_names(self.entries@));
                }
            },
            None => {
                entries.push((name, value));
                proof {
                    assert(entry_names(entries@) =~= entry_names(self.entries@).push(name@));
                    assert(entry_names(entries@).no_duplicates());
                }
            },
        }
        let r = NameMap { entries };
        proof {
            r.lemma_view();
            assert forall|k: Seq<char>| #[trigger] r@.contains_key(k) && k != name@ implies self@.contains_key(k)
                && r@[k] == self@[k] by {
                let j = r.names().index_of(k);
                assert(r.names().contains(k));
                assert(r.names()[j] == k);
                assert(j < self.entries@.len());
                assert(self.names()[j] == k);
            }
            assert forall|k: Seq<char>| #[trigger] self@.contains_key(k) implies r@.contains_key(k) by {
                let j = self.names().index_of(k);
                assert(self.names().contains(k));
                assert(r.names()[j] == k);
            }
            assert(r@.contains_key(name@) && r@[name@] == value) by {
                match found {
                    Some(i) => {
                        assert(r.names()[i as int] == name@);
                    },
                    None => {
                        assert(r.names()[self.entries@.len() as int] == name@);
                    },
                }
            }
            assert(r@ =~= self@.insert(name@, value));
        }
        r
    }

    /// Binds a name in place, as `with` does.
    pub fn insert(&mut self, name: String, value: V)
        ensures
            final(self)@ == old(self)@.insert(name@, value),
            final(self).names() == if old(self)@.contains_key(name@) {
                old(self).names()
            } else {
                old(self).names().push(name@)
            },
            final(self).wf(),
    {
        let mut taken = NameMap::new();
        core::mem::swap(self, &mut taken);
        *self = taken.with(name, value);
    }
}

impl<V> NameMap<V> {
    /// The map with the same names in the same order, each value replaced by
    /// what `f` makes of it.
    pub fn map_values<W, F: Fn(&V) -> W>(&self, f: F) -> (r: NameMap<W>)
        requires
            forall|k: Seq<char>| self@.contains_key(k) ==> call_requires(f, (&#[trigger] self@[k],)),
        ensures
            r.names() == self.names(),
            r@.dom() == self@.dom(),
            forall|k: Seq<char>|
                self@.contains_key(k) ==> call_ensures(f, (&self@[k],), #[trigger] r@[k]),
            r.wf(),
    {
        proof {
            use_type_invariant(self);
            self.lemma_view();
        }
        let mut entries: Vec<(String, W)> = Vec::new();
        let mut i: usize = 0;
        while i < self.entries.len()
            invariant
                i <= self.entries@.len(),
                entries@.len() == i,
                self.wf(),
                forall|j: int|
                    0 <= j < self.entries@.len() ==> self@.contains_key(#[trigger] self.names()[j])
                        && self@[self.names()[j]] == self.entries@[j].1,
                forall|k: Seq<char>|
                    self@.contains_key(k) ==> call_requires(f, (&#[trigger] self@[k],)),
                forall|j: int| 0 <= j < i ==> (#[trigger] entries@[j]).0@ == self.entries@[j].0@,
                forall|j: int|
                    0 <= j < i ==> call_ensures(
                        f,
                        (&self.entries@[j].1,),
                        (#[trigger] entries@[j]).1,
                    ),
            decreases self.entries@.len() - i,
        {
            assert(self@[self.names()[i as int]] == self.entries@[i as int].1);
            let value = f(&self.entries[i].1);
            entries.push((self.entries[i].0.clone(), value));
            i = i + 1;
        }
        proof {
            assert(entry_names(entries@) =~= entry_names(self.entries@));
        }
        let r = NameMap { entries };
        proof {
            r.lemma_view();
            assert(r@.dom() =~= self@.dom());
            assert forall|k: Seq<char>| self@.contains_key(k) implies call_ensures(
                f,
                (&self@[k],),
                #[trigger] r@[k],
            ) by {
                let j = self.names().index_of(k);
                assert(self.names().contains(k));
                assert(self.names()[j] == k);
                assert(r.names()[j] == k);
            }
        }
        r
    }
}

impl<V: PartialEq> PartialEq for NameMap<V> {
    /// Two maps are equal when they bind the same names to equal values,
    /// whatever the order of the names.
    fn eq(&self, other: &NameMap<V>) -> (r: bool) {
        if self.len() != other.len() {
            return false;
        }
        let mut i: usize = 0;
        while i < self.len()
            invariant
                i <= self.names().len(),
            decreases self.names().len() - i,
        {
            match other.get(self.name_at(i).as_str()) {
                Some(theirs) => {
                    if !(*self.value_at(i) == *theirs) {
                        return false;
                    }
                },
                None => {
                    return false;
                },
            }
            i = i + 1;
        }
        true
    }
}

impl<V: PartialEq> PartialEqSpecImpl for NameMap<V> {
    open spec fn obeys_eq_spec() -> bool {
        false
    }

    open spec fn eq_spec(&self, other: &NameMap<V>) -> bool {
        true
    }
}

impl<V: Eq> Eq for NameMap<V> {

}

} // verus!
