//! A collection of values keyed by distinct names, the storage behind rooms
//! (devices by name) and homes (rooms by name).
use vstd::prelude::*;
use crate::text::{strictly_sorted, views, sorted_names, str_eq};

verus! {

/// The names of `entries`, in storage order.
pub open spec fn keys<V>(entries: Seq<(String, V)>) -> Seq<Seq<char>> {
    entries.map_values(|e: (String, V)| e.0@)
}

/// The map from names to values that `entries` stands for.
pub open spec fn to_map<V>(entries: Seq<(String, V)>) -> Map<Seq<char>, V>
    decreases entries.len(),
{
    if entries.len() == 0 {
        Map::empty()
    } else {
        to_map(entries.drop_last()).insert(entries.last().0@, entries.last().1)
    }
}

pub proof fn lemma_to_map_dom<V>(entries: Seq<(String, V)>)
    ensures
        to_map(entries).dom() == keys(entries).to_set(),
        to_map(entries).dom().finite(),
    decreases entries.len(),
{
    if entries.len() > 0 {
        lemma_to_map_dom(entries.drop_last());
        assert(keys(entries) =~= keys(entries.drop_last()).push(entries.last().0@));
        keys(entries.drop_last()).lemma_push_to_set_commute(entries.last().0@);
    } else {
        assert(keys(entries).to_set() =~= Set::empty());
    }
}

pub proof fn lemma_to_map_index<V>(entries: Seq<(String, V)>, i: int)
    requires
        keys(entries).no_duplicates(),
        0 <= i < entries.len(),
    ensures
        to_map(entries).contains_key(entries[i].0@),
        to_map(entries)[entries[i].0@] == entries[i].1,
    decreases entries.len(),
{
    if i < entries.len() - 1 {
        let pre = entries.drop_last();
        assert(keys(pre) =~= keys(entries).drop_last());
        lemma_to_map_index(pre, i);
        assert(keys(entries)[i] != keys(entries)[entries.len() - 1]);
    }
}

pub proof fn lemma_to_map_update<V>(entries: Seq<(String, V)>, i: int, v: V)
    requires
        keys(entries).no_duplicates(),
        0 <= i < entries.len(),
    ensures
        to_map(entries.update(i, (entries[i].0, v))) == to_map(entries).insert(entries[i].0@, v),
    decreases entries.len(),
{
    let up = entries.update(i, (entries[i].0, v));
    if i == entries.len() - 1 {
        assert(up.drop_last() =~= entries.drop_last());
        assert(to_map(up) =~= to_map(entries).insert(entries[i].0@, v));
    } else {
        let pre = entries.drop_last();
        assert(keys(pre) =~= keys(entries).drop_last());
        assert(up.drop_last() =~= pre.update(i, (entries[i].0, v)));
        lemma_to_map_update(pre, i, v);
        assert(keys(entries)[i] != keys(entries)[entries.len() - 1]);
        assert(to_map(up) =~= to_map(entries).insert(entries[i].0@, v));
    }
}

pub proof fn lemma_to_map_remove<V>(entries: Seq<(String, V)>, i: int)
    requires
        keys(entries).no_duplicates(),
        0 <= i < entries.len(),
    ensures
        to_map(entries.remove(i)) == to_map(entries).remove(entries[i].0@),
    decreases entries.len(),
{
    let rm = entries.remove(i);
    let pre = entries.drop_last();
    assert(keys(pre) =~= keys(entries).drop_last());
    if i == entries.len() - 1 {
        assert(rm =~= pre);
        lemma_to_map_dom(pre);
        assert(!keys(pre).contains(entries[i].0@)) by {
            if keys(pre).contains(entries[i].0@) {
                let t = choose|t: int| 0 <= t < keys(pre).len() && keys(pre)[t] == entries[i].0@;
                assert(keys(entries)[t] == keys(entries)[i]);
            }
        }
        assert(to_map(rm) =~= to_map(entries).remove(entries[i].0@));
    } else {
        assert(rm.drop_last() =~= pre.remove(i));
        assert(rm.last() == entries.last());
        lemma_to_map_remove(pre, i);
        assert(keys(entries)[i] != keys(entries)[entries.len() - 1]);
        assert(to_map(rm) =~= to_map(entries).remove(entries[i].0@));
    }
}

pub proof fn lemma_keys_remove<V>(entries: Seq<(String, V)>, i: int)
    requires
        keys(entries).no_duplicates(),
        0 <= i < entries.len(),
    ensures
        keys(entries.remove(i)) == keys(entries).remove(i),
        keys(entries.remove(i)).no_duplicates(),
{
    assert(keys(entries.remove(i)) =~= keys(entries).remove(i));
    let k = keys(entries);
    assert forall|a: int, b: int|
        0 <= a < k.remove(i).len() && 0 <= b < k.remove(i).len() && a != b implies k.remove(i)[a] != k.remove(i)[b] by {
        let a2 = if a < i { a } else { a + 1 };
        let b2 = if b < i { b } else { b + 1 };
        assert(k.remove(i)[a] == k[a2]);
        assert(k.remove(i)[b] == k[b2]);
    }
}

/// Names and values side by side.
pub open spec fn pairs<V>(names: Seq<String>, values: Seq<V>) -> Seq<(String, V)> {
    Seq::new(names.len(), |i: int| (names[i], values[i]))
}

/// Values kept under distinct names.
pub struct Registry<V> {
    names: Vec<String>,
    values: Vec<V>,
}

impl<V> Registry<V> {
    /// Every value has its name, and no two names are the same.
    #[verifier::type_invariant]
    spec fn distinct_names(&self) -> bool {
        &&& self.names@.len() == self.values@.len()
        &&& views(self.names@).no_duplicates()
    }

    /// The entries as pairs of a name and its value, in storage order.
    spec fn entries(&self) -> Seq<(String, V)> {
        pairs(self.names@, self.values@)
    }

    proof fn lemma_entries(&self)
        requires
            self.names@.len() == self.values@.len(),
        ensures
            keys(self.entries()) == views(self.names@),
            self.entries().len() == self.names@.len(),
            forall|i: int| 0 <= i < self.names@.len() ==> (#[trigger] self.entries()[i]).1 == self.values@[i],
            forall|i: int| 0 <= i < self.names@.len() ==> (#[trigger] self.entries()[i]).0 == self.names@[i],
    {
        assert(keys(self.entries()) =~= views(self.names@));
    }

    /// The names and the values kept under them.
    pub closed spec fn view(&self) -> Map<Seq<char>, V> {
        to_map(self.entries())
    }

    pub fn new() -> (r: Self)
        ensures
            r.view() == Map::<Seq<char>, V>::empty(),
    {
        let r = Registry { names: Vec::new(), values: Vec::new() };
        assert(r.entries().len() == 0);
        r
    }

    /// Where `name` is stored, if anywhere.
    fn position(&self, name: &str) -> (r: Option<usize>)
        ensures
            match r {
                Some(i) => i < self.names@.len() && self.names@[i as int]@ == name@,
                None => !self.view().contains_key(name@),
            },
    {
        proof {
            use_type_invariant(self);
            self.lemma_entries();
        }
        let mut i: usize = 0;
        while i < self.names.len()
            invariant
                i <= self.names@.len(),
                forall|t: int| 0 <= t < i ==> self.names@[t]@ != name@,
            decreases self.names.len() - i,
        {
            if str_eq(self.names[i].as_str(), name) {
                return Some(i);
            }
            i = i + 1;
        }
        proof {
            lemma_to_map_dom(self.entries());
            if views(self.names@).contains(name@) {
                let t = choose|t: int| 0 <= t < views(self.names@).len() && views(self.names@)[t] == name@;
                assert(self.names@[t]@ == name@);
            }
        }
        None
    }

    /// Whether nothing is stored.
    pub fn is_empty(&self) -> (r: bool)
        ensures
            r == (self.view() == Map::<Seq<char>, V>::empty()),
    {
        proof {
            use_type_invariant(self);
            self.lemma_entries();
            lemma_to_map_dom(self.entries());
            if self.names@.len() > 0 {
                assert(views(self.names@).to_set().contains(views(self.names@)[0]));
                assert(self.view().contains_key(self.names@[0]@));
            } else {
                assert(self.view() =~= Map::<Seq<char>, V>::empty());
            }
        }
        self.names.len() == 0
    }

    /// The value kept under `name`.
    pub fn get(&self, name: &str) -> (r: Option<&V>)
        ensures
            match r {
                Some(v) => self.view().contains_key(name@) && *v == self.view()[name@],
                None => !self.view().contains_key(name@),
            },
    {
        proof {
            use_type_invariant(self);
            self.lemma_entries();
        }
        match self.position(name) {
            Some(i) => {
                proof {
                    lemma_to_map_index(self.entries(), i as int);
                }
                Some(&self.values[i])
            },
            None => None,
        }
    }

    /// The value kept under `name`, to change in place.
    pub fn get_mut(&mut self, name: &str) -> (r: Option<&mut V>)
        ensures
            match r {
                Some(v) => {
                    &&& old(self).view().contains_key(name@)
                    &&& *v == old(self).view()[name@]
                    &&& final(self).view() == old(self).view().insert(name@, *final(v))
                },
                None => {
                    &&& !old(self).view().contains_key(name@)
                    &&& final(self).view() == old(self).view()
                },
            },
    {
        proof {
            use_type_invariant(&*self);
            self.lemma_entries();
        }
        match self.position(name) {
            Some(i) => {
                proof {
                    lemma_to_map_index(self.entries(), i as int);
                }
                let ghost before = *self;
                proof {
                    assert forall|x: V| #[trigger] to_map(pairs(before.names@, before.values@.update(i as int, x)))
                        == before.view().insert(name@, x) by {
                        lemma_to_map_update(before.entries(), i as int, x);
                        assert(pairs(before.names@, before.values@.update(i as int, x))
                            =~= before.entries().update(i as int, (before.names@[i as int], x)));
                    }
                }
                let v = &mut self.values[i];
                Some(v)
            },
            None => None,
        }
    }

    /// Keeps `value` under `name`, handing back what was kept there before.
    pub fn insert(&mut self, name: String, value: V) -> (r: Option<V>)
        ensures
            final(self).view() == old(self).view().insert(name@, value),
            r == (if old(self).view().contains_key(name@) {
                Some(old(self).view()[name@])
            } else {
                None
            }),
    {
        proof {
            use_type_invariant(&*self);
            self.lemma_entries();
        }
        match self.position(name.as_str()) {
            Some(i) => {
                proof {
                    lemma_to_map_index(self.entries(), i as int);
                    lemma_to_map_update(self.entries(), i as int, value);
                }
                let ghost before = *self;
                let mut previous = value;
                let v = &mut self.values[i];
                std::mem::swap(v, &mut previous);
                proof {
                    assert(self.entries() =~= before.entries().update(i as int, (before.names@[i as int], value)));
                }
                Some(previous)
            },
            None => {
                let ghost before = *self;
                let mut taken = Registry::new();
                std::mem::swap(&mut taken, self);
                let Registry { mut names, mut values } = taken;
                proof {
                    lemma_to_map_dom(before.entries());
                    assert(views(names@.push(name)) =~= views(names@).push(name@));
                }
                names.push(name);
                values.push(value);
                *self = Registry { names, values };
                proof {
                    assert(self.entries().drop_last() =~= before.entries());
                }
                None
            },
        }
    }

    /// The registry that inserting `pairs` one after the other gives: a later
    /// pair wins over an earlier one of the same name.
    pub fn from_pairs(pairs: Vec<(String, V)>) -> (r: Self)
        ensures
            r.view() == to_map(pairs@),
    {
        let mut registry = Registry::new();
        let mut rest = pairs;
        let ghost all = rest@;
        let n = rest.len();
        // Reverse the pairs, so that popping takes them in their order.
        let mut reversed: Vec<(String, V)> = Vec::new();
        while rest.len() > 0
            invariant
                reversed@.len() + rest@.len() == n,
                n == all.len(),
                forall|t: int| 0 <= t < rest@.len() ==> #[trigger] rest@[t] == all[t],
                forall|t: int| 0 <= t < reversed@.len() ==> #[trigger] reversed@[t] == all[n - 1 - t],
            decreases rest@.len(),
        {
            let p = rest.pop().unwrap();
            reversed.push(p);
        }
        let mut i: usize = 0;
        proof {
            assert(all.subrange(0, 0) =~= Seq::<(String, V)>::empty());
        }
        while reversed.len() > 0
            invariant
                i + reversed@.len() == n,
                n == all.len(),
                forall|t: int| 0 <= t < reversed@.len() ==> #[trigger] reversed@[t] == all[n - 1 - t],
                registry.view() == to_map(all.subrange(0, i as int)),
            decreases reversed@.len(),
        {
            let (name, value) = reversed.pop().unwrap();
            proof {
                assert(all[i as int] == (name, value));
                assert(all.subrange(0, i + 1).drop_last() =~= all.subrange(0, i as int));
            }
            registry.insert(name, value);
            i = i + 1;
        }
        proof {
            assert(all.subrange(0, n as int) =~= all);
        }
        registry
    }

    /// Takes out what is kept under `name`.
    pub fn remove(&mut self, name: &str) -> (r: Option<V>)
        ensures
            final(self).view() == old(self).view().remove(name@),
            r == (if old(self).view().contains_key(name@) {
                Some(old(self).view()[name@])
            } else {
                None
            }),
    {
        proof {
            use_type_invariant(&*self);
            self.lemma_entries();
        }
        match self.position(name) {
            Some(i) => {
                let ghost before = *self;
                proof {
                    lemma_to_map_index(before.entries(), i as int);
                    lemma_to_map_remove(before.entries(), i as int);
                    lemma_keys_remove(before.entries(), i as int);
                }
                let mut taken = Registry::new();
                std::mem::swap(&mut taken, self);
                let Registry { mut names, mut values } = taken;
                names.remove(i);
                let value = values.remove(i);
                proof {
                    assert(views(names@) =~= views(before.names@).remove(i as int));
                }
                *self = Registry { names, values };
                proof {
                    assert(self.entries() =~= before.entries().remove(i as int));
                }
                Some(value)
            },
            None => {
                proof {
                    assert(old(self).view().remove(name@) =~= old(self).view());
                }
                None
            },
        }
    }

    /// All names, in increasing lexicographic order.
    pub fn names(&self) -> (r: Vec<String>)
        ensures
            strictly_sorted(views(r@)),
            views(r@).to_set() == self.view().dom(),
            r@.len() == self.view().dom().len(),
    {
        proof {
            use_type_invariant(self);
            self.lemma_entries();
            lemma_to_map_dom(self.entries());
            views(self.names@).unique_seq_to_set();
        }
        sorted_names(&self.names)
    }
}

} // verus!
