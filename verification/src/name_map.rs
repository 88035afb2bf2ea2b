//! A map from names to values that keeps the order in which the names first came in.
use vstd::prelude::*;

use crate::text;

verus! {

broadcast use vstd::string::group_string_axioms;

/// Names with a value each. No name occurs twice.
#[derive(Debug, Clone)]
pub struct NameMap<V> {
    pub entries: Vec<(String, V)>,
}

/// The names of a list of entries, in order.
pub open spec fn keys_of<V>(entries: Seq<(String, V)>) -> Seq<Seq<char>> {
    entries.map_values(|e: (String, V)| e.0@)
}

/// The map that a list of entries stands for.
pub open spec fn map_of<V>(entries: Seq<(String, V)>) -> Map<Seq<char>, V> {
    Map::new(
        |k: Seq<char>| keys_of(entries).contains(k),
        |k: Seq<char>| entries[keys_of(entries).index_of(k)].1,
    )
}

impl<V> View for NameMap<V> {
    type V = Map<Seq<char>, V>;

    open spec fn view(&self) -> Map<Seq<char>, V> {
        map_of(self.entries@)
    }
}

/// The value of the entry at `i` is what the map gives for its name.
pub proof fn lemma_entry<V>(entries: Seq<(String, V)>, i: int)
    requires
        keys_of(entries).no_duplicates(),
        0 <= i < entries.len(),
    ensures
        map_of(entries).contains_key(entries[i].0@),
        map_of(entries)[entries[i].0@] == entries[i].1,
{
    let keys = keys_of(entries);
    assert(keys[i] == entries[i].0@);
    assert(keys.contains(keys[i]));
    let j = keys.index_of(keys[i]);
    assert(keys[j] == keys[i]);
}

/// Another value for an entry changes nothing but what the map gives for its name.
pub proof fn lemma_update<V>(entries: Seq<(String, V)>, i: int, value: V)
    requires
        keys_of(entries).no_duplicates(),
        0 <= i < entries.len(),
    ensures
        keys_of(entries.update(i, (entries[i].0, value))) == keys_of(entries),
        map_of(entries.update(i, (entries[i].0, value))) == map_of(entries).insert(
            entries[i].0@,
            value,
        ),
{
    let after = entries.update(i, (entries[i].0, value));
    assert(keys_of(after) =~= keys_of(entries));
    lemma_entry(entries, i);
    assert forall|k: Seq<char>| keys_of(after).contains(k) implies map_of(after)[k] == map_of(
        entries,
    ).insert(entries[i].0@, value)[k] by {
        let j = keys_of(after).index_of(k);
        assert(keys_of(entries)[j] == k);
        assert(keys_of(entries)[i] == entries[i].0@);
        lemma_entry(after, j);
    }
    assert(map_of(after) =~= map_of(entries).insert(entries[i].0@, value));
}

impl NameMap<String> {
    /// The names with their texts.
    pub open spec fn texts(self) -> Map<Seq<char>, Seq<char>> {
        self@.map_values(|t: String| t@)
    }
}

impl<V> NameMap<V> {
    /// No name occurs twice.
    pub open spec fn wf(self) -> bool {
        self.keys().no_duplicates()
    }

    /// The names, in the order in which they came in.
    pub open spec fn keys(self) -> Seq<Seq<char>> {
        keys_of(self.entries@)
    }

    /// The place of the entry with this name.
    pub fn position(&self, name: &str) -> (result: Option<usize>)
        requires
            self.wf(),
        ensures
            match result {
                Some(i) => i < self.entries@.len() && self.entries@[i as int].0@ == name@
                    && self@.contains_key(name@) && self@[name@] == self.entries@[i as int].1,
                None => !self@.contains_key(name@),
            },
    {
        let mut i: usize = 0;
        while i < self.entries.len()
            invariant
                i <= self.entries@.len(),
                self.wf(),
                forall|j: int| 0 <= j < i ==> self.entries@[j].0@ != name@,
            decreases self.entries@.len() - i,
        {
            if text::eq(self.entries[i].0.as_str(), name) {
                proof {
                    lemma_entry(self.entries@, i as int);
                }
                return Some(i);
            }
            i += 1;
        }
        proof {
            if self.keys().contains(name@) {
                let j = self.keys().index_of(name@);
                assert(self.entries@[j].0@ == name@);
            }
        }
        None
    }

    /// A map without entries.
    pub fn new() -> (result: Self)
        ensures
            result.wf(),
            result@ == Map::<Seq<char>, V>::empty(),
            result.keys() == Seq::<Seq<char>>::empty(),
            result.entries@.len() == 0,
    {
        let result = NameMap { entries: Vec::new() };
        assert(result@ =~= Map::<Seq<char>, V>::empty());
        result
    }

    /// How many names there are.
    pub fn len(&self) -> (result: usize)
        ensures
            result == self.keys().len(),
            result == self.entries@.len(),
    {
        self.entries.len()
    }

    /// Whether the name is there.
    pub fn contains_key(&self, name: &str) -> (result: bool)
        requires
            self.wf(),
        ensures
            result == self@.contains_key(name@),
    {
        self.position(name).is_some()
    }

    /// The value of a name.
    pub fn get(&self, name: &str) -> (result: Option<&V>)
        requires
            self.wf(),
        ensures
            match result {
                Some(v) => self@.contains_key(name@) && *v == self@[name@],
                None => !self@.contains_key(name@),
            },
    {
        match self.position(name) {
            Some(i) => Some(&self.entries[i].1),
            None => None,
        }
    }

    /// The value of a name, to be changed in place.
    pub fn get_mut(&mut self, name: &str) -> (result: Option<&mut V>)
        requires
            old(self).wf(),
        ensures
            match result {
                Some(v) => {
                    &&& old(self)@.contains_key(name@)
                    &&& *v == old(self)@[name@]
                    &&& final(self).wf()
                    &&& final(self)@ == old(self)@.insert(name@, *final(v))
                    &&& final(self).keys() == old(self).keys()
                },
                None => !old(self)@.contains_key(name@) && *final(self) == *old(self),
            },
    {
        match self.position(name) {
            Some(i) => {
                proof {
                    let entries = self.entries@;
                    assert forall|v: V|
                        #![trigger entries.update(i as int, (entries[i as int].0, v))]
                        ({
                            let after = entries.update(i as int, (entries[i as int].0, v));
                            keys_of(after) == keys_of(entries) && map_of(after) == map_of(
                                entries,
                            ).insert(name@, v)
                        }) by {
                        lemma_update(entries, i as int, v);
                    }
                }
                Some(&mut self.entries[i].1)
            },
            None => None,
        }
    }

    /// Gives the name this value. A name that was there keeps its place; a new one goes to the end.
    pub fn insert(&mut self, name: String, value: V) -> (result: Option<V>)
        requires
            old(self).wf(),
        ensures
            final(self).wf(),
            final(self)@ == old(self)@.insert(name@, value),
            final(self).keys() == (if old(self)@.contains_key(name@) {
                old(self).keys()
            } else {
                old(self).keys().push(name@)
            }),
            match result {
                Some(v) => old(self)@.contains_key(name@) && v == old(self)@[name@],
                None => !old(self)@.contains_key(name@),
            },
    {
        let ghost before = self.entries@;
        match self.position(name.as_str()) {
            Some(i) => {
                let mut slot = (name, value);
                std::mem::swap(&mut slot, &mut self.entries[i]);
                proof {
                    let after = self.entries@;
                    assert(after == before.update(i as int, (name, value)));
                    assert(keys_of(after) =~= keys_of(before));
                    assert forall|k: Seq<char>| keys_of(after).contains(k) implies map_of(after)[k]
                        == map_of(before).insert(name@, value)[k] by {
                        let j = keys_of(after).index_of(k);
                        assert(keys_of(after)[j] == k);
                        assert(keys_of(before)[j] == k);
                        assert(keys_of(before)[i as int] == name@);
                    }
                    assert(map_of(after) =~= map_of(before).insert(name@, value));
                }
                Some(slot.1)
            },
            None => {
                self.entries.push((name, value));
                proof {
                    let after = self.entries@;
                    assert(keys_of(after) =~= keys_of(before).push(name@));
                    assert forall|a: int, b: int|
                        0 <= a < keys_of(after).len() && 0 <= b < keys_of(after).len() && a
                            != b implies keys_of(after)[a] != keys_of(after)[b] by {
                        if a == before.len() {
                            assert(keys_of(before).contains(keys_of(before)[b]));
                        }
                        if b == before.len() {
                            assert(keys_of(before).contains(keys_of(before)[a]));
                        }
                    }
                    assert(keys_of(after)[before.len() as int] == name@);
                    lemma_entry(after, before.len() as int);
                    assert forall|k: Seq<char>|
                        keys_of(after).contains(k) == (keys_of(before).contains(k) || k
                            == name@) by {
                        if keys_of(before).contains(k) {
                            let j = keys_of(before).index_of(k);
                            assert(keys_of(after)[j] == k);
                        }
                        if keys_of(after).contains(k) {
                            let j = keys_of(after).index_of(k);
                            if j < before.len() {
                                assert(keys_of(before)[j] == k);
                            }
                        }
                    }
                    assert forall|k: Seq<char>| keys_of(before).contains(k) implies map_of(after)[k]
                        == map_of(before)[k] by {
                        let j = keys_of(before).index_of(k);
                        assert(keys_of(before)[j] == k);
                        assert(after[j] == before[j]);
                        lemma_entry(after, j);
                    }
                    assert(map_of(after) =~= map_of(before).insert(name@, value));
                }
                None
            },
        }
    }

    /// Takes the name out. The others keep their order.
    pub fn remove(&mut self, name: &str) -> (result: Option<V>)
        requires
            old(self).wf(),
        ensures
            final(self).wf(),
            final(self)@ == old(self)@.remove(name@),
            final(self).keys() == (if old(self)@.contains_key(name@) {
                old(self).keys().remove(old(self).keys().index_of(name@))
            } else {
                old(self).keys()
            }),
            match result {
                Some(v) => old(self)@.contains_key(name@) && v == old(self)@[name@],
                None => !old(self)@.contains_key(name@) && *final(self) == *old(self),
            },
    {
        let ghost before = self.entries@;
        match self.position(name) {
            Some(i) => {
                let (_, value) = self.entries.remove(i);
                proof {
                    let after = self.entries@;
                    let keys = keys_of(before);
                    assert(keys[i as int] == name@);
                    assert(keys[keys.index_of(name@)] == name@);
                    assert(keys_of(after) =~= keys.remove(i as int));
                    assert forall|k: Seq<char>|
                        keys_of(after).contains(k) == (keys.contains(k) && k != name@) by {
                        if keys.contains(k) && k != name@ {
                            let j = keys.index_of(k);
                            if j < i {
                                assert(keys_of(after)[j] == k);
                            } else {
                                assert(keys_of(after)[j - 1] == k);
                            }
                        }
                        if keys_of(after).contains(k) {
                            let j = keys_of(after).index_of(k);
                            if j < i {
                                assert(keys[j] == k);
                            } else {
                                assert(keys[j + 1] == k);
                            }
                        }
                    }
                    assert forall|k: Seq<char>| keys_of(after).contains(k) implies map_of(after)[k]
                        == map_of(before)[k] by {
                        let j = keys_of(after).index_of(k);
                        if j < i {
                            assert(after[j] == before[j]);
                            lemma_entry(before, j);
                        } else {
                            assert(after[j] == before[j + 1]);
                            lemma_entry(before, j + 1);
                        }
                        lemma_entry(after, j);
                    }
                    assert(map_of(after) =~= map_of(before).remove(name@));
                }
                Some(value)
            },
            None => {
                assert(map_of(before).remove(name@) =~= map_of(before));
                None
            },
        }
    }
}

} // verus!
