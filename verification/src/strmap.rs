//! A map keyed by text, kept in the order of its keys.

use vstd::prelude::*;

use crate::text;

verus! {

/// A map from text to values. Its entries are sorted by key and no key occurs
/// twice.
#[derive(Debug, PartialEq, Eq)]
pub struct StrMap<T> {
    entries: Vec<(String, T)>,
}

spec fn sorted<T>(entries: Seq<(String, T)>) -> bool {
    forall|i: int, j: int|
        #![trigger entries[i], entries[j]]
        0 <= i < j < entries.len() ==> text::text_lt(entries[i].0@, entries[j].0@)
}

spec fn holds<T>(entries: Seq<(String, T)>, i: int, key: Seq<char>) -> bool {
    0 <= i < entries.len() && entries[i].0@ == key
}

spec fn as_map<T>(entries: Seq<(String, T)>) -> Map<Seq<char>, T> {
    Map::new(
        |key: Seq<char>| exists|i: int| holds(entries, i, key),
        |key: Seq<char>| entries[choose|i: int| holds(entries, i, key)].1,
    )
}

spec fn keys_of<T>(entries: Seq<(String, T)>) -> Seq<Seq<char>> {
    Seq::new(entries.len(), |i: int| entries[i].0@)
}

proof fn lemma_sorted_unique<T>(entries: Seq<(String, T)>, i: int, j: int)
    requires
        sorted(entries),
        0 <= i < entries.len(),
        0 <= j < entries.len(),
        entries[i].0@ == entries[j].0@,
    ensures
        i == j,
{
    text::lemma_text_order(entries[i].0@, entries[j].0@);
}

proof fn lemma_lookup<T>(entries: Seq<(String, T)>, i: int)
    requires
        sorted(entries),
        0 <= i < entries.len(),
    ensures
        as_map(entries).dom().contains(entries[i].0@),
        as_map(entries)[entries[i].0@] == entries[i].1,
{
    let key = entries[i].0@;
    assert(holds(entries, i, key));
    let j = choose|j: int| holds(entries, j, key);
    lemma_sorted_unique(entries, i, j);
}

proof fn lemma_absent<T>(entries: Seq<(String, T)>, at: int, key: Seq<char>)
    requires
        sorted(entries),
        0 <= at <= entries.len(),
        forall|j: int| 0 <= j < at ==> text::text_lt(#[trigger] entries[j].0@, key),
        at < entries.len() ==> text::text_lt(key, entries[at].0@),
    ensures
        !as_map(entries).dom().contains(key),
{
    if as_map(entries).dom().contains(key) {
        let i = choose|i: int| holds(entries, i, key);
        text::lemma_text_order(key, key);
        if i >= at {
            if i > at {
                assert(text::text_lt(entries[at].0@, entries[i].0@));
                text::lemma_text_transitive(key, entries[at].0@, key);
            }
        }
    }
}

proof fn lemma_keys<T>(entries: Seq<(String, T)>)
    requires
        sorted(entries),
    ensures
        keys_of(entries).no_duplicates(),
        keys_of(entries).to_set() == as_map(entries).dom(),
        as_map(entries).dom().finite(),
        as_map(entries).len() == entries.len(),
{
    let keys = keys_of(entries);
    assert forall|i: int, j: int| 0 <= i < keys.len() && 0 <= j < keys.len() && i != j implies keys[i]
        != keys[j] by {
        if keys[i] == keys[j] {
            lemma_sorted_unique(entries, i, j);
        }
    }
    assert forall|key: Seq<char>| keys.to_set().contains(key) == as_map(entries).dom().contains(
        key,
    ) by {
        if as_map(entries).dom().contains(key) {
            let i = choose|i: int| holds(entries, i, key);
            assert(keys[i] == key);
        }
        if keys.to_set().contains(key) {
            let i = choose|i: int| 0 <= i < keys.len() && keys[i] == key;
            assert(holds(entries, i, key));
        }
    }
    assert(keys.to_set() =~= as_map(entries).dom());
    keys.unique_seq_to_set();
}

proof fn lemma_update<T>(before: Seq<(String, T)>, at: int, entry: (String, T))
    requires
        sorted(before),
        0 <= at < before.len(),
        entry.0@ == before[at].0@,
    ensures
        sorted(before.update(at, entry)),
        as_map(before.update(at, entry)) == as_map(before).insert(entry.0@, entry.1),
{
    let after = before.update(at, entry);
    let want = as_map(before).insert(entry.0@, entry.1);
    assert forall|key: Seq<char>| #[trigger]
        as_map(after).dom().contains(key) == want.dom().contains(key) by {
        if as_map(after).dom().contains(key) {
            let i = choose|i: int| holds(after, i, key);
            assert(holds(before, i, key));
        }
        if want.dom().contains(key) {
            if key == entry.0@ {
                assert(holds(after, at, key));
            } else {
                let i = choose|i: int| holds(before, i, key);
                assert(holds(after, i, key));
            }
        }
    }
    assert forall|key: Seq<char>| as_map(after).dom().contains(key) implies #[trigger] as_map(
        after,
    )[key] == want[key] by {
        let i = choose|i: int| holds(after, i, key);
        lemma_lookup(after, i);
        lemma_lookup(before, i);
        if key == entry.0@ {
            lemma_sorted_unique(after, i, at);
        }
    }
    assert(as_map(after) =~= want);
}

proof fn lemma_insert<T>(before: Seq<(String, T)>, at: int, entry: (String, T))
    requires
        sorted(before),
        0 <= at <= before.len(),
        forall|j: int| 0 <= j < at ==> text::text_lt(#[trigger] before[j].0@, entry.0@),
        at < before.len() ==> text::text_lt(entry.0@, before[at].0@),
    ensures
        sorted(before.insert(at, entry)),
        as_map(before.insert(at, entry)) == as_map(before).insert(entry.0@, entry.1),
{
    let after = before.insert(at, entry);
    let want = as_map(before).insert(entry.0@, entry.1);
    lemma_absent(before, at, entry.0@);
    assert forall|i: int, j: int|
        #![trigger after[i], after[j]]
        0 <= i < j < after.len() implies text::text_lt(after[i].0@, after[j].0@) by {
        let old_i = if i < at { i } else { i - 1 };
        let old_j = if j < at { j } else { j - 1 };
        if i == at {
            assert(after[j] == before[j - 1]);
            if j - 1 > at {
                assert(text::text_lt(before[at].0@, before[j - 1].0@));
                text::lemma_text_transitive(entry.0@, before[at].0@, before[j - 1].0@);
            }
        } else if j == at {
            assert(after[i] == before[i]);
        } else {
            assert(after[i] == before[old_i]);
            assert(after[j] == before[old_j]);
        }
    }
    assert forall|key: Seq<char>| #[trigger]
        as_map(after).dom().contains(key) == want.dom().contains(key) by {
        if as_map(after).dom().contains(key) {
            let i = choose|i: int| holds(after, i, key);
            if i < at {
                assert(holds(before, i, key));
            } else if i > at {
                assert(holds(before, i - 1, key));
            }
        }
        if want.dom().contains(key) {
            if key == entry.0@ {
                assert(holds(after, at, key));
            } else {
                let i = choose|i: int| holds(before, i, key);
                if i < at {
                    assert(holds(after, i, key));
                } else {
                    assert(holds(after, i + 1, key));
                }
            }
        }
    }
    assert forall|key: Seq<char>| as_map(after).dom().contains(key) implies #[trigger] as_map(
        after,
    )[key] == want[key] by {
        let i = choose|i: int| holds(after, i, key);
        lemma_lookup(after, i);
        if i < at {
            lemma_lookup(before, i);
        } else if i > at {
            lemma_lookup(before, i - 1);
        }
    }
    assert(as_map(after) =~= want);
}

proof fn lemma_remove<T>(before: Seq<(String, T)>, at: int)
    requires
        sorted(before),
        0 <= at < before.len(),
    ensures
        sorted(before.remove(at)),
        as_map(before.remove(at)) == as_map(before).remove(before[at].0@),
{
    let after = before.remove(at);
    let gone = before[at].0@;
    let want = as_map(before).remove(gone);
    assert forall|i: int, j: int|
        #![trigger after[i], after[j]]
        0 <= i < j < after.len() implies text::text_lt(after[i].0@, after[j].0@) by {
        let old_i = if i < at { i } else { i + 1 };
        let old_j = if j < at { j } else { j + 1 };
        assert(after[i] == before[old_i]);
        assert(after[j] == before[old_j]);
    }
    assert forall|key: Seq<char>| #[trigger]
        as_map(after).dom().contains(key) == want.dom().contains(key) by {
        if as_map(after).dom().contains(key) {
            let i = choose|i: int| holds(after, i, key);
            let old_i = if i < at { i } else { i + 1 };
            assert(holds(before, old_i, key));
            if key == gone {
                lemma_sorted_unique(before, old_i, at);
            }
        }
        if want.dom().contains(key) {
            let i = choose|i: int| holds(before, i, key);
            assert(holds(after, if i < at { i } else { i - 1 }, key));
        }
    }
    assert forall|key: Seq<char>| as_map(after).dom().contains(key) implies #[trigger] as_map(
        after,
    )[key] == want[key] by {
        let i = choose|i: int| holds(after, i, key);
        lemma_lookup(after, i);
        lemma_lookup(before, if i < at { i } else { i + 1 });
    }
    assert(as_map(after) =~= want);
}

proof fn lemma_copy<T: Clone>(from: Seq<(String, T)>, to: Seq<(String, T)>)
    requires
        sorted(from),
        from.len() == to.len(),
        forall|j: int|
            0 <= j < to.len() ==> (#[trigger] to[j]).0@ == from[j].0@ && cloned::<T>(
                from[j].1,
                to[j].1,
            ),
    ensures
        sorted(to),
        keys_of(to) == keys_of(from),
        as_map(to).dom() == as_map(from).dom(),
        forall|key: Seq<char>| #[trigger]
            as_map(to).dom().contains(key) ==> cloned::<T>(as_map(from)[key], as_map(to)[key]),
{
    assert forall|i: int, j: int|
        #![trigger to[i], to[j]]
        0 <= i < j < to.len() implies text::text_lt(to[i].0@, to[j].0@) by {
        assert(text::text_lt(from[i].0@, from[j].0@));
    }
    assert(keys_of(to) =~= keys_of(from));
    lemma_keys(to);
    lemma_keys(from);
    assert forall|key: Seq<char>| #[trigger] as_map(to).dom().contains(key) implies cloned::<T>(
        as_map(from)[key],
        as_map(to)[key],
    ) by {
        let i = choose|i: int| holds(to, i, key);
        lemma_lookup(to, i);
        lemma_lookup(from, i);
    }
}

impl<T> View for StrMap<T> {
    type V = Map<Seq<char>, T>;

    closed spec fn view(&self) -> Map<Seq<char>, T> {
        as_map(self.entries@)
    }
}

impl<T> StrMap<T> {
    #[verifier::type_invariant]
    spec fn well_formed(self) -> bool {
        sorted(self.entries@)
    }

    /// The keys, in increasing order.
    pub closed spec fn key_order(self) -> Seq<Seq<char>> {
        keys_of(self.entries@)
    }

    /// The empty map.
    pub fn new() -> (map: Self)
        ensures
            map@ == Map::<Seq<char>, T>::empty(),
    {
        let map = StrMap { entries: Vec::new() };
        assert(map@ =~= Map::<Seq<char>, T>::empty());
        map
    }

    /// How many keys there are.
    pub fn len(&self) -> (n: usize)
        ensures
            n == self@.len(),
            n == self.key_order().len(),
            self@.dom().finite(),
            self.key_order().no_duplicates(),
            self.key_order().to_set() == self@.dom(),
            forall|i: int, j: int|
                #![trigger self.key_order()[i], self.key_order()[j]]
                0 <= i < j < n ==> text::text_lt(self.key_order()[i], self.key_order()[j]),
            forall|i: int| 0 <= i < n ==> self@.dom().contains(#[trigger] self.key_order()[i]),
    {
        proof {
            use_type_invariant(self);
            lemma_keys(self.entries@);
            assert forall|i: int| 0 <= i < self.entries@.len() implies self@.dom().contains(
                #[trigger] self.key_order()[i],
            ) by {
                lemma_lookup(self.entries@, i);
            }
        }
        self.entries.len()
    }

    /// The key at a position of the key order.
    pub fn key_at(&self, i: usize) -> (key: &str)
        requires
            i < self.key_order().len(),
        ensures
            key@ == self.key_order()[i as int],
    {
        self.entries[i].0.as_str()
    }

    /// The value at a position of the key order.
    pub fn value_at(&self, i: usize) -> (value: &T)
        requires
            i < self.key_order().len(),
        ensures
            *value == self@[self.key_order()[i as int]],
    {
        proof {
            use_type_invariant(self);
            lemma_lookup(self.entries@, i as int);
        }
        &self.entries[i].1
    }

    /// The position of a key: the number of smaller keys, and whether the key
    /// itself is there.
    fn find(&self, key: &str) -> (found: (usize, bool))
        ensures
            found.0 <= self.entries@.len(),
            found.1 == self@.dom().contains(key@),
            found.1 ==> found.0 < self.entries@.len() && self.entries@[found.0 as int].0@ == key@,
            !found.1 && found.0 < self.entries@.len() ==> text::text_lt(
                key@,
                self.entries@[found.0 as int].0@,
            ),
            forall|j: int| 0 <= j < found.0 ==> text::text_lt(#[trigger] self.entries@[j].0@, key@),
    {
        proof {
            use_type_invariant(self);
        }
        let mut i: usize = 0;
        while i < self.entries.len()
            invariant
                i <= self.entries@.len(),
                sorted(self.entries@),
                forall|j: int| 0 <= j < i ==> text::text_lt(#[trigger] self.entries@[j].0@, key@),
            decreases self.entries@.len() - i,
        {
            let current = self.entries[i].0.as_str();
            if text::str_eq(current, key) {
                proof {
                    lemma_lookup(self.entries@, i as int);
                }
                return (i, true);
            }
            proof {
                text::lemma_text_order(key@, self.entries@[i as int].0@);
            }
            if text::str_lt(key, current) {
                proof {
                    lemma_absent(self.entries@, i as int, key@);
                }
                return (i, false);
            }
            i = i + 1;
        }
        proof {
            lemma_absent(self.entries@, i as int, key@);
        }
        (i, false)
    }

    /// Whether a key is there.
    pub fn contains_key(&self, key: &str) -> (found: bool)
        ensures
            found == self@.dom().contains(key@),
    {
        self.find(key).1
    }

    /// The value of a key, if it is there.
    pub fn get(&self, key: &str) -> (value: Option<&T>)
        ensures
            match value {
                Some(v) => self@.dom().contains(key@) && *v == self@[key@],
                None => !self@.dom().contains(key@),
            },
    {
        let (at, found) = self.find(key);
        if found {
            proof {
                use_type_invariant(self);
                lemma_lookup(self.entries@, at as int);
            }
            Some(&self.entries[at].1)
        } else {
            None
        }
    }

    /// Sets the value of a key, replacing the one that was there.
    pub fn insert(&mut self, key: String, value: T)
        ensures
            final(self)@ == old(self)@.insert(key@, value),
    {
        proof {
            use_type_invariant(&*self);
        }
        let (at, found) = self.find(key.as_str());
        let ghost before = self.entries@;
        let mut entries: Vec<(String, T)> = Vec::new();
        std::mem::swap(&mut entries, &mut self.entries);
        if found {
            proof {
                lemma_update(before, at as int, (key, value));
            }
            entries.set(at, (key, value));
        } else {
            proof {
                lemma_insert(before, at as int, (key, value));
            }
            entries.insert(at, (key, value));
        }
        self.entries = entries;
    }

    /// Removes a key and hands out its value, if it was there.
    pub fn remove(&mut self, key: &str) -> (value: Option<T>)
        ensures
            final(self)@ == old(self)@.remove(key@),
            match value {
                Some(v) => old(self)@.dom().contains(key@) && v == old(self)@[key@],
                None => !old(self)@.dom().contains(key@),
            },
    {
        proof {
            use_type_invariant(&*self);
        }
        let (at, found) = self.find(key);
        if !found {
            assert(self@.remove(key@) =~= self@);
            return None;
        }
        let ghost before = self.entries@;
        let mut entries: Vec<(String, T)> = Vec::new();
        std::mem::swap(&mut entries, &mut self.entries);
        let removed = entries.remove(at);
        proof {
            lemma_lookup(before, at as int);
            lemma_remove(before, at as int);
        }
        self.entries = entries;
        Some(removed.1)
    }
}

impl<T> StrMap<T> {
    /// Removes every key that the other map does not have.
    pub fn restrict_to<U>(&mut self, keep: &StrMap<U>)
        ensures
            final(self)@ == old(self)@.restrict(keep@.dom()),
    {
        proof {
            use_type_invariant(&*self);
        }
        let ghost before = self@;
        let mut entries: Vec<(String, T)> = Vec::new();
        std::mem::swap(&mut entries, &mut self.entries);
        let mut i: usize = 0;
        while i < entries.len()
            invariant
                i <= entries@.len(),
                sorted(entries@),
                as_map(entries@).submap_of(before),
                forall|key: Seq<char>| #[trigger]
                    before.dom().contains(key) && keep@.dom().contains(key) ==> as_map(
                        entries@,
                    ).dom().contains(key),
                forall|j: int| 0 <= j < i ==> keep@.dom().contains((#[trigger] entries@[j]).0@),
            decreases entries@.len() - i,
        {
            if keep.contains_key(entries[i].0.as_str()) {
                i = i + 1;
            } else {
                proof {
                    lemma_remove(entries@, i as int);
                }
                let _ = entries.remove(i);
            }
        }
        proof {
            assert forall|key: Seq<char>| #[trigger] as_map(entries@).dom().contains(
                key,
            ) implies keep@.dom().contains(key) by {
                let j = choose|j: int| holds(entries@, j, key);
                assert(keep@.dom().contains(entries@[j].0@));
            }
            assert(as_map(entries@) =~= before.restrict(keep@.dom()));
        }
        self.entries = entries;
    }
}

impl<T: Clone> Clone for StrMap<T> {
    fn clone(&self) -> (copy: Self)
        ensures
            copy@.dom() == self@.dom(),
            copy.key_order() == self.key_order(),
            forall|key: Seq<char>| #[trigger]
                copy@.dom().contains(key) ==> cloned::<T>(self@[key], copy@[key]),
    {
        proof {
            use_type_invariant(self);
        }
        let mut entries: Vec<(String, T)> = Vec::new();
        let mut i: usize = 0;
        while i < self.entries.len()
            invariant
                i <= self.entries@.len(),
                entries@.len() == i,
                forall|j: int|
                    0 <= j < i ==> (#[trigger] entries@[j]).0@ == self.entries@[j].0@ && cloned::<T>(
                        self.entries@[j].1,
                        entries@[j].1,
                    ),
            decreases self.entries@.len() - i,
        {
            entries.push((self.entries[i].0.clone(), self.entries[i].1.clone()));
            i = i + 1;
        }
        proof {
            lemma_copy(self.entries@, entries@);
        }
        StrMap { entries }
    }
}

} // verus!
