//! A map keyed by identifiers, in the order in which they came.

use vstd::prelude::*;

verus! {

/// A map from identifiers to values. No identifier occurs twice; entries keep
/// the order in which their identifiers came.
#[derive(Debug, PartialEq, Eq)]
pub struct IdMap<T> {
    entries: Vec<(u128, T)>,
}

spec fn distinct<T>(entries: Seq<(u128, T)>) -> bool {
    forall|i: int, j: int|
        #![trigger entries[i], entries[j]]
        0 <= i < j < entries.len() ==> entries[i].0 != entries[j].0
}

spec fn holds<T>(entries: Seq<(u128, T)>, i: int, id: u128) -> bool {
    0 <= i < entries.len() && entries[i].0 == id
}

spec fn as_map<T>(entries: Seq<(u128, T)>) -> Map<u128, T> {
    Map::new(
        |id: u128| exists|i: int| holds(entries, i, id),
        |id: u128| entries[choose|i: int| holds(entries, i, id)].1,
    )
}

proof fn lemma_lookup<T>(entries: Seq<(u128, T)>, i: int)
    requires
        distinct(entries),
        0 <= i < entries.len(),
    ensures
        as_map(entries).dom().contains(entries[i].0),
        as_map(entries)[entries[i].0] == entries[i].1,
{
    let id = entries[i].0;
    assert(holds(entries, i, id));
    let j = choose|j: int| holds(entries, j, id);
    if i < j {
        assert(entries[i].0 != entries[j].0);
    } else if j < i {
        assert(entries[j].0 != entries[i].0);
    }
}

proof fn lemma_put<T>(before: Seq<(u128, T)>, after: Seq<(u128, T)>, at: int, id: u128, value: T)
    requires
        distinct(before),
        0 <= at < after.len(),
        after[at] == (id, value),
        (at < before.len() && before[at].0 == id && after == before.update(at, (id, value))) || (at
            == before.len() && after == before.push((id, value)) && !as_map(before).dom().contains(
            id,
        )),
    ensures
        distinct(after),
        as_map(after) == as_map(before).insert(id, value),
{
    assert forall|i: int, j: int|
        #![trigger after[i], after[j]]
        0 <= i < j < after.len() implies after[i].0 != after[j].0 by {
        if j < before.len() {
            assert(before[i].0 != before[j].0);
        } else if at == before.len() {
            assert(after[i] == before[i]);
            if before[i].0 == id {
                lemma_lookup(before, i);
            }
        }
    }
    let want = as_map(before).insert(id, value);
    assert forall|key: u128| #[trigger] as_map(after).dom().contains(key) == want.dom().contains(
        key,
    ) by {
        if as_map(after).dom().contains(key) && key != id {
            let i = choose|i: int| holds(after, i, key);
            assert(holds(before, i, key));
        }
        if want.dom().contains(key) {
            if key == id {
                assert(holds(after, at, key));
            } else {
                let i = choose|i: int| holds(before, i, key);
                assert(holds(after, i, key));
            }
        }
    }
    assert forall|key: u128| as_map(after).dom().contains(key) implies #[trigger] as_map(after)[key]
        == want[key] by {
        let i = choose|i: int| holds(after, i, key);
        lemma_lookup(after, i);
        if key != id {
            lemma_lookup(before, i);
        } else if i != at {
            if i < at {
                assert(after[i].0 != after[at].0);
            } else {
                assert(after[at].0 != after[i].0);
            }
        }
    }
    assert(as_map(after) =~= want);
}

proof fn lemma_remove<T>(before: Seq<(u128, T)>, at: int)
    requires
        distinct(before),
        0 <= at < before.len(),
    ensures
        distinct(before.remove(at)),
        as_map(before.remove(at)) == as_map(before).remove(before[at].0),
{
    let after = before.remove(at);
    let want = as_map(before).remove(before[at].0);
    assert forall|i: int, j: int|
        #![trigger after[i], after[j]]
        0 <= i < j < after.len() implies after[i].0 != after[j].0 by {
        let old_i = if i < at { i } else { i + 1 };
        let old_j = if j < at { j } else { j + 1 };
        assert(before[old_i].0 != before[old_j].0);
    }
    assert forall|key: u128| #[trigger] as_map(after).dom().contains(key) == want.dom().contains(
        key,
    ) by {
        if as_map(after).dom().contains(key) {
            let i = choose|i: int| holds(after, i, key);
            let old_i = if i < at { i } else { i + 1 };
            assert(holds(before, old_i, key));
            if old_i < at {
                assert(before[old_i].0 != before[at].0);
            } else {
                assert(before[at].0 != before[old_i].0);
            }
        }
        if want.dom().contains(key) {
            let i = choose|i: int| holds(before, i, key);
            assert(holds(after, if i < at { i } else { i - 1 }, key));
        }
    }
    assert forall|key: u128| as_map(after).dom().contains(key) implies #[trigger] as_map(after)[key]
        == want[key] by {
        let i = choose|i: int| holds(after, i, key);
        lemma_lookup(after, i);
        lemma_lookup(before, if i < at { i } else { i + 1 });
    }
    assert(as_map(after) =~= want);
}

impl<T> View for IdMap<T> {
    type V = Map<u128, T>;

    closed spec fn view(&self) -> Map<u128, T> {
        as_map(self.entries@)
    }
}

impl<T> IdMap<T> {
    #[verifier::type_invariant]
    spec fn well_formed(self) -> bool {
        distinct(self.entries@)
    }

    /// The identifiers, in the order in which they came.
    pub closed spec fn order(self) -> Seq<u128> {
        Seq::new(self.entries@.len(), |i: int| self.entries@[i].0)
    }

    /// The empty map.
    pub fn new() -> (map: Self)
        ensures
            map@ == Map::<u128, T>::empty(),
            map.order() == Seq::<u128>::empty(),
    {
        let map = IdMap { entries: Vec::new() };
        assert(map@ =~= Map::<u128, T>::empty());
        assert(map.order() =~= Seq::<u128>::empty());
        map
    }

    /// How many entries there are.
    pub fn len(&self) -> (n: usize)
        ensures
            n == self.order().len(),
            self.order().no_duplicates(),
            self.order().to_set() == self@.dom(),
            forall|i: int| 0 <= i < n ==> self@.dom().contains(#[trigger] self.order()[i]),
    {
        proof {
            use_type_invariant(self);
            let order = self.order();
            assert forall|i: int| 0 <= i < order.len() implies self@.dom().contains(
                #[trigger] order[i],
            ) by {
                lemma_lookup(self.entries@, i);
            }
            assert forall|id: u128| order.to_set().contains(id) == self@.dom().contains(id) by {
                if self@.dom().contains(id) {
                    let i = choose|i: int| holds(self.entries@, i, id);
                    assert(order[i] == id);
                }
            }
            assert(order.to_set() =~= self@.dom());
            assert forall|i: int, j: int| 0 <= i < order.len() && 0 <= j < order.len() && i
                != j implies order[i] != order[j] by {
                if i < j {
                    assert(self.entries@[i].0 != self.entries@[j].0);
                } else {
                    assert(self.entries@[j].0 != self.entries@[i].0);
                }
            }
        }
        self.entries.len()
    }

    /// The value at a place of the order.
    pub fn value_at(&self, i: usize) -> (value: &T)
        requires
            i < self.order().len(),
        ensures
            *value == self@[self.order()[i as int]],
    {
        proof {
            use_type_invariant(self);
            lemma_lookup(self.entries@, i as int);
        }
        &self.entries[i].1
    }

    /// The place of an identifier, if it is there.
    fn find(&self, id: u128) -> (found: Option<usize>)
        ensures
            match found {
                Some(at) => at < self.entries@.len() && self.entries@[at as int].0 == id
                    && self@.dom().contains(id) && self@[id] == self.entries@[at as int].1,
                None => !self@.dom().contains(id),
            },
    {
        proof {
            use_type_invariant(self);
        }
        let mut i: usize = 0;
        while i < self.entries.len()
            invariant
                i <= self.entries@.len(),
                distinct(self.entries@),
                forall|j: int| 0 <= j < i ==> (#[trigger] self.entries@[j]).0 != id,
            decreases self.entries@.len() - i,
        {
            if self.entries[i].0 == id {
                proof {
                    lemma_lookup(self.entries@, i as int);
                }
                return Some(i);
            }
            i = i + 1;
        }
        proof {
            if self@.dom().contains(id) {
                let j = choose|j: int| holds(self.entries@, j, id);
                assert(self.entries@[j].0 != id);
            }
        }
        None
    }

    /// Whether an identifier is there.
    pub fn contains_key(&self, id: u128) -> (found: bool)
        ensures
            found == self@.dom().contains(id),
    {
        self.find(id).is_some()
    }

    /// The value of an identifier, if it is there.
    pub fn get(&self, id: u128) -> (value: Option<&T>)
        ensures
            match value {
                Some(v) => self@.dom().contains(id) && *v == self@[id],
                None => !self@.dom().contains(id),
            },
    {
        match self.find(id) {
            Some(at) => Some(&self.entries[at].1),
            None => None,
        }
    }

    /// Sets the value of an identifier. A new identifier comes last.
    pub fn insert(&mut self, id: u128, value: T)
        ensures
            final(self)@ == old(self)@.insert(id, value),
            final(self).order() == if old(self)@.dom().contains(id) {
                old(self).order()
            } else {
                old(self).order().push(id)
            },
    {
        proof {
            use_type_invariant(&*self);
        }
        let found = self.find(id);
        let ghost before = self.entries@;
        let ghost order = self.order();
        let mut entries: Vec<(u128, T)> = Vec::new();
        std::mem::swap(&mut entries, &mut self.entries);
        match found {
            Some(at) => {
                proof {
                    lemma_put(before, before.update(at as int, (id, value)), at as int, id, value);
                }
                entries.set(at, (id, value));
                self.entries = entries;
                assert(self.order() =~= order);
            },
            None => {
                proof {
                    lemma_put(before, before.push((id, value)), before.len() as int, id, value);
                }
                entries.push((id, value));
                self.entries = entries;
                assert(self.order() =~= order.push(id));
            },
        }
    }

    /// Removes an identifier and hands out its value, if it was there.
    pub fn remove(&mut self, id: u128) -> (value: Option<T>)
        ensures
            final(self)@ == old(self)@.remove(id),
            match value {
                Some(v) => old(self)@.dom().contains(id) && v == old(self)@[id],
                None => !old(self)@.dom().contains(id),
            },
    {
        proof {
            use_type_invariant(&*self);
        }
        match self.find(id) {
            Some(at) => {
                let ghost before = self.entries@;
                let mut entries: Vec<(u128, T)> = Vec::new();
                std::mem::swap(&mut entries, &mut self.entries);
                let removed = entries.remove(at);
                proof {
                    lemma_remove(before, at as int);
                }
                self.entries = entries;
                Some(removed.1)
            },
            None => {
                assert(self@.remove(id) =~= self@);
                None
            },
        }
    }
}

} // verus!
