//! Version vectors: which of two clipboard states has seen the other.

use vstd::prelude::*;

use crate::strmap::StrMap;

verus! {

/// Identifies a device.
pub type DeviceId = String;

/// How many events of each device a state has seen. A device that is not in
/// the map counts as zero.
#[derive(Debug, PartialEq, Eq)]
pub struct VersionVector(pub StrMap<u64>);

/// How one version vector stands to another.
#[derive(Copy, Clone, Debug, PartialEq, Eq, Structural)]
pub enum ClockRelation {
    Before,
    After,
    Concurrent,
    Equal,
}

/// What a vector counts for a device.
pub open spec fn count(clock: Map<Seq<char>, u64>, device: Seq<char>) -> int {
    if clock.dom().contains(device) {
        clock[device] as int
    } else {
        0
    }
}

/// `a` has seen nothing that `b` has not.
pub open spec fn at_most(a: Map<Seq<char>, u64>, b: Map<Seq<char>, u64>) -> bool {
    forall|device: Seq<char>| #[trigger] count(a, device) <= count(b, device)
}

/// How `a` stands to `b`.
pub open spec fn relation_of(a: Map<Seq<char>, u64>, b: Map<Seq<char>, u64>) -> ClockRelation {
    if at_most(a, b) && at_most(b, a) {
        ClockRelation::Equal
    } else if at_most(a, b) {
        ClockRelation::Before
    } else if at_most(b, a) {
        ClockRelation::After
    } else {
        ClockRelation::Concurrent
    }
}

/// Everything that `a` or `b` has seen.
pub open spec fn merged(a: Map<Seq<char>, u64>, b: Map<Seq<char>, u64>) -> Map<Seq<char>, u64> {
    Map::new(
        |device: Seq<char>| a.dom().contains(device) || b.dom().contains(device),
        |device: Seq<char>|
            (if count(a, device) < count(b, device) {
                count(b, device)
            } else {
                count(a, device)
            }) as u64,
    )
}

/// `clock` after one more event of `device`.
pub open spec fn ticked(clock: Map<Seq<char>, u64>, device: Seq<char>) -> Map<Seq<char>, u64> {
    clock.insert(device, (count(clock, device) + 1) as u64)
}

impl View for VersionVector {
    type V = Map<Seq<char>, u64>;

    open spec fn view(&self) -> Map<Seq<char>, u64> {
        self.0@
    }
}

impl Default for VersionVector {
    fn default() -> (clock: Self)
        ensures
            clock@ == Map::<Seq<char>, u64>::empty(),
    {
        VersionVector(StrMap::new())
    }
}

impl Clone for VersionVector {
    fn clone(&self) -> (copy: Self)
        ensures
            copy@ == self@,
    {
        let map = self.0.clone();
        assert(map@ =~= self.0@);
        VersionVector(map)
    }
}

impl VersionVector {
    /// The count of a device.
    pub fn get(&self, device: &str) -> (value: u64)
        ensures
            value == count(self@, device@),
    {
        match self.0.get(device) {
            Some(value) => *value,
            None => 0,
        }
    }

    /// Counts one more event of a device and returns its new count.
    pub fn increment(&mut self, device: &str) -> (value: u64)
        requires
            count(old(self)@, device@) < u64::MAX,
        ensures
            value == count(old(self)@, device@) + 1,
            final(self)@ == ticked(old(self)@, device@),
    {
        let value: u64 = self.get(device) + 1;
        self.0.insert(device.to_owned(), value);
        value
    }

    /// Takes over whatever the other vector has seen.
    pub fn merge(&mut self, other: &Self)
        ensures
            final(self)@ == merged(old(self)@, other@),
    {
        let n: usize = other.0.len();
        let ghost before = self@;
        let mut i: usize = 0;
        proof {
            assert(self@ =~= merged_upto(before, other@, other.0.key_order(), 0));
        }
        while i < n
            invariant
                i <= n,
                n == other.0.key_order().len(),
                other.0.key_order().no_duplicates(),
                other.0.key_order().to_set() == other@.dom(),
                self@ == merged_upto(before, other@, other.0.key_order(), i as int),
            decreases n - i,
        {
            let device = other.0.key_at(i);
            let value: u64 = *other.0.value_at(i);
            let ghost order = other.0.key_order();
            let ghost previous = self@;
            proof {
                assert(order.to_set().contains(order[i as int]));
                assert(!order.take(i as int).contains(device@)) by {
                    if order.take(i as int).contains(device@) {
                        let j = choose|j: int|
                            0 <= j < i && order.take(i as int)[j] == device@;
                        assert(order[j] == order[i as int]);
                    }
                }
                assert(order.take(i + 1) =~= order.take(i as int).push(device@));
                assert forall|key: Seq<char>| order.take(i + 1).contains(key) == (order.take(
                    i as int,
                ).contains(key) || key == device@) by {
                    if order.take(i as int).contains(key) {
                        let j = choose|j: int|
                            0 <= j < i && order.take(i as int)[j] == key;
                        assert(order.take(i + 1)[j] == key);
                    }
                    if key == device@ {
                        assert(order.take(i + 1)[i as int] == key);
                    }
                    if order.take(i + 1).contains(key) && key != device@ {
                        let wider = order.take(i + 1);
                        let j = choose|j: int| 0 <= j < wider.len() && wider[j] == key;
                        assert(order.take(i as int)[j] == key);
                    }
                }
            }
            let local: u64 = self.get(device);
            let larger: u64 = if local < value {
                value
            } else {
                local
            };
            self.0.insert(device.to_owned(), larger);
            proof {
                assert(self@ =~= merged_upto(before, other@, order, i + 1));
            }
            i = i + 1;
        }
        proof {
            let order = other.0.key_order();
            assert(order.take(n as int) =~= order);
            assert forall|key: Seq<char>| order.contains(key) == other@.dom().contains(key) by {
                assert(order.to_set().contains(key) == other@.dom().contains(key));
            }
            assert(self@ =~= merged(before, other@));
        }
    }

    /// How this vector stands to the other.
    pub fn relation(&self, other: &Self) -> (relation: ClockRelation)
        ensures
            relation == relation_of(self@, other@),
    {
        let greater = self.exceeds(other);
        let less = other.exceeds(self);
        if less && greater {
            ClockRelation::Concurrent
        } else if less {
            ClockRelation::Before
        } else if greater {
            ClockRelation::After
        } else {
            ClockRelation::Equal
        }
    }

    /// Whether this vector counts more than the other for some device.
    fn exceeds(&self, other: &Self) -> (exceeds: bool)
        ensures
            exceeds == !at_most(self@, other@),
    {
        let n: usize = self.0.len();
        let mut i: usize = 0;
        while i < n
            invariant
                i <= n,
                n == self.0.key_order().len(),
                self.0.key_order().to_set() == self@.dom(),
                forall|j: int|
                    0 <= j < i ==> count(self@, #[trigger] self.0.key_order()[j]) <= count(
                        other@,
                        self.0.key_order()[j],
                    ),
            decreases n - i,
        {
            let device = self.0.key_at(i);
            let value: u64 = *self.0.value_at(i);
            proof {
                assert(self.0.key_order().to_set().contains(device@));
            }
            if value > other.get(device) {
                assert(count(self@, device@) > count(other@, device@));
                return true;
            }
            i = i + 1;
        }
        proof {
            assert forall|device: Seq<char>| #[trigger] count(self@, device) <= count(
                other@,
                device,
            ) by {
                if self@.dom().contains(device) {
                    assert(self.0.key_order().to_set().contains(device));
                    let j = choose|j: int|
                        0 <= j < n && self.0.key_order()[j] == device;
                    assert(count(self@, self.0.key_order()[j]) <= count(other@, device));
                }
            }
        }
        false
    }
}

/// `a` after taking over the first `n` of the keys of `b`.
spec fn merged_upto(
    a: Map<Seq<char>, u64>,
    b: Map<Seq<char>, u64>,
    order: Seq<Seq<char>>,
    n: int,
) -> Map<Seq<char>, u64> {
    Map::new(
        |device: Seq<char>| a.dom().contains(device) || order.take(n).contains(device),
        |device: Seq<char>|
            if order.take(n).contains(device) && count(a, device) < count(b, device) {
                b[device]
            } else if a.dom().contains(device) {
                a[device]
            } else {
                b[device]
            },
    )
}

/// Merging gives the least vector that has seen what both have seen.
pub proof fn law_merge_is_least_upper_bound(
    a: Map<Seq<char>, u64>,
    b: Map<Seq<char>, u64>,
    bound: Map<Seq<char>, u64>,
)
    ensures
        at_most(a, merged(a, b)),
        at_most(b, merged(a, b)),
        at_most(a, bound) && at_most(b, bound) ==> at_most(merged(a, b), bound),
{
    if at_most(a, bound) && at_most(b, bound) {
        assert forall|device: Seq<char>| #[trigger] count(merged(a, b), device) <= count(
            bound,
            device,
        ) by {
            assert(count(a, device) <= count(bound, device));
            assert(count(b, device) <= count(bound, device));
        }
    }
}

/// Merging counts the larger of the two counts for every device, so it does not
/// matter in which order, or how often, vectors are merged.
pub proof fn law_merge_order_does_not_matter(
    a: Map<Seq<char>, u64>,
    b: Map<Seq<char>, u64>,
    c: Map<Seq<char>, u64>,
)
    ensures
        forall|device: Seq<char>| #[trigger]
            count(merged(a, b), device) == if count(a, device) < count(b, device) {
                count(b, device)
            } else {
                count(a, device)
            },
        merged(a, a) == a,
        merged(a, b) == merged(b, a),
        merged(merged(a, b), c) == merged(a, merged(b, c)),
{
    assert(merged(a, a) =~= a);
    assert(merged(a, b) =~= merged(b, a));
    assert(merged(merged(a, b), c) =~= merged(a, merged(b, c)));
}

/// The relation reads the same from both sides: what is before from here is
/// after from there.
pub proof fn law_relation_is_symmetric(a: Map<Seq<char>, u64>, b: Map<Seq<char>, u64>)
    ensures
        relation_of(a, a) == ClockRelation::Equal,
        relation_of(a, b) == ClockRelation::Before <==> relation_of(b, a) == ClockRelation::After,
        relation_of(a, b) == ClockRelation::Equal <==> relation_of(b, a) == ClockRelation::Equal,
        relation_of(a, b) == ClockRelation::Concurrent <==> relation_of(b, a)
            == ClockRelation::Concurrent,
{
}

/// What comes before something that comes before a third comes before the
/// third.
pub proof fn law_before_is_transitive(
    a: Map<Seq<char>, u64>,
    b: Map<Seq<char>, u64>,
    c: Map<Seq<char>, u64>,
)
    requires
        relation_of(a, b) == ClockRelation::Before,
        relation_of(b, c) == ClockRelation::Before,
    ensures
        relation_of(a, c) == ClockRelation::Before,
{
    assert forall|device: Seq<char>| #[trigger] count(a, device) <= count(c, device) by {
        assert(count(a, device) <= count(b, device));
        assert(count(b, device) <= count(c, device));
    }
    let device = choose|device: Seq<char>| count(b, device) > count(a, device);
    assert(count(b, device) <= count(c, device));
    assert(count(c, device) > count(a, device));
}

/// A vector is after what it was before counting one more event.
pub proof fn law_increment_moves_after(clock: Map<Seq<char>, u64>, device: Seq<char>)
    requires
        count(clock, device) < u64::MAX,
    ensures
        relation_of(ticked(clock, device), clock) == ClockRelation::After,
{
    let next = ticked(clock, device);
    assert(count(next, device) > count(clock, device));
    assert forall|other: Seq<char>| #[trigger] count(clock, other) <= count(next, other) by {
    }
}

/// An event counted on top of everything merged so far is after each of the
/// merged vectors.
pub proof fn law_event_follows_what_was_seen(
    clock: Map<Seq<char>, u64>,
    seen: Map<Seq<char>, u64>,
    device: Seq<char>,
)
    requires
        count(merged(clock, seen), device) < u64::MAX,
    ensures
        relation_of(ticked(merged(clock, seen), device), seen) == ClockRelation::After,
{
    let base = merged(clock, seen);
    let next = ticked(base, device);
    law_merge_is_least_upper_bound(clock, seen, base);
    assert(count(seen, device) <= count(base, device));
    assert(count(next, device) > count(seen, device));
    assert forall|other: Seq<char>| #[trigger] count(seen, other) <= count(next, other) by {
        assert(count(seen, other) <= count(base, other));
    }
}

} // verus!
