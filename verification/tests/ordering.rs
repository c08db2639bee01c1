use lan_cat::ordering::{ClockRelation, VersionVector};
use lan_cat::strmap::StrMap;

fn clock(counts: &[(&str, u64)]) -> VersionVector {
    let mut map: StrMap<u64> = StrMap::new();
    for (device, count) in counts {
        map.insert((*device).to_owned(), *count);
    }
    VersionVector(map)
}

#[test]
fn vector_relations_and_merge() {
    let mut a = VersionVector::default();
    a.increment("a");
    let mut b = a.clone();
    b.increment("b");
    assert_eq!(a.relation(&b), ClockRelation::Before);
    a.increment("a");
    assert_eq!(a.relation(&b), ClockRelation::Concurrent);
    a.merge(&b);
    assert_eq!(a, clock(&[("a", 2), ("b", 1)]));
}

#[test]
fn relation_covers_every_case() {
    let empty = VersionVector::default();
    let one = clock(&[("a", 1)]);
    let both = clock(&[("a", 1), ("b", 3)]);
    assert_eq!(empty.relation(&VersionVector::default()), ClockRelation::Equal);
    assert_eq!(one.relation(&empty), ClockRelation::After);
    assert_eq!(empty.relation(&one), ClockRelation::Before);
    assert_eq!(both.relation(&one), ClockRelation::After);
    assert_eq!(one.relation(&clock(&[("b", 1)])), ClockRelation::Concurrent);
    assert_eq!(clock(&[("a", 0)]).relation(&empty), ClockRelation::Equal);
}

#[test]
fn increment_counts_from_one() {
    let mut value = VersionVector::default();
    assert_eq!(value.get("a"), 0);
    assert_eq!(value.increment("a"), 1);
    assert_eq!(value.increment("a"), 2);
    assert_eq!(value.get("a"), 2);
    assert_eq!(value.get("b"), 0);
}

#[test]
fn merge_order_does_not_matter() {
    let left = clock(&[("a", 4), ("c", 1)]);
    let right = clock(&[("a", 2), ("b", 7)]);
    let mut one = left.clone();
    one.merge(&right);
    let mut other = right.clone();
    other.merge(&left);
    assert_eq!(one, other);
    assert_eq!(one, clock(&[("a", 4), ("b", 7), ("c", 1)]));
}

#[test]
fn event_follows_what_was_merged() {
    let mut local = clock(&[("a", 1)]);
    let seen = clock(&[("b", 5)]);
    local.merge(&seen);
    local.increment("a");
    assert_eq!(local.relation(&seen), ClockRelation::After);
}
