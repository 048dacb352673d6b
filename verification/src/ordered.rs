//! Walking ordered maps with integer keys.
use std::collections::BTreeMap;
use vstd::prelude::*;

verus! {

broadcast use vstd::laws_cmp::group_laws_cmp;

/// Whether `keys` are the `keys.len()` smallest keys of a map, in ascending order.
pub open spec fn are_first_keys<V>(keys: Seq<u64>, map: Map<u64, V>) -> bool {
    &&& forall|i: int, j: int| 0 <= i < j < keys.len() ==> keys[i] < keys[j]
    &&& forall|i: int| 0 <= i < keys.len() ==> map.contains_key(#[trigger] keys[i])
    &&& forall|k: u64, i: int|
        #![trigger map.contains_key(k), keys[i]]
        map.contains_key(k) && !keys.contains(k) && 0 <= i < keys.len() ==> keys[i] < k
}

/// The smaller of two numbers.
pub open spec fn smaller(a: int, b: int) -> int {
    if a < b {
        a
    } else {
        b
    }
}

/// In the order that map keys are walked in, an earlier number is a smaller one.
proof fn lemma_increasing(keys: Seq<u64>, i: int, j: int)
    requires
        vstd::std_specs::btree::increasing_seq(keys),
        0 <= i < j < keys.len(),
    ensures
        keys[i] < keys[j],
{
    assert(vstd::std_specs::cmp::OrdSpec::cmp_spec(&keys[i], &keys[j]) is Less);
}

/// What is known of the entries of a map in the order that they are walked in.
proof fn lemma_listed<V>(map: Map<u64, V>, listed: Seq<(u64, V)>, remaining: Seq<(&u64, &V)>)
    requires
        listed == remaining.unref(),
        remaining.len() == map.dom().len(),
        vstd::std_specs::btree::increasing_seq(
            remaining.map_values(|kv: (&u64, &V)| *kv.0),
        ),
        forall|i: int|
            #![trigger map.contains_key(*remaining[i].0)]
            0 <= i < remaining.len() ==> map.contains_key(*remaining[i].0),
        forall|k: u64| #[trigger] map.contains_key(k) ==> remaining.contains((&k, &map[k])),
    ensures
        listed.len() == map.len(),
        forall|i: int, j: int|
            #![trigger listed[i], listed[j]]
            0 <= i < j < listed.len() ==> listed[i].0 < listed[j].0,
        forall|i: int| 0 <= i < listed.len() ==> map.contains_key((#[trigger] listed[i]).0),
        forall|k: u64| #[trigger]
            map.contains_key(k) ==> exists|at: int|
                0 <= at < listed.len() && (#[trigger] listed[at]).0 == k,
{
    let keys = remaining.map_values(|kv: (&u64, &V)| *kv.0);
    assert forall|i: int, j: int|
        #![trigger listed[i], listed[j]]
        0 <= i < j < listed.len() implies listed[i].0 < listed[j].0 by {
        lemma_increasing(keys, i, j);
        assert(keys[i] == listed[i].0);
        assert(keys[j] == listed[j].0);
    }
    assert forall|i: int| 0 <= i < listed.len() implies map.contains_key(
        (#[trigger] listed[i]).0,
    ) by {
        assert(map.contains_key(*remaining[i].0));
    }
    assert forall|k: u64| #[trigger] map.contains_key(k) implies exists|at: int|
        0 <= at < listed.len() && (#[trigger] listed[at]).0 == k by {
        let at = choose|at: int| 0 <= at < remaining.len() && remaining[at] == (&k, &map[k]);
        assert(listed[at].0 == k);
    }
}

/// The smallest keys of a map in ascending order, `limit` of them or all there are.
pub fn first_keys<V>(map: &BTreeMap<u64, V>, limit: usize) -> (keys: Vec<u64>)
    ensures
        are_first_keys(keys@, map@),
        keys@.len() == smaller(map@.len() as int, limit as int),
{
    let mut keys: Vec<u64> = Vec::new();
    let entries = map.iter();
    let ghost listed = vstd::std_specs::btree::into_iter(entries);
    proof {
        lemma_listed(map@, listed, vstd::std_specs::iter::IteratorSpec::remaining(&entries));
    }
    for entry in iter: entries
        invariant
            iter.seq().unref() == listed,
            keys@.len() == smaller(iter.index(), limit as int),
            forall|i: int| 0 <= i < keys@.len() ==> #[trigger] keys@[i] == listed[i].0,
        ensures
            keys@.len() == smaller(listed.len() as int, limit as int),
            forall|i: int| 0 <= i < keys@.len() ==> #[trigger] keys@[i] == listed[i].0,
    {
        if keys.len() >= limit {
            break;
        }
        assert(iter.seq().unref()[iter.index()].0 == *entry.0);
        keys.push(*entry.0);
    }
    assert forall|k: u64, i: int|
        #![trigger map@.contains_key(k), keys@[i]]
        map@.contains_key(k) && !keys@.contains(k) && 0 <= i < keys@.len() implies keys@[i] < k by {
        let at = choose|at: int| 0 <= at < listed.len() && listed[at].0 == k;
        assert(at < keys@.len() ==> keys@[at] == k);
    }
    keys
}

/// In the order that map keys are walked in, an earlier number is a smaller one.
proof fn lemma_increasing_u32(keys: Seq<u32>, i: int, j: int)
    requires
        vstd::std_specs::btree::increasing_seq(keys),
        0 <= i < j < keys.len(),
    ensures
        keys[i] < keys[j],
{
    assert(vstd::std_specs::cmp::OrdSpec::cmp_spec(&keys[i], &keys[j]) is Less);
}

/// Whether `keys` are all keys of a map, in ascending order.
pub open spec fn are_all_keys<V>(keys: Seq<u32>, map: Map<u32, V>) -> bool {
    &&& forall|i: int, j: int| 0 <= i < j < keys.len() ==> keys[i] < keys[j]
    &&& forall|i: int| 0 <= i < keys.len() ==> map.contains_key(#[trigger] keys[i])
    &&& forall|k: u32| #[trigger] map.contains_key(k) ==> keys.contains(k)
}

proof fn lemma_all_listed<V>(map: Map<u32, V>, listed: Seq<(u32, V)>, remaining: Seq<(&u32, &V)>)
    requires
        listed == remaining.unref(),
        remaining.len() == map.dom().len(),
        vstd::std_specs::btree::increasing_seq(
            remaining.map_values(|kv: (&u32, &V)| *kv.0),
        ),
        forall|i: int|
            #![trigger map.contains_key(*remaining[i].0)]
            0 <= i < remaining.len() ==> map.contains_key(*remaining[i].0),
        forall|k: u32| #[trigger] map.contains_key(k) ==> remaining.contains((&k, &map[k])),
    ensures
        listed.len() == map.len(),
        are_all_keys(Seq::new(listed.len(), |i: int| listed[i].0), map),
{
    let walked = remaining.map_values(|kv: (&u32, &V)| *kv.0);
    let keys = Seq::new(listed.len(), |i: int| listed[i].0);
    assert(walked =~= keys);
    assert forall|i: int, j: int| 0 <= i < j < keys.len() implies keys[i] < keys[j] by {
        lemma_increasing_u32(walked, i, j);
    }
    assert forall|i: int| 0 <= i < keys.len() implies map.contains_key(#[trigger] keys[i]) by {
        assert(map.contains_key(*remaining[i].0));
    }
    assert forall|k: u32| #[trigger] map.contains_key(k) implies keys.contains(k) by {
        let at = choose|at: int| 0 <= at < remaining.len() && remaining[at] == (&k, &map[k]);
        assert(keys[at] == k);
    }
}

/// All keys of a map in ascending order.
pub fn all_keys<V>(map: &BTreeMap<u32, V>) -> (keys: Vec<u32>)
    ensures
        are_all_keys(keys@, map@),
        keys@.len() == map@.len(),
{
    let mut keys: Vec<u32> = Vec::new();
    let entries = map.iter();
    let ghost listed = vstd::std_specs::btree::into_iter(entries);
    proof {
        lemma_all_listed(map@, listed, vstd::std_specs::iter::IteratorSpec::remaining(&entries));
    }
    for entry in iter: entries
        invariant
            iter.seq().unref() == listed,
            keys@.len() == iter.index(),
            forall|i: int| 0 <= i < keys@.len() ==> #[trigger] keys@[i] == listed[i].0,
    {
        assert(iter.seq().unref()[iter.index()].0 == *entry.0);
        keys.push(*entry.0);
    }
    assert(keys@ =~= Seq::new(listed.len(), |i: int| listed[i].0));
    keys
}

} // verus!
