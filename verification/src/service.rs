//! Service layer: turns the records of the upstream services into domain
//! records, groups them by container and assembles containers.

use std::collections::HashMap;
use vstd::prelude::*;
use vstd::std_specs::iter::IteratorSpec;

use crate::types::views;

pub mod advertisement;
pub mod cache;
pub mod container;
pub mod image;
pub mod video;

verus! {

/// The values that `pairs` holds under `key`, in the order of `pairs`.
pub open spec fn values_of<V>(pairs: Seq<(u32, V)>, key: u32) -> Seq<V>
    decreases pairs.len(),
{
    if pairs.len() == 0 {
        Seq::empty()
    } else if pairs.last().0 == key {
        values_of(pairs.drop_last(), key).push(pairs.last().1)
    } else {
        values_of(pairs.drop_last(), key)
    }
}

/// Whether `pairs` holds a value under `key`.
pub open spec fn has_key<V>(pairs: Seq<(u32, V)>, key: u32) -> bool {
    exists|i: int| 0 <= i < pairs.len() && (#[trigger] pairs[i]).0 == key
}

/// The grouping of `pairs`: each key that occurs in `pairs`, with the values
/// that `pairs` holds under it, in the order of `pairs`.
pub open spec fn grouped<V>(pairs: Seq<(u32, V)>) -> Map<u32, Seq<V>> {
    Map::new(|key: u32| has_key(pairs, key), |key: u32| values_of(pairs, key))
}

/// The lists of a map of lists, as sequences.
pub open spec fn lists<V>(map: Map<u32, Vec<V>>) -> Map<u32, Seq<V>> {
    map.map_values(|list: Vec<V>| list@)
}

/// A key that does not occur in `pairs` has no values there.
pub proof fn lemma_values_of_absent<V>(pairs: Seq<(u32, V)>, key: u32)
    requires
        !has_key(pairs, key),
    ensures
        values_of(pairs, key) == Seq::<V>::empty(),
    decreases pairs.len(),
{
    if pairs.len() > 0 {
        assert(pairs[pairs.len() - 1].0 != key);
        assert forall|i: int| 0 <= i < pairs.drop_last().len() implies (
        #[trigger] pairs.drop_last()[i]).0 != key by {
            assert(pairs[i].0 != key);
        }
        lemma_values_of_absent(pairs.drop_last(), key);
    }
}

/// The lists of a map of lists, as sequences of views.
pub open spec fn list_views<V: View>(map: Map<u32, Vec<V>>) -> Map<u32, Seq<V::V>> {
    map.map_values(|list: Vec<V>| views(list@))
}

/// Pairs of a key and a value, with each value as its view.
pub open spec fn pair_views<V: View>(pairs: Seq<(u32, V)>) -> Seq<(u32, V::V)> {
    pairs.map_values(|pair: (u32, V)| (pair.0, pair.1@))
}

/// The values that the views of `pairs` hold under a key are the views of
/// the values that `pairs` holds under it.
pub proof fn lemma_values_of_views<V: View>(pairs: Seq<(u32, V)>, key: u32)
    ensures
        values_of(pair_views(pairs), key) == views(values_of(pairs, key)),
    decreases pairs.len(),
{
    if pairs.len() == 0 {
        assert(values_of(pair_views(pairs), key) =~= views(values_of(pairs, key)));
    } else {
        lemma_values_of_views(pairs.drop_last(), key);
        assert(pair_views(pairs).drop_last() == pair_views(pairs.drop_last()));
        assert(values_of(pair_views(pairs), key) =~= views(values_of(pairs, key)));
    }
}

/// Grouping commutes with taking views: a map whose lists are the grouping
/// of `pairs` has, as views, the grouping of the views of `pairs`.
pub proof fn lemma_grouped_views<V: View>(pairs: Seq<(u32, V)>, map: Map<u32, Vec<V>>)
    requires
        lists(map) == grouped(pairs),
    ensures
        list_views(map) == grouped(pair_views(pairs)),
{
    let keyed = pair_views(pairs);
    assert forall|key: u32| has_key(keyed, key) <==> has_key(pairs, key) by {
        if has_key(keyed, key) {
            let i = choose|i: int| 0 <= i < keyed.len() && (#[trigger] keyed[i]).0 == key;
            assert(pairs[i].0 == key);
        }
        if has_key(pairs, key) {
            let i = choose|i: int| 0 <= i < pairs.len() && (#[trigger] pairs[i]).0 == key;
            assert(keyed[i].0 == key);
        }
    }
    assert forall|key: u32| #[trigger] list_views(map).contains_key(key) <==> grouped(
        keyed,
    ).contains_key(key) by {
        assert(lists(map).contains_key(key) <==> map.contains_key(key));
        assert(grouped(pairs).contains_key(key) <==> has_key(pairs, key));
    }
    assert forall|key: u32| #[trigger] list_views(map).contains_key(key) implies list_views(
        map,
    )[key] == grouped(keyed)[key] by {
        assert(lists(map).contains_key(key));
        assert(lists(map)[key] == values_of(pairs, key));
        lemma_values_of_views(pairs, key);
    }
    assert(list_views(map) =~= grouped(keyed));
}

/// Grouping one more pair appends its value to the list of its key.
pub proof fn lemma_grouped_push<V>(pairs: Seq<(u32, V)>, key: u32, value: V)
    ensures
        grouped(pairs.push((key, value))) == grouped(pairs).insert(
            key,
            values_of(pairs, key).push(value),
        ),
{
    let next = pairs.push((key, value));
    assert(next.drop_last() == pairs);
    assert forall|k: u32| has_key(next, k) <==> (has_key(pairs, k) || k == key) by {
        if has_key(next, k) {
            let i = choose|i: int| 0 <= i < next.len() && (#[trigger] next[i]).0 == k;
            if i < pairs.len() {
                assert(pairs[i].0 == k);
            }
        }
        if has_key(pairs, k) {
            let i = choose|i: int| 0 <= i < pairs.len() && (#[trigger] pairs[i]).0 == k;
            assert(next[i].0 == k);
        }
        if k == key {
            assert(next[next.len() - 1].0 == k);
        }
    }
    assert(grouped(next) =~= grouped(pairs).insert(key, values_of(pairs, key).push(value)));
}

/// Group values by key.
///
/// Every value of `pairs` is kept, duplicates too, in the list of its key and
/// in the order of `pairs`.
pub fn group<V>(pairs: Vec<(u32, V)>) -> (map: HashMap<u32, Vec<V>>)
    ensures
        lists(map@) == grouped(pairs@),
{
    let ghost all = pairs@;
    let mut map: HashMap<u32, Vec<V>> = HashMap::with_capacity(pairs.len());
    assert(lists(map@) =~= grouped(all.take(0)));
    for pair in iter: pairs
        invariant
            iter.seq() == all,
            lists(map@) == grouped(all.take(iter.index() as int)),
    {
        let ghost done = all.take(iter.index() as int);
        let ghost before = map@;
        let (key, value) = pair;
        let mut list = match map.remove(&key) {
            Some(list) => list,
            None => Vec::with_capacity(1),
        };
        proof {
            assert(lists(before).contains_key(key) <==> before.contains_key(key));
            assert(grouped(done).contains_key(key) <==> has_key(done, key));
            if before.contains_key(key) {
                assert(lists(before)[key] == values_of(done, key));
            } else {
                lemma_values_of_absent(done, key);
            }
            assert(list@ == values_of(done, key));
        }
        list.push(value);
        map.insert(key, list);
        proof {
            lemma_grouped_push(done, key, value);
            assert(done.push((key, value)) == all.take(iter.index() + 1));
            assert(lists(map@) =~= lists(before).insert(key, list@));
        }
    }
    assert(all.take(all.len() as int) == all);
    map
}

/* ***************************************** Flattening ***************************************** */

/// The values of a list, each with the same key.
pub open spec fn keyed<V>(key: u32, list: Seq<V>) -> Seq<(u32, V)> {
    list.map_values(|value: V| (key, value))
}

/// The pairs of a map of lists, key by key in the order of `keys`, and under
/// each key in the order of its list.
pub open spec fn flattened<V>(map: Map<u32, Seq<V>>, keys: Seq<u32>) -> Seq<(u32, V)>
    decreases keys.len(),
{
    if keys.len() == 0 {
        Seq::empty()
    } else {
        flattened(map, keys.drop_last()) + keyed(keys.last(), map[keys.last()])
    }
}

/// Whether `keys` names each key of the map once.
pub open spec fn enumerates<V>(keys: Seq<u32>, map: Map<u32, V>) -> bool {
    &&& keys.no_duplicates()
    &&& forall|key: u32| keys.contains(key) <==> map.contains_key(key)
}

/// The values under a key in one sequence after another are the values
/// under it in the first, then those under it in the second.
pub proof fn lemma_values_of_concat<V>(first: Seq<(u32, V)>, second: Seq<(u32, V)>, key: u32)
    ensures
        values_of(first + second, key) == values_of(first, key) + values_of(second, key),
    decreases second.len(),
{
    if second.len() == 0 {
        assert(first + second == first);
        assert(values_of(first, key) + values_of(second, key) =~= values_of(first, key));
    } else {
        lemma_values_of_concat(first, second.drop_last(), key);
        assert((first + second).drop_last() == first + second.drop_last());
        assert((first + second).last() == second.last());
        assert(values_of(first + second, key) =~= values_of(first, key) + values_of(second, key));
    }
}

/// A list keyed by one key holds the list under that key and nothing under
/// any other.
pub proof fn lemma_values_of_keyed<V>(own: u32, list: Seq<V>, key: u32)
    ensures
        values_of(keyed(own, list), key) == if key == own {
            list
        } else {
            Seq::empty()
        },
    decreases list.len(),
{
    if list.len() == 0 {
        assert(values_of(keyed(own, list), key) =~= list);
    } else {
        lemma_values_of_keyed(own, list.drop_last(), key);
        assert(keyed(own, list).drop_last() == keyed(own, list.drop_last()));
        assert(keyed(own, list).last() == (own, list.last()));
        if key == own {
            assert(values_of(keyed(own, list), key) =~= list);
        }
    }
}

/// A sequence of pairs holds a key exactly if it holds a value under it.
pub proof fn lemma_has_key_values<V>(pairs: Seq<(u32, V)>, key: u32)
    ensures
        has_key(pairs, key) <==> values_of(pairs, key).len() > 0,
    decreases pairs.len(),
{
    if pairs.len() > 0 {
        lemma_has_key_values(pairs.drop_last(), key);
        if pairs.last().0 == key {
            assert(pairs[pairs.len() - 1].0 == key);
        } else {
            if has_key(pairs, key) {
                let i = choose|i: int| 0 <= i < pairs.len() && (#[trigger] pairs[i]).0 == key;
                assert(pairs.drop_last()[i].0 == key);
            }
            if has_key(pairs.drop_last(), key) {
                let i = choose|i: int|
                    0 <= i < pairs.drop_last().len() && (#[trigger] pairs.drop_last()[i]).0 == key;
                assert(pairs[i].0 == key);
            }
        }
    }
}

/// The flattening of a map holds under each of the keys its list of the
/// map, and nothing under any other key.
pub proof fn lemma_values_of_flattened<V>(map: Map<u32, Seq<V>>, keys: Seq<u32>, key: u32)
    requires
        keys.no_duplicates(),
    ensures
        values_of(flattened(map, keys), key) == if keys.contains(key) {
            map[key]
        } else {
            Seq::empty()
        },
    decreases keys.len(),
{
    if keys.len() > 0 {
        let front = keys.drop_last();
        let last = keys.last();
        lemma_values_of_flattened(map, front, key);
        lemma_values_of_concat(flattened(map, front), keyed(last, map[last]), key);
        lemma_values_of_keyed(last, map[last], key);
        assert(keys[keys.len() - 1] == last);
        if front.contains(key) {
            let i = choose|i: int| 0 <= i < front.len() && front[i] == key;
            assert(keys[i] == key);
            assert(key != last);
            assert(values_of(flattened(map, keys), key) =~= map[key]);
        } else if key == last {
            assert(values_of(flattened(map, keys), key) =~= map[key]);
        } else {
            if keys.contains(key) {
                let i = choose|i: int| 0 <= i < keys.len() && keys[i] == key;
                assert(front[i] == key);
            }
            assert(values_of(flattened(map, keys), key) =~= Seq::<V>::empty());
        }
    }
}

/// Grouping the flattening of a map of lists gives the map back, whatever
/// the order in which the keys were taken, as long as no list of the map is
/// empty.
pub proof fn lemma_group_of_flattened<V>(map: Map<u32, Seq<V>>, keys: Seq<u32>)
    requires
        enumerates(keys, map),
        forall|key: u32| map.contains_key(key) ==> (#[trigger] map[key]).len() > 0,
    ensures
        grouped(flattened(map, keys)) == map,
{
    let flat = flattened(map, keys);
    assert forall|key: u32| #[trigger] grouped(flat).contains_key(key) <==> map.contains_key(
        key,
    ) by {
        lemma_has_key_values(flat, key);
        lemma_values_of_flattened(map, keys, key);
    }
    assert forall|key: u32| #[trigger] map.contains_key(key) implies grouped(flat)[key]
        == map[key] by {
        assert(grouped(flat).contains_key(key));
        assert(keys.contains(key));
        lemma_values_of_flattened(map, keys, key);
    }
    assert(grouped(flat) =~= map);
}

/// Grouping is idempotent under re-grouping: the grouping of `pairs`,
/// flattened key by key in any order of its keys and grouped again, is the
/// grouping of `pairs`, with the order within each list kept.
pub proof fn lemma_regrouping<V>(pairs: Seq<(u32, V)>, keys: Seq<u32>)
    requires
        enumerates(keys, grouped(pairs)),
    ensures
        grouped(flattened(grouped(pairs), keys)) == grouped(pairs),
{
    assert forall|key: u32| grouped(pairs).contains_key(key) implies (#[trigger] grouped(
        pairs,
    )[key]).len() > 0 by {
        lemma_has_key_values(pairs, key);
    }
    lemma_group_of_flattened(grouped(pairs), keys);
}

/// The pairs of a map of lists: each value with the key of its list, the
/// values of one list together and in their order. The order of the keys is
/// the order in which the map hands them out, which is not fixed.
pub fn flatten_with_keys<V>(map: HashMap<u32, Vec<V>>) -> (pairs: Vec<(u32, V)>)
    ensures
        exists|keys: Seq<u32>| #[trigger]
            enumerates(keys, map@) && pairs@ == flattened(lists(map@), keys),
{
    let ghost whole = map@;
    let mut map = map;
    let mut keys: Vec<u32> = Vec::with_capacity(map.len());
    let ghost order = map.keys().remaining();
    for key in iter: map.keys()
        invariant
            iter.seq() == order,
            keys@ == order.unref().take(iter.index() as int),
    {
        keys.push(*key);
        assert(keys@ =~= order.unref().take(iter.index() + 1));
    }
    proof {
        assert(order.unref().take(order.len() as int) == order.unref());
        assert(keys@ == order.unref());
        assert(keys@.to_set() == whole.dom());
        assert(keys@.no_duplicates()) by {
            assert forall|i: int, j: int| 0 <= i < j < keys@.len() implies keys@[i] != keys@[j] by {
                assert(order[i] != order[j]);
            }
        }
        assert forall|key: u32| keys@.contains(key) <==> whole.contains_key(key) by {
            assert(keys@.to_set().contains(key) <==> whole.dom().contains(key));
        }
    }
    let mut pairs: Vec<(u32, V)> = Vec::new();
    let mut i: usize = 0;
    while i < keys.len()
        invariant
            i <= keys.len(),
            enumerates(keys@, whole),
            pairs@ == flattened(lists(whole), keys@.take(i as int)),
            forall|k: int|
                i <= k < keys.len() ==> map@.contains_key(#[trigger] keys[k]) && map@[keys[k]]
                    == whole[keys[k]],
        decreases keys.len() - i,
    {
        let key = keys[i];
        let ghost before = map@;
        let ghost done = pairs@;
        assert(keys@.contains(key));
        assert(whole.contains_key(key));
        let list = match map.remove(&key) {
            Some(list) => list,
            None => Vec::new(),
        };
        assert(list == whole[key]);
        assert(lists(whole)[key] == list@);
        let ghost values = list@;
        for value in values_iter: list
            invariant
                values_iter.seq() == values,
                pairs@ == done + keyed(key, values.take(values_iter.index() as int)),
        {
            pairs.push((key, value));
            assert(pairs@ =~= done + keyed(key, values.take(values_iter.index() + 1)));
        }
        proof {
            assert(values.take(values.len() as int) == values);
            let next = keys@.take(i + 1);
            assert(next.drop_last() == keys@.take(i as int));
            assert(next.last() == key);
            assert forall|k: int| i + 1 <= k < keys.len() implies map@.contains_key(
                #[trigger] keys[k],
            ) && map@[keys[k]] == whole[keys[k]] by {
                assert(keys[k] != keys[i as int]);
                assert(before.contains_key(keys[k]));
            }
        }
        i += 1;
    }
    proof {
        assert(keys@.take(i as int) == keys@);
        assert(enumerates(keys@, whole) && pairs@ == flattened(lists(whole), keys@));
    }
    pairs
}

} // verus!
