//! Keying records and inverting a keyed collection of sets.
use crate::utilities::collections::{enumerates, lists, members, Key, ListMap, ListSet};
use vstd::prelude::*;

verus! {

/// `map` holds the items of `items` under the keys in `keys`: it has exactly
/// those keys, and at each a clone of the last item with that key.
pub open spec fn keyed_by<T: Clone, U: View>(items: Seq<T>, keys: Seq<U>, map: Map<U::V, T>) -> bool {
    &&& keys.len() == items.len()
    &&& forall|key: U::V| #[trigger]
        map.contains_key(key) <==> exists|i: int| 0 <= i < keys.len() && #[trigger] keys[i]@ == key
    &&& forall|i: int|
        0 <= i < keys.len() && (forall|j: int| i < j < keys.len() ==> #[trigger] keys[j]@ != keys[i]@)
            ==> cloned(items[i], map[#[trigger] keys[i]@])
}

/// `map` holds `items`, each under a key that `key_extractor` gave for it.
pub open spec fn keyed<T: Clone, U: View, F: Fn(&T) -> U>(
    items: Seq<T>,
    key_extractor: F,
    map: Map<U::V, T>,
) -> bool {
    exists|keys: Seq<U>|
        {
            &&& #[trigger] keyed_by(items, keys, map)
            &&& forall|i: int|
                0 <= i < items.len() ==> call_ensures(key_extractor, (&items[i],), #[trigger] keys[i])
        }
}

/// Collects clones of the items of `vec` into a map, each under the key that
/// `key_extractor` gives for it. Of two items with the same key the later one
/// stays.
pub fn vec_to_map<T, U, F>(vec: &[T], key_extractor: F) -> (map: ListMap<U, T>) where
    F: Fn(&T) -> U,
    U: Key,
    T: Clone,

    requires
        forall|i: int| 0 <= i < vec@.len() ==> call_requires(key_extractor, (&#[trigger] vec@[i],)),
    ensures
        keyed(vec@, key_extractor, map@),
{
    let mut map: ListMap<U, T> = ListMap::new();
    let ghost mut keys: Seq<U> = Seq::empty();
    let mut i: usize = 0;
    while i < vec.len()
        invariant
            i <= vec.len(),
            keys.len() == i,
            keyed_by(vec@.take(i as int), keys, map@),
            forall|k: int| 0 <= k < i ==> call_ensures(key_extractor, (&vec@[k],), #[trigger] keys[k]),
            forall|k: int| 0 <= k < vec@.len() ==> call_requires(key_extractor, (&#[trigger] vec@[k],)),
        decreases vec.len() - i,
    {
        let key = key_extractor(&vec[i]);
        let item = vec[i].clone();
        let ghost earlier = keys;
        proof {
            keys = keys.push(key);
        }
        map.insert(key, item);
        proof {
            let items = vec@.take(i + 1);
            assert forall|k: U::V| #[trigger] map@.contains_key(k) <==> exists|n: int|
                0 <= n < keys.len() && #[trigger] keys[n]@ == k by {
                if map@.contains_key(k) {
                    if k == key@ {
                        assert(keys[i as int]@ == k);
                    } else {
                        let n = choose|n: int| 0 <= n < earlier.len() && #[trigger] earlier[n]@ == k;
                        assert(keys[n]@ == k);
                    }
                }
            }
            assert forall|n: int|
                0 <= n < keys.len() && (forall|j: int|
                    n < j < keys.len() ==> #[trigger] keys[j]@ != keys[n]@) implies cloned(
                items[n],
                map@[#[trigger] keys[n]@],
            ) by {
                if n < i {
                    assert(keys[i as int]@ != keys[n]@);
                    assert forall|j: int| n < j < earlier.len() implies #[trigger] earlier[j]@
                        != earlier[n]@ by {
                        assert(keys[j]@ != keys[n]@);
                    }
                }
            }
        }
        i += 1;
    }
    proof {
        assert(keyed_by(vec@, keys, map@));
    }
    map
}

/// The pairs `(owner, member)` of a keyed collection of sets.
pub open spec fn memberships<K: Key, V: Key>(sets: Map<V::V, ListSet<K>>) -> Set<(V::V, K::V)> {
    Set::new(|pair: (V::V, K::V)| sets.contains_key(pair.0) && sets[pair.0]@.contains(pair.1))
}

/// `index` answers which owners a member belongs to under `relation`: it has
/// an entry for exactly the members that belong to some owner, and the entry
/// holds exactly those owners.
pub open spec fn indexes<K: Key, V: Key>(
    index: Map<K::V, ListSet<V>>,
    relation: Set<(V::V, K::V)>,
) -> bool {
    &&& forall|member: K::V| #[trigger]
        index.contains_key(member) <==> exists|owner: V::V| relation.contains((owner, member))
    &&& forall|member: K::V, owner: V::V|
        index.contains_key(member) ==> (index[member]@.contains(owner) <==> #[trigger] relation.contains(
            (owner, member),
        ))
}

/// `index` is `sets` inverted: where `sets` maps an owner to its members,
/// `index` maps a member to its owners.
pub open spec fn inverts<K: Key, V: Key>(
    index: Map<K::V, ListSet<V>>,
    sets: Map<V::V, ListSet<K>>,
) -> bool {
    indexes::<K, V>(index, memberships::<K, V>(sets))
}

/// The memberships of the first `n` of `entries`, and of the first `m`
/// members of the entry after them.
pub open spec fn memberships_so_far<K: Key, V: Key>(
    entries: Seq<(V, ListSet<K>)>,
    n: int,
    current: Seq<K>,
) -> Set<(V::V, K::V)> {
    Set::new(
        |pair: (V::V, K::V)|
            (exists|e: int|
                0 <= e < n && (#[trigger] entries[e]).0@ == pair.0 && entries[e].1@.contains(pair.1))
                || (0 <= n < entries.len() && entries[n].0@ == pair.0 && members(current).contains(
                pair.1,
            )),
    )
}

/// Inverts a keyed collection of sets.
pub fn invert_index<K, V>(token_map: &ListMap<V, ListSet<K>>) -> (index: ListMap<K, ListSet<V>>) where
    K: Key,
    V: Key,

    ensures
        inverts::<K, V>(index@, token_map@),
{
    let mut index: ListMap<K, ListSet<V>> = ListMap::new();
    let entries = token_map.entries();
    let mut i: usize = 0;
    while i < entries.len()
        invariant
            i <= entries.len(),
            lists(entries@, token_map@),
            indexes::<K, V>(index@, memberships_so_far::<K, V>(entries@, i as int, Seq::empty())),
        decreases entries.len() - i,
    {
        let owner = &entries[i].0;
        let items = entries[i].1.items();
        let mut j: usize = 0;
        assert(items@.take(0) =~= Seq::<K>::empty());
        while j < items.len()
            invariant
                i < entries.len(),
                j <= items.len(),
                owner@ == entries@[i as int].0@,
                enumerates(items@, entries@[i as int].1@),
                indexes::<K, V>(
                    index@,
                    memberships_so_far::<K, V>(entries@, i as int, items@.take(j as int)),
                ),
            decreases items.len() - j,
        {
            let member = &items[j];
            let ghost relation = memberships_so_far::<K, V>(entries@, i as int, items@.take(j as int));
            let mut owners = match index.remove(member) {
                Some(owners) => owners,
                None => ListSet::new(),
            };
            owners.insert(owner.duplicate());
            index.insert(member.duplicate(), owners);
            proof {
                let grown = memberships_so_far::<K, V>(entries@, i as int, items@.take(j + 1));
                assert(grown =~= relation.insert((owner@, member@))) by {
                    assert forall|pair: (V::V, K::V)|
                        relation.insert((owner@, member@)).contains(pair) implies grown.contains(
                        pair,
                    ) by {
                        if pair == (owner@, member@) {
                            assert(items@.take(j + 1)[j as int]@ == pair.1);
                        }
                    }
                }
                assert(indexes::<K, V>(index@, grown)) by {
                    assert forall|m: K::V| #[trigger] index@.contains_key(m) <==> exists|o: V::V|
                        grown.contains((o, m)) by {
                        if index@.contains_key(m) {
                            if m == member@ {
                                assert(grown.contains((owner@, m)));
                            } else {
                                let o = choose|o: V::V| relation.contains((o, m));
                                assert(grown.contains((o, m)));
                            }
                        }
                    }
                }
            }
            j += 1;
        }
        proof {
            assert(items@.take(j as int) =~= items@);
            assert(memberships_so_far::<K, V>(entries@, i as int, items@) =~= memberships_so_far::<
                K,
                V,
            >(entries@, i + 1, Seq::empty()));
        }
        i += 1;
    }
    proof {
        assert(memberships_so_far::<K, V>(entries@, i as int, Seq::empty()) =~= memberships::<K, V>(
            token_map@,
        ));
    }
    index
}

} // verus!
