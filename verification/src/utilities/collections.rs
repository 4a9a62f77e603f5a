//! Small keyed collections whose contents are known exactly: a set and a
//! map over a vector, in which no key occurs twice.
use vstd::prelude::*;

verus! {

/// A key of a `ListSet` or `ListMap`. Two keys are the same key when their
/// views are equal.
pub trait Key: View + Sized {
    /// Whether `self` and `other` are the same key.
    fn same(&self, other: &Self) -> (same: bool)
        ensures
            same == (self@ == other@),
    ;

    /// Another value of the same key.
    fn duplicate(&self) -> (copy: Self)
        ensures
            copy@ == self@,
    ;
}

impl Key for String {
    fn same(&self, other: &Self) -> (same: bool) {
        *self == *other
    }

    fn duplicate(&self) -> (copy: Self) {
        self.clone()
    }
}

impl Key for usize {
    fn same(&self, other: &Self) -> (same: bool) {
        *self == *other
    }

    fn duplicate(&self) -> (copy: Self) {
        *self
    }
}

/// `items` lists the members of `set`, each once.
pub open spec fn enumerates<K: View>(items: Seq<K>, set: Set<K::V>) -> bool {
    &&& forall|i: int| 0 <= i < items.len() ==> set.contains(#[trigger] items[i]@)
    &&& forall|member: K::V| #[trigger]
        set.contains(member) ==> exists|i: int| 0 <= i < items.len() && #[trigger] items[i]@ == member
    &&& forall|i: int, j: int| 0 <= i < j < items.len() ==> #[trigger] items[i]@ != #[trigger] items[j]@
}

/// `entries` lists the pairs of `map`, each key once.
pub open spec fn lists<K: View, V>(entries: Seq<(K, V)>, map: Map<K::V, V>) -> bool {
    &&& forall|i: int|
        0 <= i < entries.len() ==> map.contains_key(#[trigger] entries[i].0@) && map[entries[i].0@]
            == entries[i].1
    &&& forall|key: K::V| #[trigger]
        map.contains_key(key) ==> exists|i: int|
            0 <= i < entries.len() && #[trigger] entries[i].0@ == key
    &&& forall|i: int, j: int|
        0 <= i < j < entries.len() ==> #[trigger] entries[i].0@ != #[trigger] entries[j].0@
}

/// The keys that `items` holds.
pub open spec fn members<K: View>(items: Seq<K>) -> Set<K::V> {
    Set::new(|member: K::V| exists|i: int| 0 <= i < items.len() && #[trigger] items[i]@ == member)
}

/// No key occurs twice in `items`.
pub open spec fn distinct<K: View>(items: Seq<K>) -> bool {
    forall|i: int, j: int| 0 <= i < j < items.len() ==> #[trigger] items[i]@ != #[trigger] items[j]@
}

/// The position of `key` among `entries`.
pub open spec fn position<K: View, V>(entries: Seq<(K, V)>, key: K::V) -> int {
    choose|i: int| 0 <= i < entries.len() && #[trigger] entries[i].0@ == key
}

/// Whether `key` is the key of one of `entries`.
pub open spec fn has_key<K: View, V>(entries: Seq<(K, V)>, key: K::V) -> bool {
    exists|i: int| 0 <= i < entries.len() && #[trigger] entries[i].0@ == key
}

/// The map that `entries` spell out.
pub open spec fn pairs<K: View, V>(entries: Seq<(K, V)>) -> Map<K::V, V> {
    Map::new(|key: K::V| has_key(entries, key), |key: K::V| entries[position(entries, key)].1)
}

/// No key occurs twice in `entries`.
pub open spec fn distinct_keys<K: View, V>(entries: Seq<(K, V)>) -> bool {
    forall|i: int, j: int|
        0 <= i < j < entries.len() ==> #[trigger] entries[i].0@ != #[trigger] entries[j].0@
}

/// Entries with distinct keys list the map they spell out.
pub proof fn lemma_pairs_lists<K: View, V>(entries: Seq<(K, V)>)
    requires
        distinct_keys(entries),
    ensures
        lists(entries, pairs(entries)),
{
}

/// Entries with distinct keys spell out a finite map with as many keys as
/// there are entries.
pub proof fn lemma_pairs_len<K: View, V>(entries: Seq<(K, V)>)
    requires
        distinct_keys(entries),
    ensures
        pairs(entries).dom().finite(),
        pairs(entries).dom().len() == entries.len(),
    decreases entries.len(),
{
    if entries.len() == 0 {
        assert(pairs(entries).dom() =~= Set::<K::V>::empty());
    } else {
        let shorter = entries.drop_last();
        let key = entries.last().0@;
        lemma_pairs_len(shorter);
        assert(pairs(entries).dom() =~= pairs(shorter).dom().insert(key)) by {
            assert forall|k: K::V| pairs(entries).dom().contains(k) implies pairs(
                shorter,
            ).dom().insert(key).contains(k) by {
                let p = choose|p: int| 0 <= p < entries.len() && #[trigger] entries[p].0@ == k;
                if p < shorter.len() {
                    assert(shorter[p].0@ == k);
                }
            }
        }
    }
}

/// Items with distinct keys have as many members as there are items.
pub proof fn lemma_members_len<K: View>(items: Seq<K>)
    requires
        distinct(items),
    ensures
        members(items).finite(),
        members(items).len() == items.len(),
    decreases items.len(),
{
    if items.len() == 0 {
        assert(members(items) =~= Set::<K::V>::empty());
    } else {
        let shorter = items.drop_last();
        let key = items.last()@;
        lemma_members_len(shorter);
        assert(members(items) =~= members(shorter).insert(key)) by {
            assert forall|k: K::V| members(items).contains(k) implies members(shorter).insert(
                key,
            ).contains(k) by {
                let p = choose|p: int| 0 <= p < items.len() && #[trigger] items[p]@ == k;
                if p < shorter.len() {
                    assert(shorter[p]@ == k);
                }
            }
        }
    }
}

/// A finite set of keys, each held once.
pub struct ListSet<K: Key> {
    items: Vec<K>,
}

impl<K: Key> View for ListSet<K> {
    type V = Set<K::V>;

    closed spec fn view(&self) -> Set<K::V> {
        members(self.items@)
    }
}

impl<K: Key> ListSet<K> {
    /// No key is held twice.
    #[verifier::type_invariant]
    spec fn no_key_twice(&self) -> bool {
        distinct(self.items@)
    }

    /// The empty set.
    pub fn new() -> (set: Self)
        ensures
            set@ == Set::<K::V>::empty(),
    {
        let set = ListSet { items: Vec::new() };
        set
    }

    /// Whether `key` is a member.
    pub fn contains(&self, key: &K) -> (found: bool)
        ensures
            found == self@.contains(key@),
    {
        let mut i: usize = 0;
        while i < self.items.len()
            invariant
                i <= self.items.len(),
                forall|k: int| 0 <= k < i ==> self.items@[k]@ != key@,
            decreases self.items.len() - i,
        {
            if self.items[i].same(key) {
                return true;
            }
            i += 1;
        }
        false
    }

    /// Adds `key`; a key that is a member already is dropped.
    pub fn insert(&mut self, key: K)
        ensures
            final(self)@ == old(self)@.insert(key@),
    {
        proof {
            use_type_invariant(&*self);
        }
        if !self.contains(&key) {
            let ghost before = self.items@;
            let mut items: Vec<K> = Vec::new();
            core::mem::swap(&mut items, &mut self.items);
            items.push(key);
            self.items = items;
            assert(self@ =~= members(before).insert(key@)) by {
                assert forall|member: K::V| members(before).insert(key@).contains(
                    member,
                ) implies self@.contains(member) by {
                    if member == key@ {
                        assert(self.items@[before.len() as int]@ == member);
                    } else {
                        let i = choose|i: int| 0 <= i < before.len() && #[trigger] before[i]@ == member;
                        assert(self.items@[i]@ == member);
                    }
                }
            }
        }
    }

    /// Adds every member of `other`.
    pub fn extend(&mut self, other: &ListSet<K>)
        ensures
            final(self)@ == old(self)@.union(other@),
    {
        let items = other.items();
        let mut i: usize = 0;
        while i < items.len()
            invariant
                i <= items.len(),
                enumerates(items@, other@),
                self@ == old(self)@.union(members(items@.take(i as int))),
            decreases items.len() - i,
        {
            self.insert(items[i].duplicate());
            proof {
                assert(items@.take(i + 1)[i as int] == items@[i as int]);
            }
            i += 1;
        }
        proof {
            assert(items@.take(i as int) =~= items@);
        }
    }

    /// The members that `other` holds too.
    pub fn intersection(&self, other: &ListSet<K>) -> (common: ListSet<K>)
        ensures
            common@ == self@.intersect(other@),
    {
        let mut common: ListSet<K> = ListSet::new();
        let items = self.items();
        let mut i: usize = 0;
        while i < items.len()
            invariant
                i <= items.len(),
                enumerates(items@, self@),
                forall|member: K::V|
                    common@.contains(member) <==> other@.contains(member) && exists|k: int|
                        0 <= k < i && #[trigger] items@[k]@ == member,
            decreases items.len() - i,
        {
            if other.contains(&items[i]) {
                common.insert(items[i].duplicate());
            }
            i += 1;
        }
        common
    }

    /// The members, each once, in no particular order.
    pub fn items(&self) -> (items: &Vec<K>)
        ensures
            enumerates(items@, self@),
    {
        proof {
            use_type_invariant(self);
        }
        &self.items
    }

    /// Number of members.
    pub fn len(&self) -> (len: usize)
        ensures
            self@.finite(),
            len == self@.len(),
    {
        proof {
            use_type_invariant(self);
            lemma_members_len(self.items@);
        }
        self.items.len()
    }
}

/// A finite map from keys to values, each key held once.
pub struct ListMap<K: Key, V> {
    entries: Vec<(K, V)>,
}

impl<K: Key, V> View for ListMap<K, V> {
    type V = Map<K::V, V>;

    closed spec fn view(&self) -> Map<K::V, V> {
        pairs(self.entries@)
    }
}

impl<K: Key, V> ListMap<K, V> {
    /// No key has two entries.
    #[verifier::type_invariant]
    spec fn no_key_twice(&self) -> bool {
        distinct_keys(self.entries@)
    }

    /// The empty map.
    pub fn new() -> (map: Self)
        ensures
            map@ == Map::<K::V, V>::empty(),
    {
        let map = ListMap { entries: Vec::new() };
        map
    }

    /// Where `key` stands among the entries, if it does.
    fn find(&self, key: &K) -> (found: Option<usize>)
        ensures
            match found {
                Some(i) => i < self.entries@.len() && self.entries@[i as int].0@ == key@,
                None => !has_key(self.entries@, key@),
            },
    {
        let mut i: usize = 0;
        while i < self.entries.len()
            invariant
                i <= self.entries.len(),
                forall|k: int| 0 <= k < i ==> self.entries@[k].0@ != key@,
            decreases self.entries.len() - i,
        {
            if self.entries[i].0.same(key) {
                return Some(i);
            }
            i += 1;
        }
        None
    }

    /// Whether the map has an entry for `key`.
    pub fn contains_key(&self, key: &K) -> (found: bool)
        ensures
            found == self@.contains_key(key@),
    {
        self.find(key).is_some()
    }

    /// The value at `key`, if the map has one.
    pub fn get(&self, key: &K) -> (value: Option<&V>)
        ensures
            match value {
                Some(v) => self@.contains_key(key@) && *v == self@[key@],
                None => !self@.contains_key(key@),
            },
    {
        proof {
            use_type_invariant(self);
            lemma_pairs_lists(self.entries@);
        }
        match self.find(key) {
            Some(i) => Some(&self.entries[i].1),
            None => None,
        }
    }

    /// Takes the entry for `key` out of the map and returns its value.
    pub fn remove(&mut self, key: &K) -> (value: Option<V>)
        ensures
            final(self)@ == old(self)@.remove(key@),
            match value {
                Some(v) => old(self)@.contains_key(key@) && v == old(self)@[key@],
                None => !old(self)@.contains_key(key@),
            },
    {
        proof {
            use_type_invariant(&*self);
            lemma_pairs_lists(self.entries@);
        }
        match self.find(key) {
            Some(i) => {
                let ghost before = self.entries@;
                let mut entries: Vec<(K, V)> = Vec::new();
                core::mem::swap(&mut entries, &mut self.entries);
                let (_, value) = entries.swap_remove(i);
                self.entries = entries;
                proof {
                    let after = self.entries@;
                    lemma_pairs_lists(after);
                    assert(pairs(after) =~= pairs(before).remove(key@)) by {
                        assert forall|k: K::V| pairs(before).remove(key@).contains_key(
                            k,
                        ) implies #[trigger] pairs(after).contains_key(k) by {
                            let p = choose|p: int|
                                0 <= p < before.len() && #[trigger] before[p].0@ == k;
                            if p == before.len() - 1 {
                                assert(after[i as int].0@ == k);
                            } else {
                                assert(after[p].0@ == k);
                            }
                        }
                    }
                }
                Some(value)
            },
            None => {
                None
            },
        }
    }

    /// Sets the value at `key`, replacing the value that was there.
    pub fn insert(&mut self, key: K, value: V)
        ensures
            final(self)@ == old(self)@.insert(key@, value),
    {
        let ghost start = self@;
        let _ = self.remove(&key);
        proof {
            use_type_invariant(&*self);
            lemma_pairs_lists(self.entries@);
        }
        let ghost before = self.entries@;
        let mut entries: Vec<(K, V)> = Vec::new();
        core::mem::swap(&mut entries, &mut self.entries);
        entries.push((key, value));
        self.entries = entries;
        proof {
            let after = self.entries@;
            assert(after[before.len() as int].0@ == key@);
            lemma_pairs_lists(after);
            assert(pairs(after) =~= start.insert(key@, value)) by {
                assert forall|k: K::V| start.insert(key@, value).contains_key(k) implies #[trigger] pairs(
                    after,
                ).contains_key(k) by {
                    if k != key@ {
                        assert(pairs(before).contains_key(k));
                        let p = choose|p: int|
                            0 <= p < before.len() && #[trigger] before[p].0@ == k;
                        assert(after[p].0@ == k);
                    }
                }
            }
        }
    }

    /// The keys, each once, in no particular order.
    pub fn keys(&self) -> (keys: Vec<&K>)
        ensures
            keys@.len() == self@.dom().len(),
            forall|i: int| 0 <= i < keys@.len() ==> self@.contains_key((#[trigger] keys@[i])@),
            forall|key: K::V| #[trigger]
                self@.contains_key(key) ==> exists|i: int|
                    0 <= i < keys@.len() && (#[trigger] keys@[i])@ == key,
            forall|i: int, j: int|
                0 <= i < j < keys@.len() ==> (#[trigger] keys@[i])@ != (#[trigger] keys@[j])@,
    {
        proof {
            use_type_invariant(self);
            lemma_pairs_lists(self.entries@);
            lemma_pairs_len(self.entries@);
        }
        let mut keys: Vec<&K> = Vec::new();
        let mut i: usize = 0;
        while i < self.entries.len()
            invariant
                i <= self.entries.len(),
                keys@.len() == i,
                forall|k: int| 0 <= k < i ==> *#[trigger] keys@[k] == self.entries@[k].0,
            decreases self.entries.len() - i,
        {
            keys.push(&self.entries[i].0);
            i += 1;
        }
        proof {
            assert forall|key: K::V| #[trigger] self@.contains_key(key) implies exists|i: int|
                0 <= i < keys@.len() && (#[trigger] keys@[i])@ == key by {
                let p = choose|p: int|
                    0 <= p < self.entries@.len() && #[trigger] self.entries@[p].0@ == key;
                assert(keys@[p]@ == key);
            }
        }
        keys
    }

    /// Number of entries.
    pub fn len(&self) -> (len: usize)
        ensures
            self@.dom().finite(),
            len == self@.dom().len(),
    {
        proof {
            use_type_invariant(self);
            lemma_pairs_len(self.entries@);
        }
        self.entries.len()
    }

    /// The entries, each key once, in no particular order.
    pub fn entries(&self) -> (entries: &Vec<(K, V)>)
        ensures
            lists(entries@, self@),
    {
        proof {
            use_type_invariant(self);
            lemma_pairs_lists(self.entries@);
        }
        &self.entries
    }
}

} // verus!
