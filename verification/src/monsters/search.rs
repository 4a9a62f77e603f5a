//! Multi-term search over the catalog, answered from an inverted index.
use crate::monsters::{Monster, Tokenize};
use crate::utilities::collections::{enumerates, lists, ListMap, ListSet};
use crate::utilities::index::{indexes, invert_index, memberships};
use crate::utilities::text::lowercase;
use std::sync::Arc;
use vstd::prelude::*;

verus! {

/// The texts of a list of string slices.
pub open spec fn term_texts(terms: Seq<&str>) -> Seq<Seq<char>> {
    Seq::new(terms.len(), |i: int| terms[i]@)
}

/// The keys of the records that have `term`, lowercased, among their tokens.
pub open spec fn hits(catalog: Map<Seq<char>, Monster>, term: Seq<char>) -> Set<Seq<char>> {
    Set::new(
        |key: Seq<char>| catalog.contains_key(key) && catalog[key].tokens().contains(lowercase(term)),
    )
}

/// Whether any record of the catalog has `term` among its tokens.
pub open spec fn is_known(catalog: Map<Seq<char>, Monster>, term: Seq<char>) -> bool {
    exists|key: Seq<char>| #[trigger] hits(catalog, term).contains(key)
}

/// The keys that a query selects: those of the records that have every known
/// term of the query among their tokens. Unknown terms do not count, and a
/// query without a known term selects nothing.
pub open spec fn selected(catalog: Map<Seq<char>, Monster>, terms: Seq<Seq<char>>) -> Set<
    Seq<char>,
> {
    Set::new(
        |key: Seq<char>|
            {
                &&& exists|i: int| 0 <= i < terms.len() && is_known(catalog, #[trigger] terms[i])
                &&& forall|i: int|
                    0 <= i < terms.len() && is_known(catalog, #[trigger] terms[i]) ==> hits(
                        catalog,
                        terms[i],
                    ).contains(key)
            },
    )
}

/// `found` holds the records of `catalog` at `keys`, each once, in some order.
pub open spec fn holds_records(
    found: Seq<&Monster>,
    catalog: Map<Seq<char>, Monster>,
    keys: Set<Seq<char>>,
) -> bool {
    exists|order: Seq<String>|
        {
            &&& #[trigger] enumerates(order, keys)
            &&& order.len() == found.len()
            &&& forall|i: int|
                0 <= i < found.len() ==> catalog.contains_key(order[i]@) && *#[trigger] found[i]
                    == catalog[order[i]@]
        }
}

/// Which record has which token.
pub open spec fn token_relation(catalog: Map<Seq<char>, Monster>) -> Set<(Seq<char>, Seq<char>)> {
    Set::new(
        |pair: (Seq<char>, Seq<char>)|
            catalog.contains_key(pair.0) && catalog[pair.0].tokens().contains(pair.1),
    )
}

/// A selected record has every known term of the query among its tokens.
pub proof fn lemma_selected_has_every_known_term(
    catalog: Map<Seq<char>, Monster>,
    terms: Seq<Seq<char>>,
    key: Seq<char>,
    i: int,
)
    requires
        selected(catalog, terms).contains(key),
        0 <= i < terms.len(),
        is_known(catalog, terms[i]),
    ensures
        catalog.contains_key(key),
        catalog[key].tokens().contains(lowercase(terms[i])),
{
}

/// A query of unknown terms only selects nothing.
pub proof fn lemma_unknown_terms_select_nothing(
    catalog: Map<Seq<char>, Monster>,
    terms: Seq<Seq<char>>,
)
    requires
        forall|i: int| 0 <= i < terms.len() ==> !is_known(catalog, #[trigger] terms[i]),
    ensures
        selected(catalog, terms) == Set::<Seq<char>>::empty(),
{
}

/// Two queries with the same known terms select the same records: the order
/// of the terms, their repetition, and unknown terms among them make no
/// difference.
pub proof fn lemma_selection_depends_on_known_terms(
    catalog: Map<Seq<char>, Monster>,
    first: Seq<Seq<char>>,
    second: Seq<Seq<char>>,
)
    requires
        forall|term: Seq<char>|
            is_known(catalog, term) ==> (first.contains(term) <==> second.contains(term)),
    ensures
        selected(catalog, first) == selected(catalog, second),
{
}

/// An unknown term added to a query changes nothing.
pub proof fn lemma_unknown_term_is_ignored(
    catalog: Map<Seq<char>, Monster>,
    terms: Seq<Seq<char>>,
    unknown: Seq<char>,
)
    requires
        !is_known(catalog, unknown),
    ensures
        selected(catalog, terms.push(unknown)) == selected(catalog, terms),
{
    let longer = terms.push(unknown);
    assert forall|term: Seq<char>| is_known(catalog, term) implies (terms.contains(term)
        <==> longer.contains(term)) by {
        if terms.contains(term) {
            let i = choose|i: int| 0 <= i < terms.len() && terms[i] == term;
            assert(longer[i] == term);
        }
    }
    lemma_selection_depends_on_known_terms(catalog, terms, longer);
}

/// A catalog with the index that answers queries on it.
pub struct MonsterSearch {
    monster_map: Arc<ListMap<String, Monster>>,
    key_index: ListMap<String, ListSet<String>>,
}

impl MonsterSearch {
    /// The index answers, for every token, which records of the catalog have it.
    #[verifier::type_invariant]
    spec fn index_is_current(&self) -> bool {
        indexes::<String, String>(self.key_index@, token_relation(self.monster_map@))
    }

    /// The records that are searched, by key.
    pub closed spec fn catalog(&self) -> Map<Seq<char>, Monster> {
        self.monster_map@
    }

    /// Tokenizes every record of `monster_map` and builds the index from
    /// tokens to keys.
    pub fn from_map(monster_map: Arc<ListMap<String, Monster>>) -> (search: MonsterSearch)
        ensures
            search.catalog() == monster_map@,
    {
        let mut tokens_map: ListMap<String, ListSet<String>> = ListMap::new();
        let entries = monster_map.entries();
        let mut i: usize = 0;
        while i < entries.len()
            invariant
                i <= entries.len(),
                lists(entries@, monster_map@),
                forall|key: Seq<char>| #[trigger]
                    tokens_map@.contains_key(key) <==> exists|e: int|
                        0 <= e < i && #[trigger] entries@[e].0@ == key,
                forall|e: int|
                    0 <= e < i ==> tokens_map@[#[trigger] entries@[e].0@]@ == entries@[e].1.tokens(),
            decreases entries.len() - i,
        {
            tokens_map.insert(entries[i].0.clone(), entries[i].1.tokenize());
            i += 1;
        }
        let key_index = invert_index(&tokens_map);
        proof {
            assert(memberships::<String, String>(tokens_map@) =~= token_relation(monster_map@));
        }
        MonsterSearch { monster_map, key_index }
    }

    /// The keys that a query selects.
    pub fn search_keys(&self, terms: &[&str]) -> (keys: ListSet<String>)
        ensures
            keys@ == selected(self.catalog(), term_texts(terms@)),
    {
        proof {
            use_type_invariant(self);
        }
        let ghost catalog = self.monster_map@;
        let ghost texts = term_texts(terms@);
        let mut common: Option<ListSet<String>> = None;
        let mut i: usize = 0;
        while i < terms.len()
            invariant
                i <= terms.len(),
                catalog == self.monster_map@,
                texts == term_texts(terms@),
                indexes::<String, String>(self.key_index@, token_relation(catalog)),
                common is None <==> forall|k: int| 0 <= k < i ==> !is_known(catalog, #[trigger] texts[k]),
                common matches Some(keys) ==> forall|key: Seq<char>|
                    keys@.contains(key) <==> forall|k: int|
                        0 <= k < i && is_known(catalog, #[trigger] texts[k]) ==> hits(
                            catalog,
                            texts[k],
                        ).contains(key),
            decreases terms.len() - i,
        {
            let term = terms[i].to_lowercase();
            match self.key_index.get(&term) {
                Some(keys) => {
                    proof {
                        assert forall|key: Seq<char>|
                            keys@.contains(key) <==> hits(catalog, texts[i as int]).contains(key) by {
                            assert(keys@.contains(key) <==> token_relation(catalog).contains(
                                (key, term@),
                            ));
                        }
                    }
                    let narrowed = match common {
                        None => {
                            let mut all: ListSet<String> = ListSet::new();
                            all.extend(keys);
                            all
                        },
                        Some(so_far) => so_far.intersection(keys),
                    };
                    common = Some(narrowed);
                },
                None => {
                    proof {
                        if is_known(catalog, texts[i as int]) {
                            let key = choose|key: Seq<char>| #[trigger]
                                hits(catalog, texts[i as int]).contains(key);
                            assert(token_relation(catalog).contains((key, term@)));
                        }
                    }
                },
            }
            i += 1;
        }
        match common {
            Some(keys) => keys,
            None => ListSet::new(),
        }
    }

    /// The records that a query selects, in no particular order.
    pub fn search(&self, terms: &[&str]) -> (found: Vec<&Monster>)
        ensures
            holds_records(found@, self.catalog(), selected(self.catalog(), term_texts(terms@))),
    {
        proof {
            use_type_invariant(self);
        }
        let keys = self.search_keys(terms);
        let items = keys.items();
        let ghost catalog = self.monster_map@;
        let ghost wanted = selected(catalog, term_texts(terms@));
        let mut found: Vec<&Monster> = Vec::new();
        let mut i: usize = 0;
        while i < items.len()
            invariant
                i <= items.len(),
                catalog == self.monster_map@,
                enumerates(items@, wanted),
                forall|key: Seq<char>| wanted.contains(key) ==> catalog.contains_key(key),
                found@.len() == i,
                forall|k: int|
                    0 <= k < i ==> *#[trigger] found@[k] == catalog[items@[k]@],
            decreases items.len() - i,
        {
            match self.monster_map.get(&items[i]) {
                Some(monster) => {
                    found.push(monster);
                },
                None => {
                    // cannot happen: every selected key is a key of the catalog
                },
            }
            i += 1;
        }
        found
    }
}

} // verus!
