//! The whole catalog, or the records that a query selects.
use crate::monsters::search::{holds_records, selected, term_texts, MonsterSearch};
use crate::monsters::Monster;
use crate::utilities::text::{split, split_on, texts};
use std::sync::Arc;
use vstd::prelude::*;

verus! {

/// What listing needs: the records in catalog order, and the search over them.
pub struct ListMonstersDependencies {
    pub monsters: Arc<Vec<Monster>>,
    pub monster_search: Arc<MonsterSearch>,
}

/// `found` refers to the records of `monsters`, one for one and in order.
pub open spec fn lists_all(found: Seq<&Monster>, monsters: Seq<Monster>) -> bool {
    &&& found.len() == monsters.len()
    &&& forall|i: int| 0 <= i < monsters.len() ==> *#[trigger] found[i] == monsters[i]
}

/// With a query, the records that its words select, the query being cut at
/// every space; without one, every record in catalog order.
pub fn list_monsters<'a>(query: Option<&str>, dependencies: &'a ListMonstersDependencies) -> (found:
    Vec<&'a Monster>)
    ensures
        match query {
            Some(words) => holds_records(
                found@,
                dependencies.monster_search.catalog(),
                selected(dependencies.monster_search.catalog(), split(words@, ' ')),
            ),
            None => lists_all(found@, dependencies.monsters@),
        },
{
    match query {
        Some(words) => {
            let pieces = split_on(words, ' ');
            let mut search_terms: Vec<&str> = Vec::new();
            let mut i: usize = 0;
            while i < pieces.len()
                invariant
                    i <= pieces.len(),
                    search_terms@.len() == i,
                    forall|k: int| 0 <= k < i ==> (#[trigger] search_terms@[k])@ == pieces@[k]@,
                decreases pieces.len() - i,
            {
                search_terms.push(pieces[i].as_str());
                i += 1;
            }
            assert(term_texts(search_terms@) =~= texts(pieces@));
            dependencies.monster_search.search(search_terms.as_slice())
        },
        None => {
            let mut found: Vec<&Monster> = Vec::new();
            let mut i: usize = 0;
            while i < dependencies.monsters.len()
                invariant
                    i <= dependencies.monsters.len(),
                    found@.len() == i,
                    forall|k: int| 0 <= k < i ==> *#[trigger] found@[k] == dependencies.monsters@[k],
                decreases dependencies.monsters.len() - i,
            {
                found.push(&dependencies.monsters[i]);
                i += 1;
            }
            found
        },
    }
}

} // verus!
