//! One record by name.
use crate::handlers::{find_monster, is_lookup, HandlerError};
use crate::monsters::Monster;
use crate::utilities::collections::ListMap;
use std::sync::Arc;
use vstd::prelude::*;

verus! {

/// What a lookup needs: the catalog.
pub struct GetMonsterDependencies {
    pub monster_map: Arc<ListMap<String, Monster>>,
}

/// The record with the given name.
pub fn get_monster<'a>(monster_name: &str, dependencies: &'a GetMonsterDependencies) -> (found:
    Result<&'a Monster, HandlerError>)
    ensures
        is_lookup(found, dependencies.monster_map@, monster_name@),
{
    find_monster(&dependencies.monster_map, monster_name)
}

} // verus!
