//! What each request computes, free of any transport: the caller hands in
//! plain values and gets a response or a failure back.
use crate::dice::Roll;
use crate::monsters::Monster;
use crate::stats::modifier_extractor::ModifierExtractor;
use crate::stats::StatRoller;
use crate::utilities::collections::ListMap;
use crate::utilities::text::lowercase;
use std::sync::Arc;
use vstd::prelude::*;
use vstd::string::StringExecFns;

pub mod get_monster;
pub mod list_dice;
pub mod list_monsters;
pub mod roll_attack;
pub mod roll_dice;
pub mod roll_saving_throw;
pub mod roll_skill;
pub mod roll_stat;

verus! {

/// Why a request has no response.
#[derive(Debug)]
pub enum HandlerError {
    /// What was asked for is not in the catalog.
    NotFound(String),
    /// The request itself is malformed.
    BadRequest(String),
    /// What was asked for cannot be rolled: an expression of the catalog is
    /// not a dice expression, or a total does not fit.
    Internal(String),
}

/// The outcome of a check, as it is reported.
#[derive(Debug)]
pub struct StatRollResponse {
    pub first_roll: Vec<Roll>,
    pub second_roll: Option<Vec<Roll>>,
    pub result: i32,
}

/// What a check against a record needs: the catalog, a check resolver, and
/// the extractor of the modifier that is checked.
pub struct MonsterRollerDependencies<T, S: StatRoller, F: Fn(&T, &Monster) -> Option<i32>> {
    pub monster_map: Arc<ListMap<String, Monster>>,
    pub stats_roller: Arc<S>,
    pub modifier_extractor: Arc<ModifierExtractor<T, F>>,
}

/// The message for a name that no record has.
pub open spec fn monster_not_found(monster_name: Seq<char>) -> Seq<char> {
    "Monster `"@ + monster_name + "` not found"@
}

/// `outcome` is a `NotFound` failure that names the monster.
pub open spec fn reports_missing<R>(
    outcome: Result<R, HandlerError>,
    monster_name: Seq<char>,
) -> bool {
    outcome matches Err(HandlerError::NotFound(message)) && message@ == monster_not_found(
        monster_name,
    )
}

/// `found` is what a lookup of `monster_name` in `catalog` yields: the record
/// at the lowercased name, or a `NotFound` failure that names the monster.
pub open spec fn is_lookup(
    found: Result<&Monster, HandlerError>,
    catalog: Map<Seq<char>, Monster>,
    monster_name: Seq<char>,
) -> bool {
    match found {
        Ok(monster) => catalog.contains_key(lowercase(monster_name)) && *monster
            == catalog[lowercase(monster_name)],
        Err(HandlerError::NotFound(message)) => !catalog.contains_key(lowercase(monster_name))
            && message@ == monster_not_found(monster_name),
        Err(_) => false,
    }
}

/// Looks a record up by name, whatever the case of the name.
pub fn find_monster<'a>(monster_map: &'a ListMap<String, Monster>, monster_name: &str) -> (found:
    Result<&'a Monster, HandlerError>)
    ensures
        is_lookup(found, monster_map@, monster_name@),
{
    let key = monster_name.to_lowercase();
    match monster_map.get(&key) {
        Some(monster) => Ok(monster),
        None => {
            let mut message = String::from_str("Monster `");
            message.append(monster_name);
            message.append("` not found");
            Err(HandlerError::NotFound(message))
        },
    }
}

} // verus!
