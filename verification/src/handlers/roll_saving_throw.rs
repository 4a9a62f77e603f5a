//! A saving throw of a record of the catalog.
use crate::handlers::roll_stat::{is_stat_roll, roll_modifier};
use crate::handlers::{find_monster, reports_missing, HandlerError, StatRollResponse};
use crate::monsters::Monster;
use crate::stats::modifier_extractor::stat_of;
use crate::stats::{advantage_of, AdvantageType, StatRoller, StatType};
use crate::utilities::collections::ListMap;
use crate::utilities::text::lowercase;
use std::sync::Arc;
use vstd::prelude::*;

verus! {

/// What a check with a modifier read straight off the record needs: the
/// catalog and a check resolver.
pub struct RollSavingThrowDependencies<S: StatRoller> {
    pub monster_map: Arc<ListMap<String, Monster>>,
    pub stats_roller: Arc<S>,
}

/// The outcome of a saving throw, as it is reported.
pub type RollSavingThrowResponse = StatRollResponse;

/// Looks the record up and rolls its saving throw for `stat`.
///
/// A name that no record has yields a `NotFound` failure that names the
/// monster. Otherwise the outcome is that of a check with the record's
/// saving throw modifier for the ability.
pub fn roll_saving_throw<S: StatRoller>(
    monster_name: &str,
    stat: StatType,
    advantage_status: &Option<&AdvantageType>,
    dependencies: &RollSavingThrowDependencies<S>,
) -> (outcome: Result<RollSavingThrowResponse, HandlerError>)
    ensures
        !dependencies.monster_map@.contains_key(lowercase(monster_name@)) ==> reports_missing(
            outcome,
            monster_name@,
        ),
        dependencies.monster_map@.contains_key(lowercase(monster_name@)) ==> is_stat_roll(
            outcome,
            &*dependencies.stats_roller,
            Some(stat_of(dependencies.monster_map@[lowercase(monster_name@)].saving_throws, stat)),
            advantage_of(*advantage_status),
        ),
{
    let saving_throws = match find_monster(&dependencies.monster_map, monster_name) {
        Err(error) => {
            return Err(error);
        },
        Ok(monster) => &monster.saving_throws,
    };
    let modifier = saving_throws.get(&stat);
    roll_modifier(&*dependencies.stats_roller, Some(modifier), advantage_status)
}

} // verus!
