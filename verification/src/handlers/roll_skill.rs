//! A skill check of a record of the catalog.
use crate::handlers::roll_saving_throw::RollSavingThrowDependencies;
use crate::handlers::roll_stat::{is_stat_roll, roll_modifier};
use crate::handlers::{find_monster, reports_missing, HandlerError, StatRollResponse};
use crate::stats::modifier_extractor::skill_of;
use crate::stats::{advantage_of, AdvantageType, SkillType, StatRoller};
use crate::utilities::text::lowercase;
use vstd::prelude::*;

verus! {

/// Looks the record up and rolls a check of its `skill`.
///
/// A name that no record has yields a `NotFound` failure that names the
/// monster. Otherwise the outcome is that of a check with the record's
/// modifier for the skill.
pub fn roll_skill<S: StatRoller>(
    monster_name: &str,
    skill: SkillType,
    advantage_status: &Option<&AdvantageType>,
    dependencies: &RollSavingThrowDependencies<S>,
) -> (outcome: Result<StatRollResponse, HandlerError>)
    ensures
        !dependencies.monster_map@.contains_key(lowercase(monster_name@)) ==> reports_missing(
            outcome,
            monster_name@,
        ),
        dependencies.monster_map@.contains_key(lowercase(monster_name@)) ==> is_stat_roll(
            outcome,
            &*dependencies.stats_roller,
            Some(skill_of(dependencies.monster_map@[lowercase(monster_name@)].skills, skill)),
            advantage_of(*advantage_status),
        ),
{
    let monster_skills = match find_monster(&dependencies.monster_map, monster_name) {
        Err(error) => {
            return Err(error);
        },
        Ok(monster) => &monster.skills,
    };
    let modifier = monster_skills.get(&skill);
    roll_modifier(&*dependencies.stats_roller, Some(modifier), advantage_status)
}

} // verus!
