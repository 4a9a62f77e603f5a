//! A check against a record of the catalog.
use crate::handlers::{
    find_monster, reports_missing, HandlerError, MonsterRollerDependencies, StatRollResponse,
};
use crate::monsters::Monster;
use crate::stats::{advantage_of, is_check, AdvantageType, StatRoll, StatRoller};
use crate::utilities::text::lowercase;
use vstd::prelude::*;
use vstd::string::StringExecFns;

verus! {

/// The message for a selector that the record has no modifier for.
pub open spec fn modifier_not_found() -> Seq<char> {
    "No stat modifier found"@
}

/// The message for a modifier that leaves no room for the d20.
pub open spec fn modifier_out_of_range() -> Seq<char> {
    "the modifier is out of range"@
}

/// The check that a response reports.
pub open spec fn reported(response: StatRollResponse) -> StatRoll {
    StatRoll {
        first_roll: response.first_roll,
        second_roll: response.second_roll,
        result: response.result,
    }
}

/// `roll` is a check that `stats_roller` may give for the modifier and the
/// advantage.
pub open spec fn may_resolve<S: StatRoller>(
    stats_roller: &S,
    modifier: i32,
    advantage: Option<AdvantageType>,
    roll: StatRoll,
) -> bool {
    exists|status: &Option<&AdvantageType>| #[trigger]
        advantage_of(*status) == advantage && call_ensures(
            S::roll_stat,
            (stats_roller, modifier, status),
            roll,
        )
}

/// `outcome` is what a check yields once the extractor has answered with
/// `modifier`: a `NotFound` failure where the record has no such modifier, an
/// `Internal` failure where the modifier leaves no room for the d20 in an
/// `i32`, and else what `stats_roller` gave, which is the check resolved as
/// `advantage` asks.
pub open spec fn is_stat_roll<S: StatRoller>(
    outcome: Result<StatRollResponse, HandlerError>,
    stats_roller: &S,
    modifier: Option<i32>,
    advantage: Option<AdvantageType>,
) -> bool {
    match modifier {
        None => outcome matches Err(HandlerError::NotFound(message)) && message@
            == modifier_not_found(),
        Some(modifier) => if modifier + 20 <= i32::MAX {
            &&& outcome matches Ok(response)
            &&& may_resolve(stats_roller, modifier, advantage, reported(response))
            &&& is_check(reported(response), modifier, advantage)
        } else {
            outcome matches Err(HandlerError::Internal(message)) && message@
                == modifier_out_of_range()
        },
    }
}

/// Resolves a check whose modifier has been looked up.
pub fn roll_modifier<S: StatRoller>(
    stats_roller: &S,
    modifier: Option<i32>,
    advantage_status: &Option<&AdvantageType>,
) -> (outcome: Result<StatRollResponse, HandlerError>)
    ensures
        is_stat_roll(outcome, stats_roller, modifier, advantage_of(*advantage_status)),
{
    let modifier = match modifier {
        None => {
            return Err(HandlerError::NotFound(String::from_str("No stat modifier found")));
        },
        Some(modifier) => modifier,
    };
    if modifier > 0x7fff_ffff - 20 {
        return Err(HandlerError::Internal(String::from_str("the modifier is out of range")));
    }
    let rolls = stats_roller.roll_stat(modifier, advantage_status);
    Ok(
        StatRollResponse {
            first_roll: rolls.first_roll,
            second_roll: rolls.second_roll,
            result: rolls.result,
        },
    )
}

/// Looks the record up, extracts the modifier that `stat` names, and
/// resolves the check.
///
/// A name that no record has yields a `NotFound` failure that names the
/// monster. Otherwise the outcome is that of `roll_modifier` for an answer
/// of the extractor on the record.
pub fn roll_stat<T, S: StatRoller, F: Fn(&T, &Monster) -> Option<i32>>(
    monster_name: &str,
    stat: &T,
    advantage_status: &Option<&AdvantageType>,
    dependencies: &MonsterRollerDependencies<T, S, F>,
) -> (outcome: Result<StatRollResponse, HandlerError>)
    requires
        forall|monster: &Monster| #[trigger]
            call_requires(dependencies.modifier_extractor.extractor(), (stat, monster)),
    ensures
        !dependencies.monster_map@.contains_key(lowercase(monster_name@)) ==> reports_missing(
            outcome,
            monster_name@,
        ),
        dependencies.monster_map@.contains_key(lowercase(monster_name@)) ==> exists|
            modifier: Option<i32>,
        |
            {
                &&& #[trigger] call_ensures(
                    dependencies.modifier_extractor.extractor(),
                    (stat, &dependencies.monster_map@[lowercase(monster_name@)]),
                    modifier,
                )
                &&& is_stat_roll(
                    outcome,
                    &*dependencies.stats_roller,
                    modifier,
                    advantage_of(*advantage_status),
                )
            },
{
    let selected_monster = match find_monster(&dependencies.monster_map, monster_name) {
        Err(error) => {
            return Err(error);
        },
        Ok(monster) => monster,
    };
    let modifier = dependencies.modifier_extractor.extract(stat, selected_monster);
    roll_modifier(&*dependencies.stats_roller, modifier, advantage_status)
}

} // verus!
