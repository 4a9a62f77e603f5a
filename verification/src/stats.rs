//! Ability checks: which stat or skill is rolled, and how advantage decides.
use crate::dice::{is_outcome, sum_values, template, Die, Roll};
use vstd::prelude::*;

pub mod modifier_extractor;
pub mod stat_roller;

verus! {

/// The six abilities.
#[derive(Debug, Clone, Copy, PartialEq, Eq, Hash, Structural)]
pub enum StatType {
    Strength,
    Dexterity,
    Constitution,
    Intelligence,
    Wisdom,
    Charisma,
}

/// The skills a creature can be proficient in.
#[derive(Debug, Clone, Copy, PartialEq, Eq, Hash, Structural)]
pub enum SkillType {
    Acrobatics,
    AnimalHandling,
    Arcana,
    Athletics,
    Deception,
    History,
    Insight,
    Intimidation,
    Investigation,
    Medicine,
    Nature,
    Perception,
    Performance,
    Persuasion,
    Religion,
    SleightOfHand,
    Stealth,
    Survival,
}

/// Rolling twice and keeping the higher or the lower total.
#[derive(Debug, Clone, Copy, PartialEq, Eq, Hash, Structural)]
pub enum AdvantageType {
    Advantage,
    Disadvantage,
}

/// Marks a hit as critical.
#[derive(Debug, Clone, Copy, PartialEq, Eq, Hash, Structural)]
pub enum Critical {
    Critical,
}

/// The outcome of a check: the rolls that were made and the total that counts.
pub struct StatRoll {
    pub first_roll: Vec<Roll>,
    pub second_roll: Option<Vec<Roll>>,
    pub result: i32,
}

/// The terms of every check: one d20 and the modifier.
pub open spec fn check_terms(modifier: i32) -> Seq<(Die, i32)> {
    seq![(Die::D20, 1i32), (Die::Raw, modifier)]
}

/// The greater of two integers.
pub open spec fn greater(a: int, b: int) -> int {
    if a >= b {
        a
    } else {
        b
    }
}

/// The lesser of two integers.
pub open spec fn lesser(a: int, b: int) -> int {
    if a <= b {
        a
    } else {
        b
    }
}

/// `roll` is a check with `modifier` resolved as `advantage` asks.
///
/// The first roll is always an outcome of the check's terms. Without
/// advantage or disadvantage there is no second roll and the first total is
/// the result. With either there is a second roll of the same terms, and the
/// result is the greater total under advantage and the lesser under
/// disadvantage.
pub open spec fn is_check(roll: StatRoll, modifier: i32, advantage: Option<AdvantageType>) -> bool {
    let first = sum_values(roll.first_roll@);
    &&& is_outcome(roll.first_roll@, template(check_terms(modifier)))
    &&& match advantage {
        None => roll.second_roll is None && roll.result == first,
        Some(kind) => {
            &&& roll.second_roll is Some
            &&& is_outcome(roll.second_roll->0@, template(check_terms(modifier)))
            &&& roll.result == match kind {
                AdvantageType::Advantage => greater(first, sum_values(roll.second_roll->0@)),
                AdvantageType::Disadvantage => lesser(first, sum_values(roll.second_roll->0@)),
            }
        },
    }
}

/// The advantage that an optional reference names.
pub open spec fn advantage_of(status: Option<&AdvantageType>) -> Option<AdvantageType> {
    match status {
        Some(kind) => Some(*kind),
        None => None,
    }
}

/// Resolves checks.
pub trait StatRoller {
    /// Rolls a d20 plus `modifier`, twice under advantage or disadvantage.
    /// The modifier must leave room for the d20 in an `i32`.
    fn roll_stat(&self, modifier: i32, advantage_status: &Option<&AdvantageType>) -> (roll:
        StatRoll)
        requires
            modifier + 20 <= i32::MAX,
        ensures
            is_check(roll, modifier, advantage_of(*advantage_status)),
    ;
}

} // verus!
