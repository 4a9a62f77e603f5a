//! The damage of one attack of a record.
use crate::dice::critical::{
    can_roll_damage, components_of, damage_fits, damage_rolled_with, is_damage,
    roll_critical_damage, Component, DamageTerms,
};
use crate::dice::{may_parse, DiceExpressionParser, DiceRoller, Die};
use crate::handlers::{find_monster, reports_missing, HandlerError};
use crate::monsters::{DamageRoll, Monster};
use crate::utilities::collections::ListMap;
use crate::utilities::text::lowercase;
use std::sync::Arc;
use vstd::prelude::*;
use vstd::string::StringExecFns;

pub use crate::dice::critical::{Damage, RollAttackResponse};

verus! {

/// What rolling an attack needs: a parser, a dice roller and the catalog.
pub struct RollAttackDependencies<P: DiceExpressionParser, D: DiceRoller> {
    pub dice_expression_parser: Arc<P>,
    pub dice_roller: Arc<D>,
    pub monster_map: Arc<ListMap<String, Monster>>,
}

/// The damage components of the attack at `attack_index`; none for a record
/// without actions or without an attack at that position.
pub open spec fn attack_damage(monster: Monster, attack_index: usize) -> Seq<DamageRoll> {
    match monster.actions {
        Some(actions) => if attack_index < actions.attack_rolls@.len() {
            actions.attack_rolls@[attack_index as int].damage@
        } else {
            Seq::empty()
        },
        None => Seq::empty(),
    }
}

/// `answers` are the answers of `parser` for the components of `damage`, as
/// far as they were read: in order, one for each component, up to and
/// including the first rejection.
pub open spec fn reads<P: DiceExpressionParser>(
    parser: &P,
    damage: Seq<DamageRoll>,
    answers: Seq<Result<Vec<(Die, i32)>, String>>,
) -> bool {
    &&& answers.len() <= damage.len()
    &&& forall|i: int|
        0 <= i < answers.len() ==> may_parse(parser, damage[i].roll@, #[trigger] answers[i])
    &&& forall|i: int| 0 <= i < answers.len() - 1 ==> (#[trigger] answers[i]) is Ok
    &&& answers.len() < damage.len() ==> answers.len() > 0 && answers.last() is Err
}

/// The terms of an answer, none for a rejection.
pub open spec fn answered_terms(answer: Result<Vec<(Die, i32)>, String>) -> Seq<(Die, i32)> {
    match answer {
        Ok(terms) => terms@,
        Err(_) => Seq::empty(),
    }
}

/// The components that the answers give: the terms of each answer, with the
/// type of its component.
pub open spec fn answered_components(
    damage: Seq<DamageRoll>,
    answers: Seq<Result<Vec<(Die, i32)>, String>>,
) -> Seq<Component> {
    Seq::new(answers.len(), |i: int| (answered_terms(answers[i]), damage[i].damage_type))
}

/// The message for damage whose total may not fit.
pub open spec fn damage_out_of_range() -> Seq<char> {
    "the damage is out of range"@
}

/// `outcome` is an `Internal` failure with the given message.
pub open spec fn fails_with(
    outcome: Result<RollAttackResponse, HandlerError>,
    expected: Seq<char>,
) -> bool {
    match outcome {
        Err(HandlerError::Internal(message)) => message@ == expected,
        _ => false,
    }
}

/// `outcome` is what rolling `damage` yields, given the parser's answers: an
/// `Internal` failure with the parser's message where the parser rejected an
/// expression; an `Internal` failure for damage that cannot be rolled within
/// an `i32`; else an outcome of the components, their dice doubled on a
/// critical hit, each rolled by `dice_roller`.
pub open spec fn is_damage_roll<D: DiceRoller>(
    outcome: Result<RollAttackResponse, HandlerError>,
    dice_roller: &D,
    damage: Seq<DamageRoll>,
    answers: Seq<Result<Vec<(Die, i32)>, String>>,
    critical: bool,
) -> bool {
    if answers.len() > 0 && answers.last() is Err {
        match answers.last() {
            Err(rejection) => fails_with(outcome, rejection@),
            Ok(_) => false,
        }
    } else if damage_fits(answered_components(damage, answers), critical) {
        match outcome {
            Ok(response) => is_damage(response, answered_components(damage, answers), critical)
                && damage_rolled_with(
                dice_roller,
                response,
                answered_components(damage, answers),
                critical,
            ),
            Err(_) => false,
        }
    } else {
        fails_with(outcome, damage_out_of_range())
    }
}

/// `outcome` is what rolling `damage` yields for some answers of `parser`.
pub open spec fn rolls_damage<P: DiceExpressionParser, D: DiceRoller>(
    outcome: Result<RollAttackResponse, HandlerError>,
    parser: &P,
    dice_roller: &D,
    damage: Seq<DamageRoll>,
    critical: bool,
) -> bool {
    exists|answers: Seq<Result<Vec<(Die, i32)>, String>>|
        {
            &&& #[trigger] reads(parser, damage, answers)
            &&& is_damage_roll(outcome, dice_roller, damage, answers, critical)
        }
}

/// Parses and rolls every component of `damage`.
pub fn roll_damage<P: DiceExpressionParser, D: DiceRoller>(
    damage: &[DamageRoll],
    critical: bool,
    dice_expression_parser: &P,
    dice_roller: &D,
) -> (outcome: Result<RollAttackResponse, HandlerError>)
    ensures
        rolls_damage(outcome, dice_expression_parser, dice_roller, damage@, critical),
{
    let mut components: Vec<DamageTerms> = Vec::new();
    let ghost mut answers: Seq<Result<Vec<(Die, i32)>, String>> = Seq::empty();
    let mut i: usize = 0;
    while i < damage.len()
        invariant
            i <= damage.len(),
            components@.len() == i,
            answers.len() == i,
            forall|k: int|
                0 <= k < i ==> may_parse(
                    dice_expression_parser,
                    damage@[k].roll@,
                    #[trigger] answers[k],
                ),
            forall|k: int| 0 <= k < i ==> (#[trigger] answers[k]) is Ok,
            components_of(components@) == answered_components(damage@, answers),
        decreases damage.len() - i,
    {
        let text = damage[i].roll.as_str();
        let answer = dice_expression_parser.parse(text);
        let ghost read = components_of(components@);
        let ghost earlier = answers;
        proof {
            answers = answers.push(answer);
        }
        match answer {
            Ok(terms) => {
                components.push((terms, damage[i].damage_type));
                proof {
                    let longer = answered_components(damage@, answers);
                    assert forall|k: int| 0 <= k < i + 1 implies components_of(components@)[k]
                        == longer[k] by {
                        if k < i {
                            assert(read[k] == answered_components(damage@, earlier)[k]);
                        }
                    }
                }
            },
            Err(message) => {
                proof {
                    assert(reads(dice_expression_parser, damage@, answers));
                }
                return Err(HandlerError::Internal(message));
            },
        }
        i += 1;
    }
    proof {
        assert(reads(dice_expression_parser, damage@, answers));
    }
    if !can_roll_damage(&components, critical) {
        return Err(HandlerError::Internal(String::from_str("the damage is out of range")));
    }
    Ok(roll_critical_damage(dice_roller, &components, critical))
}

/// Looks the record up and rolls the damage of its attack at `attack_index`,
/// with the dice doubled where the hit is critical.
///
/// A name that no record has yields a `NotFound` failure that names the
/// monster. A record without that attack yields no components and a total
/// of 0.
pub fn roll_attack<P: DiceExpressionParser, D: DiceRoller>(
    monster_name: &str,
    attack_index: usize,
    critical: bool,
    dependencies: &RollAttackDependencies<P, D>,
) -> (outcome: Result<RollAttackResponse, HandlerError>)
    ensures
        !dependencies.monster_map@.contains_key(lowercase(monster_name@)) ==> reports_missing(
            outcome,
            monster_name@,
        ),
        dependencies.monster_map@.contains_key(lowercase(monster_name@)) ==> rolls_damage(
            outcome,
            &*dependencies.dice_expression_parser,
            &*dependencies.dice_roller,
            attack_damage(dependencies.monster_map@[lowercase(monster_name@)], attack_index),
            critical,
        ),
{
    let selected_monster = match find_monster(&dependencies.monster_map, monster_name) {
        Err(error) => {
            return Err(error);
        },
        Ok(monster) => monster,
    };
    let no_damage: Vec<DamageRoll> = Vec::new();
    let damage: &[DamageRoll] = match &selected_monster.actions {
        Some(actions) => if attack_index < actions.attack_rolls.len() {
            actions.attack_rolls[attack_index].damage.as_slice()
        } else {
            no_damage.as_slice()
        },
        None => no_damage.as_slice(),
    };
    roll_damage(
        damage,
        critical,
        &*dependencies.dice_expression_parser,
        &*dependencies.dice_roller,
    )
}

} // verus!
