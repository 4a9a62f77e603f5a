//! The production check resolver, on top of any dice roller.
use crate::dice::{greatest_total, least_total, may_roll, DiceRoller, Die, Roll};
use crate::stats::{check_terms, AdvantageType, StatRoll, StatRoller};
use std::sync::Arc;
use vstd::prelude::*;

verus! {

/// Resolves checks with a shared dice roller.
pub struct StatRollerImpl<D: DiceRoller> {
    dice_roller: Arc<D>,
}

impl<D: DiceRoller> StatRollerImpl<D> {
    /// The dice roller that makes every roll.
    pub closed spec fn dice_roller(&self) -> &D {
        &*self.dice_roller
    }

    /// A resolver that makes every roll with `dice_roller`.
    pub fn new(dice_roller: Arc<D>) -> (roller: Self)
        ensures
            roller.dice_roller() == &*dice_roller,
    {
        Self { dice_roller }
    }
}

/// `rolls` is what `dice_roller` gave for the terms of a check.
pub open spec fn is_check_roll<D: DiceRoller>(dice_roller: &D, modifier: i32, rolls: Vec<Roll>) -> bool {
    exists|total: i32| #[trigger] may_roll(dice_roller, check_terms(modifier), rolls, total)
}

/// Every roll of the check is one that `dice_roller` gave for the terms of
/// the check.
pub open spec fn rolled_with<D: DiceRoller>(dice_roller: &D, modifier: i32, roll: StatRoll) -> bool {
    &&& is_check_roll(dice_roller, modifier, roll.first_roll)
    &&& match roll.second_roll {
        Some(second_roll) => is_check_roll(dice_roller, modifier, second_roll),
        None => true,
    }
}

/// The totals of a check lie between `modifier + 1` and `modifier + 20`.
pub proof fn lemma_check_totals(modifier: i32)
    ensures
        least_total(check_terms(modifier)) == modifier + 1,
        greatest_total(check_terms(modifier)) == modifier + 20,
{
    let terms = check_terms(modifier);
    assert(least_total(terms.drop_last().drop_last()) == 0);
    assert(greatest_total(terms.drop_last().drop_last()) == 0);
    assert(least_total(terms.drop_last()) == 1);
    assert(greatest_total(terms.drop_last()) == 20);
}

impl<D: DiceRoller> StatRoller for StatRollerImpl<D> {
    /// Every roll is made by the dice roller, on the terms of the check.
    fn roll_stat(&self, modifier: i32, advantage_status: &Option<&AdvantageType>) -> (roll:
        StatRoll)
        ensures
            rolled_with(self.dice_roller(), modifier, roll),
    {
        let die_roll_expression = [(Die::D20, 1), (Die::Raw, modifier)];
        proof {
            lemma_check_totals(modifier);
        }
        let (first_roll, first_roll_total) = self.dice_roller.roll(&die_roll_expression);
        assert(may_roll(self.dice_roller(), check_terms(modifier), first_roll, first_roll_total));
        let (second_roll, result) = match advantage_status {
            None => (None, first_roll_total),
            Some(advantage_type) => {
                let (second_roll, second_roll_total) = self.dice_roller.roll(
                    &die_roll_expression,
                );
                assert(may_roll(
                    self.dice_roller(),
                    check_terms(modifier),
                    second_roll,
                    second_roll_total,
                ));
                match advantage_type {
                    AdvantageType::Advantage => {
                        let result = if first_roll_total >= second_roll_total {
                            first_roll_total
                        } else {
                            second_roll_total
                        };
                        (Some(second_roll), result)
                    },
                    AdvantageType::Disadvantage => {
                        let result = if first_roll_total <= second_roll_total {
                            first_roll_total
                        } else {
                            second_roll_total
                        };
                        (Some(second_roll), result)
                    },
                }
            },
        };
        StatRoll { first_roll, second_roll, result }
    }
}

} // verus!
