//! The roll aggregator: expands terms into single rolls and totals them.
use crate::dice::{
    faces, greatest_total, is_face, is_outcome, least_total, lemma_outcome_total_bounds,
    lemma_sum_values_push, shown_by, sum_values, template, totals_fit, DiceRoller, Die, DieRoller,
    Roll,
};
use std::sync::Arc;
use vstd::prelude::*;

verus! {

/// Rolls terms with a shared die roller.
pub struct DiceRollerImpl<R: DieRoller> {
    die_roller: Arc<R>,
}

/// No term contributes more than this to a total, in either direction.
pub const TERM_LIMIT: i128 = 0x10_0000_0000;

impl<R: DieRoller> DiceRollerImpl<R> {
    /// The die roller that shows every rolled value.
    pub closed spec fn die_roller(&self) -> &R {
        &*self.die_roller
    }

    /// A dice roller that rolls every die with `die_roller`.
    pub fn new(die_roller: Arc<R>) -> (roller: Self)
        ensures
            roller.die_roller() == &*die_roller,
    {
        Self { die_roller }
    }
}

/// The least and the greatest total that an outcome of `dice` can have.
pub fn total_bounds(dice: &[(Die, i32)]) -> (bounds: (i128, i128))
    ensures
        bounds.0 == least_total(dice@),
        bounds.1 == greatest_total(dice@),
{
    let mut least: i128 = 0;
    let mut greatest: i128 = 0;
    let mut i: usize = 0;
    while i < dice.len()
        invariant
            i <= dice.len(),
            least == least_total(dice@.take(i as int)),
            greatest == greatest_total(dice@.take(i as int)),
            -(i * TERM_LIMIT) <= least <= i * TERM_LIMIT,
            -(i * TERM_LIMIT) <= greatest <= i * TERM_LIMIT,
        decreases dice.len() - i,
    {
        let (die, n) = dice[i];
        proof {
            assert(dice@.take(i + 1).drop_last() =~= dice@.take(i as int));
            if n > 0 {
                assert(n * faces(die) <= n * 20) by (nonlinear_arith)
                    requires
                        n > 0,
                        faces(die) <= 20,
                ;
            }
        }
        match die {
            Die::Raw => {
                least = least + n as i128;
                greatest = greatest + n as i128;
            },
            _ => {
                if n > 0 {
                    least = least + n as i128;
                    greatest = greatest + (n as i128) * (die.faces() as i128);
                }
            },
        }
        i += 1;
    }
    assert(dice@.take(i as int) =~= dice@);
    (least, greatest)
}

/// Whether every outcome of `dice` has a total that fits an `i32`, which is
/// what `roll` asks of its input.
pub fn can_roll(dice: &[(Die, i32)]) -> (fit: bool)
    ensures
        fit == totals_fit(dice@),
{
    let (least, greatest) = total_bounds(dice);
    -0x8000_0000 <= least && greatest <= 0x7fff_ffff
}

impl<R: DieRoller> DiceRoller for DiceRollerImpl<R> {
    /// Every rolled value is one that the die roller showed for its die.
    fn roll(&self, dice: &[(Die, i32)]) -> (outcome: (Vec<Roll>, i32))
        ensures
            shown_by(self.die_roller(), outcome.0@),
    {
        let mut rolls: Vec<Roll> = Vec::new();
        let mut total: i128 = 0;
        let mut i: usize = 0;
        while i < dice.len()
            invariant
                i <= dice.len(),
                is_outcome(rolls@, template(dice@.take(i as int))),
                shown_by(self.die_roller(), rolls@),
                total == sum_values(rolls@),
                -(i * TERM_LIMIT) <= total <= i * TERM_LIMIT,
            decreases dice.len() - i,
        {
            let (die, n) = dice[i];
            let ghost before = rolls@;
            let ghost done = template(dice@.take(i as int));
            proof {
                assert(dice@.take(i + 1).drop_last() =~= dice@.take(i as int));
            }
            match die {
                Die::Raw => {
                    rolls.push(Roll { die: Die::Raw, value: n });
                    total = total + n as i128;
                    proof {
                        lemma_sum_values_push(before, Roll { die: Die::Raw, value: n });
                    }
                },
                _ => {
                    let mut j: i32 = 0;
                    while j < n
                        invariant
                            0 <= j,
                            j <= n || j == 0,
                            !(die is Raw),
                            before.len() == done.len(),
                            rolls@.len() == before.len() + j,
                            rolls@.take(before.len() as int) == before,
                            shown_by(self.die_roller(), rolls@),
                            forall|k: int|
                                before.len() <= k < rolls@.len() ==> (#[trigger] rolls@[k]).die
                                    == die && is_face(die, rolls@[k].value as int),
                            total == sum_values(rolls@),
                            -(i * TERM_LIMIT) <= total <= i * TERM_LIMIT + 20 * j,
                        decreases n - j,
                    {
                        let value = self.die_roller.roll(&die);
                        let ghost so_far = rolls@;
                        rolls.push(Roll { die, value });
                        total = total + value as i128;
                        j += 1;
                        proof {
                            lemma_sum_values_push(so_far, Roll { die, value });
                        }
                    }
                    proof {
                        let after = template(dice@.take(i + 1));
                        assert forall|k: int| 0 <= k < after.len() implies (#[trigger] rolls@[k]).die
                            == after[k].die && if after[k].die is Raw {
                            rolls@[k].value == after[k].value
                        } else {
                            is_face(after[k].die, rolls@[k].value as int)
                        } by {
                            if k < before.len() {
                                assert(rolls@[k] == before[k]);
                            }
                        }
                    }
                },
            }
            i += 1;
        }
        proof {
            assert(dice@.take(i as int) =~= dice@);
            lemma_outcome_total_bounds(rolls@, dice@);
        }
        (rolls, total as i32)
    }
}

} // verus!
