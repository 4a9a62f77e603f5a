//! Damage rolls, and what a critical hit does to them: it doubles the dice,
//! not the flat modifiers.
use crate::dice::dice_roller::total_bounds;
use crate::dice::{
    greatest_total, is_outcome, least_total, lemma_outcome_total_bounds, may_roll, sum_values,
    template, totals_fit, DiceRoller, Die, Roll,
};
use crate::monsters::DamageType;
use vstd::prelude::*;

verus! {

/// The outcome of one damage component.
#[derive(Debug)]
pub struct Damage {
    pub total: i32,
    pub rolls: Vec<Roll>,
    pub damage_type: DamageType,
}

/// The outcome of an attack's damage: every component, and the total of all.
#[derive(Debug)]
pub struct RollAttackResponse {
    pub damage_rolls: Vec<Damage>,
    pub total: i32,
}

/// One damage component before it is rolled: its terms and its type.
pub type DamageTerms = (Vec<(Die, i32)>, DamageType);

/// A damage component as contracts see it.
pub type Component = (Seq<(Die, i32)>, DamageType);

/// The components that a vector of terms and types holds.
pub open spec fn components_of(terms: Seq<DamageTerms>) -> Seq<Component> {
    Seq::new(terms.len(), |i: int| (terms[i].0@, terms[i].1))
}

/// A term as a hit rolls it: on a critical hit the count of a die is doubled,
/// and a `Raw` term stays as it is.
pub open spec fn adjusted_term(term: (Die, i32), critical: bool) -> (Die, i32) {
    if critical && !(term.0 is Raw) {
        (term.0, (2 * term.1) as i32)
    } else {
        term
    }
}

/// The terms as a hit rolls them.
pub open spec fn adjusted(terms: Seq<(Die, i32)>, critical: bool) -> Seq<(Die, i32)> {
    Seq::new(terms.len(), |i: int| adjusted_term(terms[i], critical))
}

/// Twice the count of every die of `terms` is a count that an `i32` can hold.
pub open spec fn doubling_fits(terms: Seq<(Die, i32)>) -> bool {
    forall|i: int|
        0 <= i < terms.len() && !((#[trigger] terms[i]).0 is Raw) ==> i32::MIN <= 2 * terms[i].1
            <= i32::MAX
}

/// A component can be rolled: its counts can be doubled where the hit is
/// critical, and every outcome has a total that fits an `i32`.
pub open spec fn component_fits(terms: Seq<(Die, i32)>, critical: bool) -> bool {
    (critical ==> doubling_fits(terms)) && totals_fit(adjusted(terms, critical))
}

/// The least total that the components can have together.
pub open spec fn least_damage(components: Seq<Component>, critical: bool) -> int
    decreases components.len(),
{
    if components.len() == 0 {
        0
    } else {
        least_damage(components.drop_last(), critical) + least_total(
            adjusted(components.last().0, critical),
        )
    }
}

/// The greatest total that the components can have together.
pub open spec fn greatest_damage(components: Seq<Component>, critical: bool) -> int
    decreases components.len(),
{
    if components.len() == 0 {
        0
    } else {
        greatest_damage(components.drop_last(), critical) + greatest_total(
            adjusted(components.last().0, critical),
        )
    }
}

/// The damage can be rolled: every component can, and every outcome has an
/// overall total that fits an `i32`.
pub open spec fn damage_fits(components: Seq<Component>, critical: bool) -> bool {
    &&& forall|i: int|
        0 <= i < components.len() ==> component_fits((#[trigger] components[i]).0, critical)
    &&& i32::MIN <= least_damage(components, critical)
    &&& greatest_damage(components, critical) <= i32::MAX
}

/// Sum of the totals of `damage`; 0 for no components.
pub open spec fn sum_totals(damage: Seq<Damage>) -> int
    decreases damage.len(),
{
    if damage.len() == 0 {
        0
    } else {
        sum_totals(damage.drop_last()) + damage.last().total
    }
}

/// `response` is an outcome of rolling `components`: one entry for each, in
/// order and of the same type, with rolls that are an outcome of the
/// component's adjusted terms and their sum as its total; and the overall
/// total is the sum of the components' totals.
pub open spec fn is_damage(
    response: RollAttackResponse,
    components: Seq<Component>,
    critical: bool,
) -> bool {
    &&& response.damage_rolls@.len() == components.len()
    &&& forall|i: int|
        0 <= i < components.len() ==> {
            let damage = #[trigger] response.damage_rolls@[i];
            &&& damage.damage_type == components[i].1
            &&& is_outcome(damage.rolls@, template(adjusted(components[i].0, critical)))
            &&& damage.total == sum_values(damage.rolls@)
        }
    &&& response.total == sum_totals(response.damage_rolls@)
}

/// Every component of `response` is what `dice_roller` gave for the adjusted
/// terms of the component.
pub open spec fn damage_rolled_with<D: DiceRoller>(
    dice_roller: &D,
    response: RollAttackResponse,
    components: Seq<Component>,
    critical: bool,
) -> bool {
    forall|i: int|
        0 <= i < components.len() && i < response.damage_rolls@.len() ==> may_roll(
            dice_roller,
            adjusted(components[i].0, critical),
            (#[trigger] response.damage_rolls@[i]).rolls,
            response.damage_rolls@[i].total,
        )
}

/// A critical hit leaves every `Raw` term as it is and doubles the count of
/// every other term; a hit that is not critical changes nothing.
pub proof fn lemma_critical_doubles_dice_only(terms: Seq<(Die, i32)>, i: int)
    requires
        0 <= i < terms.len(),
        doubling_fits(terms),
    ensures
        adjusted(terms, false) == terms,
        adjusted(terms, true).len() == terms.len(),
        adjusted(terms, true)[i].0 == terms[i].0,
        terms[i].0 is Raw ==> adjusted(terms, true)[i].1 == terms[i].1,
        !(terms[i].0 is Raw) ==> adjusted(terms, true)[i].1 == 2 * terms[i].1,
{
}

/// Number of dice that `terms` ask to roll.
pub open spec fn dice_asked(terms: Seq<(Die, i32)>) -> int
    decreases terms.len(),
{
    if terms.len() == 0 {
        0
    } else if !(terms.last().0 is Raw) && terms.last().1 > 0 {
        dice_asked(terms.drop_last()) + terms.last().1
    } else {
        dice_asked(terms.drop_last())
    }
}

/// Number of `Raw` terms among `terms`.
pub open spec fn offsets_given(terms: Seq<(Die, i32)>) -> int
    decreases terms.len(),
{
    if terms.len() == 0 {
        0
    } else if terms.last().0 is Raw {
        offsets_given(terms.drop_last()) + 1
    } else {
        offsets_given(terms.drop_last())
    }
}

/// An outcome has one roll for every die asked and one for every `Raw` term.
pub proof fn lemma_rolls_counted(terms: Seq<(Die, i32)>)
    ensures
        template(terms).len() == dice_asked(terms) + offsets_given(terms),
    decreases terms.len(),
{
    if terms.len() > 0 {
        lemma_rolls_counted(terms.drop_last());
    }
}

/// A critical hit rolls twice the dice, and no more `Raw` terms than before.
pub proof fn lemma_critical_rolls_twice_the_dice(terms: Seq<(Die, i32)>)
    requires
        doubling_fits(terms),
    ensures
        dice_asked(adjusted(terms, true)) == 2 * dice_asked(terms),
        offsets_given(adjusted(terms, true)) == offsets_given(terms),
        template(adjusted(terms, true)).len() == 2 * dice_asked(terms) + offsets_given(terms),
    decreases terms.len(),
{
    if terms.len() > 0 {
        lemma_critical_rolls_twice_the_dice(terms.drop_last());
        assert(adjusted(terms, true).drop_last() =~= adjusted(terms.drop_last(), true));
    }
    lemma_rolls_counted(adjusted(terms, true));
}

/// Whether twice the count of every die of `terms` fits an `i32`.
pub fn can_double(terms: &[(Die, i32)]) -> (fit: bool)
    ensures
        fit == doubling_fits(terms@),
{
    let mut i: usize = 0;
    while i < terms.len()
        invariant
            i <= terms.len(),
            doubling_fits(terms@.take(i as int)),
        decreases terms.len() - i,
    {
        let (die, n) = terms[i];
        match die {
            Die::Raw => {},
            _ => {
                if n < -0x4000_0000 || n > 0x3fff_ffff {
                    return false;
                }
            },
        }
        i += 1;
    }
    assert(terms@.take(i as int) =~= terms@);
    true
}

/// The terms as a hit rolls them.
pub fn adjust_for_critical(terms: &[(Die, i32)], critical: bool) -> (rolled: Vec<(Die, i32)>)
    requires
        critical ==> doubling_fits(terms@),
    ensures
        rolled@ == adjusted(terms@, critical),
{
    let mut rolled: Vec<(Die, i32)> = Vec::new();
    let mut i: usize = 0;
    while i < terms.len()
        invariant
            i <= terms.len(),
            critical ==> doubling_fits(terms@),
            rolled@ == adjusted(terms@.take(i as int), critical),
        decreases terms.len() - i,
    {
        let (die, n) = terms[i];
        let term = if !critical {
            (die, n)
        } else {
            match die {
                Die::Raw => (die, n),
                _ => (die, n * 2),
            }
        };
        rolled.push(term);
        i += 1;
    }
    rolled
}

/// Whether the damage can be rolled, which is what `roll_critical_damage`
/// asks of its input.
pub fn can_roll_damage(components: &Vec<DamageTerms>, critical: bool) -> (fit: bool)
    ensures
        fit == damage_fits(components_of(components@), critical),
{
    let mut least: i128 = 0;
    let mut greatest: i128 = 0;
    let mut i: usize = 0;
    while i < components.len()
        invariant
            i <= components.len(),
            forall|k: int|
                0 <= k < i ==> component_fits((#[trigger] components_of(components@)[k]).0, critical),
            least == least_damage(components_of(components@).take(i as int), critical),
            greatest == greatest_damage(components_of(components@).take(i as int), critical),
            -(i * 0x1_0000_0000) <= least <= i * 0x1_0000_0000,
            -(i * 0x1_0000_0000) <= greatest <= i * 0x1_0000_0000,
        decreases components.len() - i,
    {
        let terms = &components[i].0;
        let ghost all = components_of(components@);
        assert(all[i as int].0 == terms@);
        if critical && !can_double(terms.as_slice()) {
            return false;
        }
        let rolled = adjust_for_critical(terms.as_slice(), critical);
        let (low, high) = total_bounds(rolled.as_slice());
        if !(-0x8000_0000 <= low && high <= 0x7fff_ffff) {
            return false;
        }
        proof {
            assert(all.take(i + 1).drop_last() =~= all.take(i as int));
            lemma_least_at_most_greatest(rolled@);
        }
        least = least + low;
        greatest = greatest + high;
        i += 1;
    }
    assert(components_of(components@).take(i as int) =~= components_of(components@));
    -0x8000_0000 <= least && greatest <= 0x7fff_ffff
}

/// The least total of some terms is at most their greatest total.
pub proof fn lemma_least_at_most_greatest(terms: Seq<(Die, i32)>)
    ensures
        least_total(terms) <= greatest_total(terms),
    decreases terms.len(),
{
    if terms.len() > 0 {
        lemma_least_at_most_greatest(terms.drop_last());
    }
}

/// The overall total of an outcome lies between the least and the greatest
/// damage of its components.
pub proof fn lemma_damage_bounds(damage: Seq<Damage>, components: Seq<Component>, critical: bool)
    requires
        damage.len() == components.len(),
        forall|i: int|
            0 <= i < components.len() ==> is_outcome(
                (#[trigger] damage[i]).rolls@,
                template(adjusted(components[i].0, critical)),
            ) && damage[i].total == sum_values(damage[i].rolls@),
    ensures
        least_damage(components, critical) <= sum_totals(damage) <= greatest_damage(
            components,
            critical,
        ),
    decreases components.len(),
{
    if components.len() > 0 {
        let n = components.len() - 1;
        lemma_damage_bounds(damage.drop_last(), components.drop_last(), critical);
        lemma_outcome_total_bounds(damage[n].rolls@, adjusted(components[n].0, critical));
    }
}

/// Rolls every damage component, with the dice doubled on a critical hit,
/// and totals the components.
pub fn roll_critical_damage<D: DiceRoller>(
    dice_roller: &D,
    components: &Vec<DamageTerms>,
    critical: bool,
) -> (response: RollAttackResponse)
    requires
        damage_fits(components_of(components@), critical),
    ensures
        is_damage(response, components_of(components@), critical),
        damage_rolled_with(dice_roller, response, components_of(components@), critical),
{
    let mut damage_rolls: Vec<Damage> = Vec::new();
    let mut total: i128 = 0;
    let mut i: usize = 0;
    while i < components.len()
        invariant
            i <= components.len(),
            damage_fits(components_of(components@), critical),
            damage_rolls@.len() == i,
            forall|k: int|
                0 <= k < i ==> {
                    let damage = #[trigger] damage_rolls@[k];
                    &&& damage.damage_type == components@[k].1
                    &&& is_outcome(damage.rolls@, template(adjusted(components@[k].0@, critical)))
                    &&& damage.total == sum_values(damage.rolls@)
                    &&& may_roll(
                        dice_roller,
                        adjusted(components@[k].0@, critical),
                        damage.rolls,
                        damage.total,
                    )
                },
            total == sum_totals(damage_rolls@),
            -(i * 0x1_0000_0000) <= total <= i * 0x1_0000_0000,
        decreases components.len() - i,
    {
        let damage_type = components[i].1;
        assert(component_fits(components_of(components@)[i as int].0, critical));
        let required_rolls = adjust_for_critical(components[i].0.as_slice(), critical);
        let (rolls, component_total) = dice_roller.roll(required_rolls.as_slice());
        let ghost so_far = damage_rolls@;
        damage_rolls.push(Damage { damage_type, rolls, total: component_total });
        total = total + component_total as i128;
        proof {
            assert(damage_rolls@.drop_last() =~= so_far);
        }
        i += 1;
    }
    proof {
        lemma_damage_bounds(damage_rolls@, components_of(components@), critical);
    }
    RollAttackResponse { damage_rolls, total: total as i32 }
}

} // verus!
