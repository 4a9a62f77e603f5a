//! Dice, rolls, and the contracts shared by everything that rolls them.
use vstd::prelude::*;

pub mod critical;
pub mod dice_expression_parser;
pub mod dice_roller;
pub mod die_roller;

verus! {

/// A polyhedral die, or `Raw` for a literal offset that is never rolled.
#[derive(Debug, Clone, Copy, PartialEq, Eq, Hash, Structural)]
pub enum Die {
    D4,
    D6,
    D8,
    D10,
    D12,
    D20,
    Raw,
}

/// One realized outcome: the die and the value it showed.
#[derive(Debug, Clone, Copy, PartialEq, Eq, Hash, Structural)]
pub struct Roll {
    pub die: Die,
    pub value: i32,
}

/// Number of faces of a die; `Raw` has none.
pub open spec fn faces(die: Die) -> int {
    match die {
        Die::D4 => 4,
        Die::D6 => 6,
        Die::D8 => 8,
        Die::D10 => 10,
        Die::D12 => 12,
        Die::D20 => 20,
        Die::Raw => 0,
    }
}

/// What a single roll of `die` may show: a face between 1 and `faces(die)`,
/// and always 0 for `Raw`.
pub open spec fn is_face(die: Die, value: int) -> bool {
    if die is Raw {
        value == 0
    } else {
        1 <= value <= faces(die)
    }
}

impl Die {
    /// Number of faces, 0 for `Raw`.
    pub fn faces(&self) -> (n: i32)
        ensures
            n == faces(*self),
    {
        match self {
            Die::D4 => 4,
            Die::D6 => 6,
            Die::D8 => 8,
            Die::D10 => 10,
            Die::D12 => 12,
            Die::D20 => 20,
            Die::Raw => 0,
        }
    }
}

/// The rolls that a term asks for, in order, with every rolled value left at 0:
/// a `Raw` term is one roll whose value is the term's count; any other term is
/// `count` rolls of its die, and none at all when the count is not positive.
pub open spec fn term_template(term: (Die, i32)) -> Seq<Roll> {
    if term.0 is Raw {
        seq![Roll { die: Die::Raw, value: term.1 }]
    } else if term.1 > 0 {
        Seq::new(term.1 as nat, |i: int| Roll { die: term.0, value: 0 })
    } else {
        Seq::empty()
    }
}

/// The templates of all terms, concatenated left to right.
pub open spec fn template(terms: Seq<(Die, i32)>) -> Seq<Roll>
    decreases terms.len(),
{
    if terms.len() == 0 {
        Seq::empty()
    } else {
        template(terms.drop_last()) + term_template(terms.last())
    }
}

/// `rolls` is one way the dice of `template` can fall: the same dice in the
/// same order, every `Raw` value as given, every other value a face of its die.
pub open spec fn is_outcome(rolls: Seq<Roll>, template: Seq<Roll>) -> bool {
    &&& rolls.len() == template.len()
    &&& forall|i: int|
        0 <= i < template.len() ==> {
            &&& (#[trigger] rolls[i]).die == template[i].die
            &&& if template[i].die is Raw {
                rolls[i].value == template[i].value
            } else {
                is_face(template[i].die, rolls[i].value as int)
            }
        }
}

/// Sum of the values of `rolls`; 0 for no rolls.
pub open spec fn sum_values(rolls: Seq<Roll>) -> int
    decreases rolls.len(),
{
    if rolls.len() == 0 {
        0
    } else {
        sum_values(rolls.drop_last()) + rolls.last().value
    }
}

/// The smallest total a term can contribute: every die shows 1.
pub open spec fn term_least(term: (Die, i32)) -> int {
    if term.0 is Raw || term.1 > 0 {
        term.1 as int
    } else {
        0
    }
}

/// The greatest total a term can contribute: every die shows its top face.
pub open spec fn term_greatest(term: (Die, i32)) -> int {
    if term.0 is Raw {
        term.1 as int
    } else if term.1 > 0 {
        term.1 * faces(term.0)
    } else {
        0
    }
}

/// The smallest total that any outcome of `terms` can have.
pub open spec fn least_total(terms: Seq<(Die, i32)>) -> int
    decreases terms.len(),
{
    if terms.len() == 0 {
        0
    } else {
        least_total(terms.drop_last()) + term_least(terms.last())
    }
}

/// The greatest total that any outcome of `terms` can have.
pub open spec fn greatest_total(terms: Seq<(Die, i32)>) -> int
    decreases terms.len(),
{
    if terms.len() == 0 {
        0
    } else {
        greatest_total(terms.drop_last()) + term_greatest(terms.last())
    }
}

/// Every outcome of `terms` has a total that an `i32` can hold.
pub open spec fn totals_fit(terms: Seq<(Die, i32)>) -> bool {
    i32::MIN <= least_total(terms) && greatest_total(terms) <= i32::MAX
}

/// A source of single die rolls.
pub trait DieRoller {
    /// Rolls `die` once.
    fn roll(&self, die: &Die) -> (value: i32)
        ensures
            is_face(*die, value as int),
    ;
}

/// Reads dice expressions.
pub trait DiceExpressionParser {
    /// Parses `expression` into terms, in the order in which they stand. An
    /// expression without terms is rejected with a message.
    fn parse(&self, expression: &str) -> (outcome: Result<Vec<(Die, i32)>, String>)
        ensures
            outcome matches Ok(terms) ==> terms@.len() > 0,
    ;
}

/// `answer` is an answer that `parser` may give for `expression`.
pub open spec fn may_parse<P: DiceExpressionParser>(
    parser: &P,
    expression: Seq<char>,
    answer: Result<Vec<(Die, i32)>, String>,
) -> bool {
    exists|text: &str| #[trigger] text@ == expression && call_ensures(P::parse, (parser, text), answer)
}

/// `value` is a value that `die_roller` may show for `die`.
pub open spec fn may_show<R: DieRoller>(die_roller: &R, die: Die, value: i32) -> bool {
    call_ensures(R::roll, (die_roller, &die), value)
}

/// Every rolled value among `rolls` is one that `die_roller` may show for its
/// die.
pub open spec fn shown_by<R: DieRoller>(die_roller: &R, rolls: Seq<Roll>) -> bool {
    forall|i: int|
        0 <= i < rolls.len() && !((#[trigger] rolls[i]).die is Raw) ==> may_show(
            die_roller,
            rolls[i].die,
            rolls[i].value,
        )
}

/// Expands terms into rolls and adds them up.
pub trait DiceRoller {
    /// Rolls every die that `dice` asks for and totals the values.
    fn roll(&self, dice: &[(Die, i32)]) -> (outcome: (Vec<Roll>, i32))
        requires
            totals_fit(dice@),
        ensures
            is_outcome(outcome.0@, template(dice@)),
            outcome.1 == sum_values(outcome.0@),
    ;
}

/// `rolls` with `total` is an outcome that `dice_roller` may give for `terms`.
pub open spec fn may_roll<D: DiceRoller>(
    dice_roller: &D,
    terms: Seq<(Die, i32)>,
    rolls: Vec<Roll>,
    total: i32,
) -> bool {
    exists|dice: &[(Die, i32)]| #[trigger]
        dice@ == terms && call_ensures(D::roll, (dice_roller, dice), (rolls, total))
}

/// Appending one roll adds its value to the sum.
pub proof fn lemma_sum_values_push(rolls: Seq<Roll>, roll: Roll)
    ensures
        sum_values(rolls.push(roll)) == sum_values(rolls) + roll.value,
{
    assert(rolls.push(roll).drop_last() =~= rolls);
}

/// The total of any outcome lies between the least and the greatest total of
/// its terms.
pub proof fn lemma_outcome_total_bounds(rolls: Seq<Roll>, terms: Seq<(Die, i32)>)
    requires
        is_outcome(rolls, template(terms)),
    ensures
        least_total(terms) <= sum_values(rolls) <= greatest_total(terms),
    decreases terms.len(),
{
    if terms.len() > 0 {
        let chunk = term_template(terms.last());
        let head = rolls.take(rolls.len() - chunk.len());
        let tail = rolls.skip(rolls.len() - chunk.len());
        lemma_outcome_total_bounds(head, terms.drop_last());
        lemma_term_total_bounds(tail, terms.last());
        lemma_sum_values_concat(head, tail);
        assert(head + tail =~= rolls);
    }
}

/// The sum over a concatenation is the sum of the sums.
pub proof fn lemma_sum_values_concat(a: Seq<Roll>, b: Seq<Roll>)
    ensures
        sum_values(a + b) == sum_values(a) + sum_values(b),
    decreases b.len(),
{
    if b.len() > 0 {
        assert((a + b).drop_last() =~= a + b.drop_last());
        lemma_sum_values_concat(a, b.drop_last());
    }
}

/// The total of the rolls of one term lies between the term's bounds.
pub proof fn lemma_term_total_bounds(rolls: Seq<Roll>, term: (Die, i32))
    requires
        is_outcome(rolls, term_template(term)),
    ensures
        term_least(term) <= sum_values(rolls) <= term_greatest(term),
{
    if term.0 is Raw {
        assert(sum_values(rolls.drop_last()) == 0);
    } else if term.1 > 0 {
        lemma_same_die_bounds(rolls, term.0);
    }
}

/// The total of `rolls`, all of one rolled die, lies between their number and
/// that number times the die's faces.
pub proof fn lemma_same_die_bounds(rolls: Seq<Roll>, die: Die)
    requires
        !(die is Raw),
        forall|i: int| 0 <= i < rolls.len() ==> is_face(die, (#[trigger] rolls[i]).value as int),
    ensures
        rolls.len() <= sum_values(rolls) <= rolls.len() * faces(die),
    decreases rolls.len(),
{
    if rolls.len() > 0 {
        lemma_same_die_bounds(rolls.drop_last(), die);
        assert((rolls.len() - 1) * faces(die) + faces(die) == rolls.len() * faces(die))
            by (nonlinear_arith);
    }
}

} // verus!
