//! Rolling a dice expression.
use crate::dice::dice_roller::can_roll;
use crate::dice::{
    is_outcome, may_parse, may_roll, sum_values, template, totals_fit, DiceExpressionParser,
    DiceRoller, Die, Roll,
};
use crate::handlers::HandlerError;
use std::sync::Arc;
use vstd::prelude::*;
use vstd::string::StringExecFns;

verus! {

/// What rolling an expression needs: a parser and a dice roller.
pub struct RollDiceHandlerDependencies<P: DiceExpressionParser, D: DiceRoller> {
    pub dice_expression_parser: Arc<P>,
    pub dice_roller: Arc<D>,
}

/// The expression that was rolled, its rolls and their total.
#[derive(Debug, PartialEq)]
pub struct RollDiceResponse {
    pub expression: String,
    pub total: i32,
    pub rolls: Vec<Roll>,
}

/// The message for terms whose total may not fit.
pub open spec fn total_out_of_range() -> Seq<char> {
    "the total of the roll is out of range"@
}

/// `outcome` is what rolling an expression yields, given the parser's
/// `answer` for it: a rejection as a `BadRequest` with the parser's message;
/// an `Internal` failure for terms whose total may not fit an `i32`; else the
/// expression itself with what `dice_roller` gave for its terms, which is an
/// outcome of the terms and the sum of the rolls.
pub open spec fn is_dice_roll<D: DiceRoller>(
    outcome: Result<RollDiceResponse, HandlerError>,
    dice_roller: &D,
    expression: Seq<char>,
    answer: Result<Vec<(Die, i32)>, String>,
) -> bool {
    match answer {
        Err(rejection) => outcome matches Err(HandlerError::BadRequest(message)) && message@
            == rejection@,
        Ok(terms) => if totals_fit(terms@) {
            &&& outcome matches Ok(response)
            &&& response.expression@ == expression
            &&& may_roll(dice_roller, terms@, response.rolls, response.total)
            &&& is_outcome(response.rolls@, template(terms@))
            &&& response.total == sum_values(response.rolls@)
        } else {
            outcome matches Err(HandlerError::Internal(message)) && message@ == total_out_of_range()
        },
    }
}

/// Parses `expression` and rolls its terms.
pub fn roll_dice<P: DiceExpressionParser, D: DiceRoller>(
    expression: String,
    dependencies: &RollDiceHandlerDependencies<P, D>,
) -> (outcome: Result<RollDiceResponse, HandlerError>)
    ensures
        exists|answer: Result<Vec<(Die, i32)>, String>|
            {
                &&& #[trigger] may_parse(&*dependencies.dice_expression_parser, expression@, answer)
                &&& is_dice_roll(outcome, &*dependencies.dice_roller, expression@, answer)
            },
{
    let text = expression.as_str();
    let answer = dependencies.dice_expression_parser.parse(text);
    let ghost given = answer;
    proof {
        assert(may_parse(&*dependencies.dice_expression_parser, expression@, given));
    }
    let parsed_dice_expression_result = match answer {
        Ok(result) => result,
        Err(error) => {
            return Err(HandlerError::BadRequest(error));
        },
    };
    if !can_roll(parsed_dice_expression_result.as_slice()) {
        return Err(
            HandlerError::Internal(String::from_str("the total of the roll is out of range")),
        );
    }
    let (rolls, total) = dependencies.dice_roller.roll(parsed_dice_expression_result.as_slice());
    Ok(RollDiceResponse { expression, total, rolls })
}

} // verus!
