//! The dice that exist.
use crate::dice::Die;
use vstd::prelude::*;

verus! {

/// Every die, smallest first, and `Raw` last.
pub fn list_dice() -> (dice: Vec<Die>)
    ensures
        dice@ == seq![Die::D4, Die::D6, Die::D8, Die::D10, Die::D12, Die::D20, Die::Raw],
{
    let mut dice: Vec<Die> = Vec::new();
    dice.push(Die::D4);
    dice.push(Die::D6);
    dice.push(Die::D8);
    dice.push(Die::D10);
    dice.push(Die::D12);
    dice.push(Die::D20);
    dice.push(Die::Raw);
    dice
}

} // verus!
