//! The production die roller, backed by the thread-local generator of `rand`.
use crate::dice::{Die, DieRoller};
use rand::rngs::ThreadRng;
use rand::Rng;
use vstd::prelude::*;

verus! {

/// `rand::rngs::ThreadRng`, a handle to a thread's generator. Nothing of its
/// inside is visible here.
#[verifier::external_type_specification]
#[verifier::external_body]
pub struct ExThreadRng(ThreadRng);

/// `rand::rng`: a handle to the calling thread's generator. Nothing is
/// claimed of the handle.
#[verifier::external_body]
fn thread_rng() -> ThreadRng {
    rand::rng()
}

/// `rand::Rng::random_range` on the inclusive range `1..=high`. The call
/// panics on an empty range, which `requires` rules out; the draw is only
/// known to lie in the range.
#[verifier::external_body]
fn random_up_to(rng: &mut ThreadRng, high: i32) -> (value: i32)
    requires
        1 <= high,
    ensures
        1 <= value <= high,
{
    rng.random_range(1..=high)
}

/// Rolls dice with the generator of the calling thread, so concurrent callers
/// never share generator state.
pub struct DieRollerImpl {}

impl DieRollerImpl {
    /// A die roller; it draws from the generator of whichever thread rolls.
    pub fn default() -> Self {
        DieRollerImpl {}
    }
}

impl DieRoller for DieRollerImpl {
    /// Draws a face of `die` from the calling thread's generator; `Raw` is
    /// not drawn and shows 0.
    fn roll(&self, die: &Die) -> (value: i32) {
        match die {
            Die::Raw => 0,
            _ => {
                let mut rng = thread_rng();
                random_up_to(&mut rng, die.faces())
            },
        }
    }
}

} // verus!
