//! The steps of a first start, in words.

use crate::text::{self, decimal};
use vstd::prelude::*;

verus! {

/// What a step is called.
pub const STEP_LEAD: &'static str = "step";

/// The step in hand.
pub const STEP_ACTIVE: &'static str = "you are here";

/// A step still to come.
pub const STEP_FUTURE: &'static str = "not started yet";

/// Where a step stands.
#[derive(Clone, Copy, PartialEq, Eq, Debug, Structural)]
pub enum StepState {
    /// It is the step in hand.
    Active,
    /// It cannot be reached yet.
    Future,
}

/// The sentence one step announces: its number, and whether it is the one in
/// hand.
pub fn step_sentence(n: u8, state: &StepState) -> (r: String)
    ensures
        r@ == STEP_LEAD@ + " "@ + text::dec(n as nat) + ", "@ + match *state {
            StepState::Active => STEP_ACTIVE@,
            StepState::Future => STEP_FUTURE@,
        },
{
    let mut r: String = STEP_LEAD.to_owned();
    r.append(" ");
    r.append(decimal(n as u64).as_str());
    r.append(", ");
    match state {
        StepState::Active => r.append(STEP_ACTIVE),
        StepState::Future => r.append(STEP_FUTURE),
    }
    r
}

/// A step is told by its number and by whether it is the one to take.
pub proof fn law_a_step_is_told_by_its_number(n: u8, state: StepState, r: String)
    requires
        call_ensures(step_sentence, (n, &state), r),
    ensures
        (STEP_LEAD@ + " "@ + text::dec(n as nat) + ", "@).is_prefix_of(r@),
        state is Active ==> r@ == STEP_LEAD@ + " "@ + text::dec(n as nat) + ", "@ + STEP_ACTIVE@,
        state is Future ==> r@ == STEP_LEAD@ + " "@ + text::dec(n as nat) + ", "@ + STEP_FUTURE@,
{
    let lead = STEP_LEAD@ + " "@ + text::dec(n as nat) + ", "@;
    assert(lead =~= r@.take(lead.len() as int));
}

} // verus!
