//! The sentences of the first steps.

use tazamun_gui::onboarding::{step_sentence, StepState};

#[test]
fn the_step_in_hand_is_told_apart_from_the_ones_to_come() {
    assert_eq!(step_sentence(1, &StepState::Active), "step 1, you are here");
    assert_eq!(
        step_sentence(2, &StepState::Future),
        "step 2, not started yet"
    );
    assert_eq!(
        step_sentence(3, &StepState::Future),
        "step 3, not started yet"
    );
}
