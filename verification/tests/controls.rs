//! The quiet controls.

use tazamun_gui::components::{lift, plate_look, touch, Lift, Touch};
use tazamun_gui::controls::{
    chevron_ink, chevron_name, chevron_side, count_text, ghost_h, ghost_look, label_room, leader_row,
    tally_size, GhostEdge, MarkInk, Sweep,
};

#[test]
fn a_tally_of_none_is_not_drawn() {
    assert_eq!(count_text(0), None);
    assert_eq!(count_text(1).as_deref(), Some("1"));
    assert_eq!(count_text(99).as_deref(), Some("99"));
    assert_eq!(count_text(100).as_deref(), Some("99+"));
}

#[test]
fn a_button_that_cannot_be_used_shows_nothing_of_the_pointer() {
    let off = ghost_look(false, true, true, true);
    assert_eq!(off.edge, GhostEdge::Faded);
    assert_eq!(off.sweep, Sweep::Absent);
    assert!(!off.raised && !off.struck && !off.ringed && !off.hand && !off.reached);
    let plate = plate_look(false, true, true, true);
    assert_eq!(plate.touch, Touch::Disabled);
    assert!(!plate.struck && !plate.ringed && !plate.hand);
}

#[test]
fn a_press_counts_before_a_hover() {
    let down = ghost_look(true, true, true, false);
    assert_eq!((down.edge, down.sweep), (GhostEdge::Gold, Sweep::Whole));
    assert!(down.raised && down.struck);
    let over = ghost_look(true, false, true, false);
    assert_eq!((over.edge, over.sweep), (GhostEdge::DeepGold, Sweep::Animated));
    let focus = ghost_look(true, false, false, true);
    assert_eq!(focus.edge, GhostEdge::Plain);
    assert!(focus.ringed && focus.reached && !focus.raised);
    assert_eq!(touch(true, true, true), Touch::Pressed);
    assert_eq!(touch(true, false, true), Touch::Hovered);
    assert_eq!(touch(true, false, false), Touch::Rest);
}

#[test]
fn the_disclosure_mark_says_what_it_does() {
    assert_eq!(chevron_name(true), "Collapse");
    assert_eq!(chevron_name(false), "Expand");
    assert_eq!(chevron_ink(false, true, true, true), MarkInk::Disabled);
    assert_eq!(chevron_ink(true, true, true, true), MarkInk::Gold);
    assert_eq!(chevron_ink(true, false, false, true), MarkInk::Full);
    assert_eq!(chevron_ink(true, false, false, false), MarkInk::Muted);
    assert_eq!(chevron_side(10_000), 1_800);
}

#[test]
fn a_leader_needs_a_real_gap() {
    let wide = leader_row(30_000, 5_000, 5_000);
    assert_eq!((wide.from, wide.dots), (5_800, 47));
    assert_eq!(leader_row(12_700, 5_000, 5_000).dots, 0);
    assert_eq!(leader_row(12_800, 5_000, 5_000).dots, 4);
    assert_eq!(leader_row(100_000_000, 0, 0).dots, 2048);
    assert_eq!(label_room(10_000, 5_000), 3_400);
    assert_eq!(label_room(1_000, 5_000), 0);
}

#[test]
fn a_label_keeps_its_contrast_under_the_pointer() {
    assert_eq!(lift(450), Lift::Bright);
    assert_eq!(lift(370), Lift::Deepened);
}

#[test]
fn sizes_follow_the_type() {
    assert_eq!(tally_size(300, 1_365, 10_000), (1_575, 1_575));
    assert_eq!(tally_size(3_000, 1_365, 10_000), (3_800, 1_575));
    assert_eq!(tally_size(300, 3_000, 10_000), (3_200, 3_200));
    assert_eq!(ghost_h(1_250, 800, 1_600), 2_850);
    assert_eq!(ghost_h(1_250, 0, 1_600), 1_600);
}
