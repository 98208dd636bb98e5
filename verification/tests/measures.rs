//! Exact measures, in hundredths of a point, and the looks that go with them.

use tazamun_gui::balance::{apparatus_h, beam_half, beam_inset, card_h};
use tazamun_gui::ceremony::{ticket_box, ticket_h};
use tazamun_gui::chrome::{
    button_glyph, radius, resize_cursor, resize_zones, titlebar_press, window_buttons_width,
    BarPress, Edges, Resize, ResizeCursor, WinButton, WinGlyph,
};
use tazamun_gui::components::{
    chip_box, empty_block_h, empty_state_h, figure_box, lift, measured, notch, plate_box,
    plate_cut, plate_look, plate_points, touch, Band, Lift, Touch,
};
use tazamun_gui::controls::{
    chevron_ink, chevron_name, chevron_side, ghost_h, ghost_look, label_room, leader_row,
    tally_size, GhostEdge, MarkInk, Sweep, MAX_DOTS,
};
use tazamun_gui::fields::{
    clear_side, field_h, field_inner, field_look, field_step, field_width, glass_r, inset_x,
    search_cleared, search_room, well_h, FieldInk, FieldState, MarkRoom,
};
use tazamun_gui::focusnav::{key_activated, list_nav, skip_box, skip_link};
use tazamun_gui::geometry::{max_of, min_of, Frame, Point};
use tazamun_gui::theme::{
    restored_scale, sized, snap, stored_scale, Custody, Density, Mode, R_WINDOW, STEP_BODY,
    STEP_LABEL,
};

fn frame(left: i64, top: i64, right: i64, bottom: i64) -> Frame {
    Frame { left, top, right, bottom }
}

#[test]
fn a_frame_knows_what_it_holds() {
    let f = frame(0, 0, 1_000, 500);
    assert!(f.is_positive());
    assert!(f.contains(Point { x: 0, y: 500 }));
    assert!(!f.contains(Point { x: 1_001, y: 0 }));
    assert!(!frame(0, 0, 0, 500).is_positive());
    assert_eq!(min_of(3, -2), -2);
    assert_eq!(max_of(3, -2), 3);
}

#[test]
fn type_grows_with_the_scale_and_rows_never_shrink() {
    assert_eq!(sized(STEP_BODY, 10_000), 1_350);
    assert_eq!(sized(STEP_BODY, 22_000), 2_970);
    assert_eq!(sized(STEP_LABEL, 7_000), 875);
    assert_eq!(Density::Compact.row_h(7_000), 2_400);
    assert_eq!(Density::Regular.row_h(15_000), 4_200);
    assert_eq!(Density::Roomy.row_h(22_000), 7_480);
}

#[test]
fn a_hairline_sits_on_half_a_point() {
    assert_eq!(snap(1_000), 1_050);
    assert_eq!(snap(1_099), 1_050);
    assert_eq!(snap(-1), -50);
    assert_eq!(snap(-100), -50);
}

#[test]
fn a_stored_scale_is_held_and_rounded() {
    let mut s: i32 = 7_000;
    while s <= 22_000 {
        assert_eq!(restored_scale(stored_scale(Some(s))), s);
        s += 500;
    }
    assert_eq!(restored_scale(stored_scale(None)), 10_000);
    assert_eq!(restored_scale(stored_scale(Some(90_000))), 22_000);
    assert_eq!(restored_scale(stored_scale(Some(10_249))), 10_000);
    assert_eq!(restored_scale(stored_scale(Some(10_250))), 10_500);
}

#[test]
fn only_a_held_lease_is_sealed_and_only_trouble_alarms() {
    assert!(Custody::Mine.sealed() && Custody::Peer.sealed());
    for c in [Custody::Free, Custody::Stale, Custody::Blocked, Custody::Quarantined, Custody::Good] {
        assert!(!c.sealed(), "{c:?}");
    }
    for c in [Custody::Stale, Custody::Blocked, Custody::Quarantined] {
        assert!(c.alarming(), "{c:?}");
    }
    for c in [Custody::Free, Custody::Mine, Custody::Peer, Custody::Good] {
        assert!(!c.alarming(), "{c:?}");
    }
    assert_eq!(Mode::all().len(), 3);
    assert_eq!(Density::Roomy.label(), "Roomy");
}

#[test]
fn a_maximized_window_has_square_corners_and_no_edges() {
    assert_eq!(radius(true), 0);
    assert_eq!(radius(false), R_WINDOW);
    let corner = Edges { left: 500, right: 90_000, top: 1_400, bottom: 60_000 };
    assert_eq!(resize_zones(true, Some(corner)), None);
    assert_eq!(resize_zones(false, Some(corner)), Some(Resize::NorthWest));
    assert_eq!(resize_zones(false, None), None);
}

#[test]
fn each_edge_resizes_its_own_way() {
    let far = Edges { left: 40_000, right: 40_000, top: 30_000, bottom: 30_000 };
    assert_eq!(resize_zones(false, Some(far)), None);
    let mut e = far;
    e.left = 600;
    assert_eq!(resize_zones(false, Some(e)), Some(Resize::West));
    e.left = 601;
    assert_eq!(resize_zones(false, Some(e)), None);
    let mut e = far;
    e.right = 0;
    assert_eq!(resize_zones(false, Some(e)), Some(Resize::East));
    e.top = 1_400;
    assert_eq!(resize_zones(false, Some(e)), Some(Resize::NorthEast));
    e.top = 1_401;
    assert_eq!(resize_zones(false, Some(e)), Some(Resize::East));
    let mut e = far;
    e.top = 100;
    assert_eq!(resize_zones(false, Some(e)), Some(Resize::North));
    let mut e = far;
    e.bottom = 100;
    assert_eq!(resize_zones(false, Some(e)), Some(Resize::South));
    e.left = 1_000;
    assert_eq!(resize_zones(false, Some(e)), Some(Resize::SouthWest));
    e.left = 40_000;
    e.right = 1_000;
    assert_eq!(resize_zones(false, Some(e)), Some(Resize::SouthEast));
    assert_eq!(resize_cursor(Resize::South), ResizeCursor::Vertical);
    assert_eq!(resize_cursor(Resize::West), ResizeCursor::Horizontal);
    assert_eq!(resize_cursor(Resize::SouthEast), ResizeCursor::NwSe);
    assert_eq!(resize_cursor(Resize::SouthWest), ResizeCursor::NeSw);
}

#[test]
fn the_title_bar_answers_the_double_click_first() {
    assert_eq!(titlebar_press(true, true, false), BarPress::SetMaximized(true));
    assert_eq!(titlebar_press(true, false, true), BarPress::SetMaximized(false));
    assert_eq!(titlebar_press(false, true, true), BarPress::Drag);
    assert_eq!(titlebar_press(false, false, false), BarPress::Nothing);
    assert_eq!(button_glyph(WinButton::MaximizeRestore, true), WinGlyph::Squares);
    assert_eq!(button_glyph(WinButton::MaximizeRestore, false), WinGlyph::Square);
    assert_eq!(button_glyph(WinButton::Minimize, true), WinGlyph::Line);
    assert_eq!(button_glyph(WinButton::Close, false), WinGlyph::Cross);
    assert_eq!(window_buttons_width(800), 10_600);
    assert_eq!(window_buttons_width(-800), 9_000);
}

#[test]
fn a_plate_is_cut_at_two_corners() {
    let pts = plate_points(frame(0, 0, 10_000, 4_000), Some(800));
    let xy: Vec<(i64, i64)> = pts.iter().map(|p| (p.x, p.y)).collect();
    assert_eq!(
        xy,
        vec![(0, 0), (9_200, 0), (10_000, 800), (10_000, 4_000), (800, 4_000), (0, 3_200)]
    );
    assert_eq!(plate_cut(10_000, 4_000), 800);
    assert_eq!(plate_cut(10_000, 1_000), 350);
    assert_eq!(plate_cut(800, 4_000), 200);
    assert_eq!(plate_cut(-5, -5), 0);
    assert_eq!(notch(90_000, 5_000), 1_200);
    assert_eq!(notch(900, 5_000), 900);
    assert_eq!(notch(-900, 5_000), 0);
}

#[test]
fn a_plate_looks_as_it_is_touched() {
    assert_eq!(touch(false, true, true), Touch::Disabled);
    assert_eq!(touch(true, true, true), Touch::Pressed);
    assert_eq!(touch(true, false, true), Touch::Hovered);
    assert_eq!(touch(true, false, false), Touch::Rest);
    let l = plate_look(false, true, true, true);
    assert!(!l.struck && !l.ringed && !l.hand);
    let l = plate_look(true, true, true, true);
    assert!(l.struck && l.ringed && l.hand);
    assert_eq!(lift(450), Lift::Bright);
    assert_eq!(lift(449), Lift::Deepened);
}

#[test]
fn blocks_are_as_tall_as_what_they_hold() {
    assert_eq!(figure_box(2_900, 1_400), 4_900);
    assert_eq!(chip_box(1_500, None), 1_500);
    assert_eq!(chip_box(1_500, Some(1_400)), 1_600);
    assert_eq!(chip_box(100, Some(-900)), 200);
    assert_eq!(plate_box(1_250, 1_600), 2_850);
    assert_eq!(plate_box(1_250, 9_000), 9_000);
    assert_eq!(empty_block_h(2_000, 1_500), 4_300);
    assert_eq!(empty_state_h(4_300, 2_800, 800), 11_200);
    assert_eq!(empty_state_h(40_000, 2_800, 800), 41_600);
}

#[test]
fn a_measure_is_never_thinner_than_its_rule() {
    assert_eq!(measured(10_000, 600, Some(5_000)), Some(Band { w: 5_000, h: 500 }));
    assert_eq!(measured(10_000, 600, Some(1)), Some(Band { w: 200, h: 500 }));
    assert_eq!(measured(10_000, 600, Some(99_999)), Some(Band { w: 10_000, h: 500 }));
    assert_eq!(measured(10_000, 600, Some(0)), None);
    assert_eq!(measured(10_000, 600, None), None);
    assert_eq!(measured(399, 600, Some(5_000)), None);
    assert_eq!(measured(10_000, 299, Some(5_000)), None);
}

#[test]
fn a_ghost_button_sweeps_unless_it_is_held_or_dead() {
    let dead = ghost_look(false, true, true, true);
    assert_eq!(dead.edge, GhostEdge::Faded);
    assert_eq!(dead.sweep, Sweep::Absent);
    assert!(!dead.raised && !dead.reached && !dead.hand);
    let held = ghost_look(true, true, true, false);
    assert_eq!(held.edge, GhostEdge::Gold);
    assert_eq!(held.sweep, Sweep::Whole);
    let near = ghost_look(true, false, true, false);
    assert_eq!(near.edge, GhostEdge::DeepGold);
    assert_eq!(near.sweep, Sweep::Animated);
    let rest = ghost_look(true, false, false, true);
    assert_eq!(rest.edge, GhostEdge::Plain);
    assert!(rest.ringed && rest.reached && !rest.raised);
    assert_eq!(ghost_h(1_250, 400, 1_500), 2_050);
    assert_eq!(ghost_h(1_250, 400, 9_500), 9_500);
}

#[test]
fn a_chevron_says_what_pressing_it_does() {
    assert_eq!(chevron_name(true), "Collapse");
    assert_eq!(chevron_name(false), "Expand");
    assert_eq!(chevron_ink(false, true, true, true), MarkInk::Disabled);
    assert_eq!(chevron_ink(true, true, false, false), MarkInk::Gold);
    assert_eq!(chevron_ink(true, false, false, true), MarkInk::Full);
    assert_eq!(chevron_ink(true, false, false, false), MarkInk::Muted);
    assert_eq!(chevron_side(10_000), 1_800);
}

#[test]
fn a_dotted_leader_fills_the_gap_it_has() {
    let l = leader_row(20_000, 4_000, 3_000);
    assert_eq!(l.from, 4_800);
    assert_eq!(l.dots, 29);
    let last = l.from + (l.dots as i64 - 1) * 400;
    assert!(last <= 20_000 - 3_000 - 800, "{last}");
    assert_eq!(leader_row(9_799, 4_000, 3_000).dots, 0);
    assert_eq!(leader_row(9_800, 4_000, 3_000).dots, 4);
    assert_eq!(leader_row(900_000_000, 0, 0).dots, MAX_DOTS);
    assert_eq!(label_room(20_000, 3_000), 15_400);
    assert_eq!(label_room(1_000, 3_000), 0);
    assert_eq!(tally_size(2_000, 0, 10_000), (2_800, 1_575));
    assert_eq!(tally_size(100, 0, 22_000), (3_465, 3_465));
}

#[test]
fn a_field_keeps_room_for_its_marks() {
    let bare = MarkRoom { lead: 0, trail: 0 };
    let marked = MarkRoom { lead: 1_650, trail: 1_825 };
    assert_eq!(field_step(true), 1_200);
    assert_eq!(field_step(false), 1_250);
    assert_eq!(field_width(None, false, 10_000, bare), 3_750);
    assert_eq!(field_width(Some(24_000), false, 10_000, bare), 24_000);
    assert_eq!(field_width(Some(100), true, 10_000, marked), 7_075);
    assert_eq!(well_h(1_700), 3_300);
    assert!(field_h(22_000) > field_h(10_000));
    assert_eq!(inset_x(), 1_000);
    let inner = field_inner(frame(0, 0, 20_000, 3_300), marked);
    assert_eq!(
        (inner.left, inner.top, inner.right, inner.bottom),
        (2_650, 400, 17_175, 2_900)
    );
    assert_eq!(glass_r(10_000), 425);
    assert_eq!(clear_side(10_000), 1_625);
    assert_eq!(search_room(true, 10_000), MarkRoom { lead: 1_650, trail: 0 });
    assert_eq!(search_room(false, 10_000), MarkRoom { lead: 1_650, trail: 1_825 });
    assert!(search_cleared(false, true));
    assert!(!search_cleared(true, true));
    assert!(!search_cleared(false, false));
}

#[test]
fn a_field_wears_its_state_at_rest_too() {
    let n = field_look(FieldState::Neutral);
    assert_eq!((n.accent, n.resting), (FieldInk::Gold, FieldInk::Faint));
    let v = field_look(FieldState::Valid);
    assert_eq!((v.accent, v.resting), (FieldInk::Good, FieldInk::Good));
    let i = field_look(FieldState::Invalid);
    assert_eq!((i.accent, i.resting), (FieldInk::Blocked, FieldInk::Blocked));
}

#[test]
fn a_list_wraps_at_both_ends() {
    let mut sel: usize = 2;
    assert!(list_nav(3, &mut sel, true, false, false, false));
    assert_eq!(sel, 0);
    assert!(list_nav(3, &mut sel, false, true, false, false));
    assert_eq!(sel, 2);
    assert!(list_nav(3, &mut sel, false, false, true, false));
    assert_eq!(sel, 0);
    assert!(list_nav(3, &mut sel, false, false, true, true));
    assert_eq!(sel, 2);
    assert!(!list_nav(3, &mut sel, true, true, false, false));
    let mut lost: usize = 90;
    assert!(list_nav(3, &mut lost, false, false, false, false));
    assert_eq!(lost, 2);
    assert!(!list_nav(0, &mut lost, true, false, false, false));
    assert_eq!(lost, 2);
    assert!(!list_nav(1, &mut 0, true, false, false, false));
}

#[test]
fn only_the_focused_thing_hears_a_key() {
    assert!(key_activated(true, false, true));
    assert!(!key_activated(true, false, false));
    assert!(!key_activated(false, true, true));
    assert!(skip_link(true, false, false, false));
    assert!(skip_link(false, true, true, false));
    assert!(!skip_link(false, false, true, true));
    let chip = skip_box(6_000, 1_400, 1_700);
    assert_eq!((chip.w, chip.h), (8_400, 2_500));
}

#[test]
fn the_scales_leave_room_for_their_caption() {
    assert_eq!(card_h(2_000, 1_500, 1_400), 7_300);
    assert!(apparatus_h(5_000) >= apparatus_h(0));
    assert_eq!(beam_inset(0), beam_inset(-5));
    assert_eq!(beam_inset(0), 7_000);
    assert_eq!(beam_inset(40_000), 20_800);
    assert_eq!(beam_half(50_000, 0), 18_000);
    assert_eq!(beam_half(100_000, 0), 20_000);
    assert_eq!(beam_half(0, 0), 6_000);
}

#[test]
fn a_ticket_is_wide_enough_to_read() {
    let b = ticket_box(60_000);
    assert_eq!(b.w, 60_000);
    assert_eq!(b.wrap, 43_800);
    assert_eq!(ticket_box(0).wrap, 6_000);
    assert_eq!(ticket_box(0).w, 20_000);
    assert_eq!(ticket_h(2_000, true), 11_800);
    assert_eq!(ticket_h(2_000, false), 6_600);
    assert_eq!(ticket_h(50_000, true), 52_400);
}
