//! Walking and drawing the menu bar.

use tazamun_gui::geometry::Frame;
use tazamun_gui::headband::{
    bar_room, compartment_rules, content_width, head_height, head_look, head_width, item_look,
    keep_order, mark_r, open_notch, plan, separator_stubs, step_focus, step_items, step_menus,
    strip_h, BarStep, Ground, Ink, LineWidth, Mark, Nav, Plan,
};
use tazamun_gui::menubar::{
    folio_of, mark_of, session_rows, update_mark, BarState, Item, Menu, MenuAction, Row, Tone,
    Trigger,
};
use tazamun_gui::model::UpdateState;
use tazamun_gui::theme::{Density, Mode};

fn item(choice: Option<bool>) -> Item {
    Item {
        label: "Night".to_string(),
        action: MenuAction::Palette(Mode::Night),
        chord: None,
        blocked: None,
        choice,
    }
}

#[test]
fn arrows_walk_an_open_bar_and_leave_a_shut_one_alone() {
    assert_eq!(step_menus(4, None, false, true, false), BarStep::Stay);
    assert_eq!(step_menus(4, None, true, false, false), BarStep::Open(0));
    assert_eq!(step_menus(4, Some(2), true, false, false), BarStep::Close(2));
    assert_eq!(step_menus(4, Some(3), false, false, true), BarStep::Open(0));
    assert_eq!(step_menus(4, Some(0), false, true, false), BarStep::Open(3));
    assert_eq!(step_menus(4, Some(1), false, false, false), BarStep::Stay);
    assert_eq!(step_menus(0, None, true, true, true), BarStep::Stay);
}

#[test]
fn entries_are_walked_in_a_ring() {
    let ids = [11, 12, 13];
    assert_eq!(step_focus(&ids, Some(13), 1), Some(11));
    assert_eq!(step_focus(&ids, Some(11), -1), Some(13));
    assert_eq!(step_focus(&ids, None, 1), Some(11));
    assert_eq!(step_focus(&ids, None, -1), Some(13));
    assert_eq!(step_focus(&ids, Some(99), 1), Some(11));
    assert_eq!(step_focus(&[], Some(11), 1), None);
    assert_eq!(step_items(&ids, Some(12), true, false, false, false), Some(13));
    assert_eq!(step_items(&ids, Some(12), false, true, false, false), Some(11));
    assert_eq!(step_items(&ids, Some(12), true, false, true, false), Some(11));
    assert_eq!(step_items(&ids, Some(12), false, false, false, true), Some(13));
    assert_eq!(step_items(&ids, Some(12), false, false, false, false), None);
    assert_eq!(step_items(&[], None, true, false, false, false), None);
}

#[test]
fn a_page_opened_by_a_key_takes_the_focus_once() {
    let nav = Nav::default().stepped(BarStep::Open(1), 7);
    assert_eq!((nav.focus_into, nav.by_key), (Some(7), Some(7)));
    let (nav, to) = nav.drawn(7, 70, true, &[]);
    assert_eq!(to, None);
    let (nav, to) = nav.drawn(7, 70, true, &[71, 72]);
    assert_eq!(to, Some(71));
    assert_eq!((nav.focus_into, nav.by_key), (None, Some(7)));
    let (nav, to) = nav.drawn(7, 70, true, &[71, 72]);
    assert_eq!(to, None);
    assert!(!nav.walked_out(7, 70, Some(72), &[71, 72]));
    assert!(!nav.walked_out(7, 70, Some(70), &[71, 72]));
    assert!(!nav.walked_out(7, 70, None, &[71, 72]));
    assert!(nav.walked_out(7, 70, Some(99), &[71, 72]));
    let (nav, to) = nav.drawn(7, 70, false, &[]);
    assert_eq!(to, Some(70));
    assert_eq!((nav.focus_into, nav.by_key), (None, None));
}

#[test]
fn a_page_opened_by_the_pointer_is_left_alone() {
    let nav = Nav::default().pressed(7, true, true);
    assert_eq!(nav.by_key, None);
    assert!(!nav.walked_out(7, 70, Some(99), &[71]));
    let nav = Nav::default().pressed(7, true, false);
    assert_eq!(nav.by_key, Some(7));
    let same = nav.pressed(8, false, true);
    assert_eq!(same.by_key, Some(7));
    let shut = same.stepped(BarStep::Close(0), 7);
    assert_eq!((shut.focus_into, shut.by_key), (None, None));
}

#[test]
fn the_marked_head_is_kept_longest() {
    assert_eq!(keep_order(None)[0], Menu::Session);
    let order = keep_order(Some(Menu::Help));
    assert_eq!(order.len(), 4);
    let widths: Vec<(Menu, i32)> = Menu::all().iter().map(|m| (*m, 6_000)).collect();
    let whole = plan(&widths, Some(400), Some(3_000), Some(60_000), None);
    assert_eq!(whole.shown, Menu::all());
    assert!(whole.folded.is_empty());
    let narrow = plan(&widths, Some(400), Some(3_000), Some(9_500), Some(Menu::Help));
    assert_eq!(narrow.shown, vec![Menu::Help]);
    assert_eq!(narrow.folded, vec![Menu::Session, Menu::Tools, Menu::Display]);
    let unknown = plan(&widths, Some(400), Some(3_000), None, None);
    assert!(unknown.shown.is_empty());
    assert!(Plan::default().is_empty());
}

#[test]
fn the_bar_leaves_the_window_its_buttons() {
    assert_eq!(bar_room(100_000, 20_000, 10_600), 80_000);
    assert_eq!(bar_room(100_000, 2_000, 10_600), 89_400);
    assert_eq!(bar_room(5_000, 20_000, 10_600), 0);
    assert_eq!(bar_room(i32::MAX, -5, -9), i32::MAX);
}

#[test]
fn a_head_is_bright_while_open_hovered_or_focused() {
    let l = head_look(true, false, false, false);
    assert!(l.open && l.bright);
    let l = head_look(true, true, false, false);
    assert!(!l.open && !l.bright);
    let l = head_look(false, true, false, false);
    assert!(l.open && l.bright);
    let l = head_look(false, false, false, true);
    assert!(!l.open && l.bright);
}

#[test]
fn an_entry_wears_its_choice() {
    let chosen = item_look(&item(Some(true)), true, false, false);
    assert_eq!(chosen.mark, Mark::Gold);
    assert_eq!(chosen.ground, Ground::Chosen);
    let plain = item_look(&item(Some(false)), true, false, false);
    assert_eq!((plain.mark, plain.ground, plain.ink), (Mark::Absent, Ground::Plain, Ink::Muted));
    let hovered = item_look(&item(None), true, true, false);
    assert_eq!((hovered.ground, hovered.ink), (Ground::Raised, Ink::Full));
    let dead = item_look(&item(None), false, true, true);
    assert_eq!(dead.ink, Ink::Disabled);
}

#[test]
fn a_page_is_as_wide_as_its_widest_line() {
    let lines = [
        LineWidth::Title(4_000, None),
        LineWidth::Item(9_000, Some(2_000)),
        LineWidth::Note,
    ];
    let w = content_width(&lines, 2_000, 1_600, 5_000, 800);
    assert_eq!(w, content_width(&lines[1..2], 2_000, 1_600, 5_000, 800));
    assert!(w >= 9_000 + 2_000 + 2_000 + 800);
    assert_eq!(content_width(&[], 2_000, 1_600, 5_000, 800), 5_800);
    assert_eq!(content_width(&[LineWidth::Note], 2_000, 1_600, 5_000, 800), 5_800);
}

#[test]
fn heads_and_rules_are_measured() {
    assert_eq!(head_width(4_000, false, 10_000), 6_300);
    assert_eq!(head_width(4_000, true, 10_000), 6_300 + 400 + 2 * mark_r(10_000) as i64);
    assert_eq!(head_height(0, 10_000), None);
    assert_eq!(head_height(100, 10_000), Some(100));
    assert_eq!(head_height(90_000, 10_000), Some(strip_h(10_000)));
    let strip = Frame { left: 0, top: 0, right: 6_000, bottom: 4_600 };
    let word = Frame { left: 1_000, top: 1_600, right: 5_000, bottom: 3_000 };
    match compartment_rules(strip, word) {
        Some(r) => assert_eq!((r.cap, r.foot), (1_250, 3_450)),
        None => panic!("no rules"),
    }
    let tall = Frame { left: 1_000, top: 300, right: 5_000, bottom: 4_500 };
    assert!(compartment_rules(strip, tall).is_none());
    match separator_stubs(0, 4_600, 300) {
        Some(s) => assert_eq!((s.top, s.above, s.below, s.foot), (400, 1_600, 3_000, 4_200)),
        None => panic!("no stubs"),
    }
    assert!(separator_stubs(0, 2_000, 300).is_none());
    let bar = Frame { left: 0, top: 0, right: 100_000, bottom: 4_600 };
    let head = Frame { left: 5_000, top: 0, right: 11_000, bottom: 4_000 };
    match open_notch(head, bar) {
        Some(n) => assert_eq!((n.left, n.top, n.right, n.bottom), (5_000, 4_000, 11_000, 4_400)),
        None => panic!("no notch"),
    }
    assert!(open_notch(bar, bar).is_none());
}

#[test]
fn an_offer_marks_the_help_menu() {
    let mut u = UpdateState::default();
    assert_eq!(update_mark(&u), None);
    assert!(!u.available());
    u.current = "1.3.0".to_string();
    u.latest = Some("1.4.0".to_string());
    assert!(u.available());
    assert_eq!(u.latest_or_current(), "1.4.0");
    assert_eq!(update_mark(&u), Some(Tone::Offer));
    u.latest = Some("1.3.0".to_string());
    assert!(!u.available());
    u.latest = None;
    assert_eq!(u.latest_or_current(), "1.3.0");
    u.error = Some("timed out".to_string());
    assert_eq!(update_mark(&u), Some(Tone::Trouble));
    assert_eq!(mark_of(Menu::Help, Some(Tone::Trouble)), Some(Tone::Trouble));
    assert_eq!(mark_of(Menu::Tools, Some(Tone::Trouble)), None);
    assert_eq!(folio_of("Nowhere"), None);
    assert!(Trigger::More.spoken(false).ends_with(" menu"));
}

#[test]
fn without_a_session_no_verb_is_enabled() {
    let update = UpdateState::default();
    let state = BarState {
        session: None,
        update: &update,
        supervisor: false,
        mode: Mode::Night,
        density: Density::Regular,
        reduced_motion: false,
        text_scale: Some(10_000),
        reserve: 0,
    };
    let mut seen = 0;
    for row in session_rows(&state) {
        if let Row::Item(i) = row {
            assert!(!i.enabled(), "{}", i.label);
            assert!(i.blocked.is_some(), "{}", i.label);
            seen += 1;
        }
    }
    assert!(seen > 0);
}
