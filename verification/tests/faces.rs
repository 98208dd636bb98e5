//! Whole figures set from their measures.

use tazamun_gui::balance::{figure_box, scales, side_card, CardLines};
use tazamun_gui::bar::{bar, draw_head, item_body, ruled_line, BarRoom, Ruling};
use tazamun_gui::ceremony::ticket_face;
use tazamun_gui::colophon::{colophon, Part, OFL, PROMISE};
use tazamun_gui::components::notched_points;
use tazamun_gui::constellation::{set_labels, Block, Extent, Named};
use tazamun_gui::controls::sweep_line;
use tazamun_gui::dropzone::overlay_card;
use tazamun_gui::fields::{field_face, search_marks, FieldInk, FieldState, MarkRoom};
use tazamun_gui::geometry::{mid_of, Frame};
use tazamun_gui::headband::{head_look, item_look, Mark, Nav};
use tazamun_gui::health::{sparkline, strike, Strike};
use tazamun_gui::menubar::{BarState, Item, Menu, MenuAction, Tone, Trigger};
use tazamun_gui::model::UpdateState;
use tazamun_gui::register::{blank_len, heading, Align};
use tazamun_gui::theme::{Density, Mode};

fn frame(left: i64, top: i64, right: i64, bottom: i64) -> Frame {
    Frame { left, top, right, bottom }
}

fn room(width: i32) -> BarRoom {
    BarRoom {
        words: [4_000, 3_000, 4_000, 2_500],
        more: 2_000,
        gap: Some(800),
        width,
        height: 4_600,
        buttons: 10_600,
    }
}

fn state(update: &UpdateState) -> BarState<'_> {
    BarState {
        session: None,
        update,
        supervisor: false,
        mode: Mode::Night,
        density: Density::Regular,
        reduced_motion: false,
        text_scale: Some(10_000),
        reserve: 0,
    }
}

#[test]
fn halfway_is_rounded_down() {
    assert_eq!(mid_of(0, 5), 2);
    assert_eq!(mid_of(-5, 0), -3);
    assert_eq!(mid_of(-4, 4), 0);
}

#[test]
fn a_roomy_bar_draws_every_head() {
    let update = UpdateState::default();
    let f = match bar(&state(&update), &room(100_000), 10_000) {
        Some(f) => f,
        None => panic!("no bar"),
    };
    let heads: Vec<(Trigger, i32, bool)> =
        f.heads.iter().map(|h| (h.trigger, h.width, h.first)).collect();
    assert_eq!(
        heads,
        vec![
            (Trigger::Menu(Menu::Session), 6_300, true),
            (Trigger::Menu(Menu::Tools), 5_300, false),
            (Trigger::Menu(Menu::Display), 6_300, false),
            (Trigger::Menu(Menu::Help), 4_800, false)
        ]
    );
    assert!(f.folded.is_empty());
    assert_eq!(f.height, 3_550);
    assert!(f.heads.iter().all(|h| h.mark.is_none()));
}

#[test]
fn a_marked_head_is_the_last_to_fold() {
    let mut update = UpdateState::default();
    update.error = Some("timed out".to_string());
    let f = match bar(&state(&update), &room(10_600 + 12_000), 10_000) {
        Some(f) => f,
        None => panic!("no bar"),
    };
    assert_eq!(f.heads.len(), 2);
    assert_eq!(f.heads[0].trigger, Trigger::Menu(Menu::Help));
    assert_eq!(f.heads[0].mark, Some(Tone::Trouble));
    assert_eq!(f.heads[1].trigger, Trigger::More);
    assert_eq!(f.heads[1].mark, None);
    assert_eq!(f.folded, vec![Menu::Session, Menu::Tools, Menu::Display]);
    assert!(bar(&state(&update), &room(10_700), 10_000).is_none());
    let mut flat = room(100_000);
    flat.height = 0;
    assert!(bar(&state(&update), &flat, 10_000).is_none());
}

#[test]
fn a_head_is_ruled_round_its_word() {
    let strip = frame(0, 500, 6_300, 4_000);
    let title_bar = frame(-20_000, 0, 100_000, 4_600);
    let rest = head_look(false, false, false, false);
    let f = draw_head(strip, title_bar, 4_000, 1_500, rest, 0, 10_000);
    assert_eq!((f.word.left, f.word.top, f.word.right, f.word.bottom), (1_150, 1_500, 5_150, 3_000));
    assert!(f.notch.is_none());
    match f.rules {
        Some((r, ruling)) => {
            assert_eq!((r.cap, r.foot), (1_150, 3_450));
            assert_eq!(ruling, Ruling::Still);
        }
        None => panic!("no rules"),
    }
    assert_eq!(f.mark_x, 5_150 + 400 + 273);
    let half = draw_head(strip, title_bar, 4_000, 1_500, rest, 5_000, 10_000);
    match half.rules {
        Some((_, Ruling::Closing { foot_to, cap_from })) => {
            assert_eq!((foot_to, cap_from), (3_150, 3_150));
        }
        other => panic!("{other:?}"),
    }
    let open = head_look(true, false, false, false);
    let f = draw_head(strip, title_bar, 4_000, 1_500, open, 10_000, 10_000);
    assert_eq!(f.notch.map(|n| (n.top, n.bottom)), Some((4_000, 4_400)));
    match f.rules {
        Some((_, Ruling::Open { sill })) => assert_eq!(sill, 4_450),
        other => panic!("{other:?}"),
    }
    let low = draw_head(frame(0, 0, 6_300, 1_600), title_bar, 4_000, 1_500, rest, 0, 10_000);
    assert!(low.rules.is_none());
}

#[test]
fn a_menu_left_behind_is_shut_once() {
    let nav = Nav { focus_into: None, by_key: Some(7) };
    let (after, shut) = nav.left_behind(7, 70, Some(99), &[71]);
    assert!(shut);
    assert_eq!(after.by_key, None);
    let (after, shut) = after.left_behind(7, 70, Some(99), &[71]);
    assert!(!shut);
    assert_eq!(after.by_key, None);
    let (same, shut) = nav.left_behind(7, 70, Some(71), &[71]);
    assert!(!shut);
    assert_eq!(same.by_key, Some(7));
}

#[test]
fn a_line_is_ruled_between_its_ends() {
    let l = ruled_line(1_000, 4_000, 30_000, Some(2_000));
    assert_eq!((l.tail_x, l.from, l.to), (27_200, 5_800, 26_400));
    let l = ruled_line(1_000, 4_000, 30_000, None);
    assert_eq!((l.tail_x, l.from, l.to), (29_200, 5_800, 29_200));
}

#[test]
fn an_entry_is_set_behind_its_margin() {
    let mut item = Item {
        label: "Night".to_string(),
        action: MenuAction::Palette(Mode::Night),
        chord: None,
        blocked: None,
        choice: Some(true),
    };
    let rect = frame(0, 0, 30_000, 2_800);
    let f = item_body(rect, item_look(&item, true, false, false), 10_000);
    assert_eq!((f.text_x, f.chord_x, f.mid, f.foot), (2_050, 29_200, 1_400, 2_850));
    assert_eq!((f.mark_x, f.swell_x), (Some(625), Some(1_250)));
    item.choice = None;
    let look = item_look(&item, true, true, false);
    assert_eq!(look.mark, Mark::Absent);
    let f = item_body(rect, look, 10_000);
    assert_eq!((f.mark_x, f.swell_x), (None, None));
}

#[test]
fn a_field_grows_its_rule_from_the_middle() {
    let rect = frame(0, 0, 22_000, 3_475);
    let bare = MarkRoom { lead: 0, trail: 0 };
    let f = field_face(rect, bare, FieldState::Valid, 0);
    assert_eq!(f.grown, None);
    assert_eq!(f.rule_y, 3_175);
    assert_eq!((f.inner.left, f.inner.right), (1_000, 21_000));
    assert_eq!(f.look.accent, FieldInk::Good);
    assert_eq!(field_face(rect, bare, FieldState::Valid, 5_000).grown, Some((6_000, 16_000)));
    assert_eq!(field_face(rect, bare, FieldState::Valid, 10_000).grown, Some((1_000, 21_000)));
    let narrow = frame(0, 0, 1_500, 3_475);
    assert_eq!(field_face(narrow, bare, FieldState::Valid, 10_000).grown, None);
}

#[test]
fn a_search_field_clears_only_what_it_holds() {
    let rect = frame(0, 0, 22_000, 3_475);
    let m = search_marks(rect, true, 10_000);
    assert_eq!((m.glass.x, m.glass.y), (1_425, 1_737 - 140));
    assert!(m.clear.is_none());
    match search_marks(rect, false, 10_000).clear {
        Some(c) => assert_eq!((c.left, c.top, c.right, c.bottom), (19_975, 925, 21_600, 2_550)),
        None => panic!("no mark"),
    }
}

#[test]
fn a_sweep_runs_along_the_foot() {
    let body = frame(0, 0, 10_800, 2_850);
    assert_eq!(sweep_line(body, 0), None);
    assert_eq!(sweep_line(body, 5_000), Some((400, 5_400)));
    assert_eq!(sweep_line(body, 10_000), Some((400, 10_400)));
    assert_eq!(sweep_line(frame(0, 0, 800, 2_850), 10_000), None);
}

#[test]
fn the_scales_are_as_tall_as_their_taller_card() {
    let short = CardLines {
        title_h: 1_900,
        size_w: 3_000,
        size_h: 1_700,
        when_h: 1_750,
        note_h: 1_700,
        weight_w: 3_000,
    };
    let tall = CardLines { note_h: 5_100, ..short };
    let b = figure_box(60_000);
    assert_eq!((b.w, b.card_w, b.wrap), (60_000, 28_200, 25_800));
    assert_eq!(figure_box(0).w, 28_000);
    let f = scales(60_000, &short, &tall, 10_000);
    let g = scales(60_000, &tall, &short, 10_000);
    assert_eq!(f, g);
    assert_eq!(f.height - f.apparatus, 800 + 1_900 + 400 + 1_750 + 400 + 5_100 + 800);
    assert_eq!((f.left_x, f.right_x), (1_200, 30_600));
    assert_eq!(f.half, 20_000);
    assert_eq!(scales(0, &short, &short, 10_000).half, 7_000);
}

#[test]
fn a_card_is_walked_from_top_to_bottom() {
    let lines = CardLines {
        title_h: 1_900,
        size_w: 3_000,
        size_h: 1_700,
        when_h: 1_750,
        note_h: 1_700,
        weight_w: 3_000,
    };
    let w = side_card(0, 0, &lines, true, true);
    assert_eq!((w.x, w.title_y, w.meta_y, w.note_y), (1_200, 800, 3_100, 5_250));
    assert_eq!(w.diamond.map(|d| (d.x, d.y)), Some((5_000, 3_975)));
    assert_eq!(w.when_x, 5_800);
    let w = side_card(0, 0, &lines, false, true);
    assert_eq!(w.when_x, 1_200);
    assert!(w.diamond.is_none());
    let w = side_card(0, 0, &lines, true, false);
    assert_eq!(w.when_x, 5_000);
}

#[test]
fn a_heading_carries_the_mark_of_its_sort() {
    let cell = frame(0, 0, 20_000, 2_000);
    let h = heading(cell, 4_000, 1_400, Align::Left, Some(true));
    assert_eq!((h.text.left, h.text.top, h.text.right, h.text.bottom), (0, 300, 4_000, 1_700));
    assert_eq!((h.hit.left, h.hit.top, h.hit.right, h.hit.bottom), (-800, -100, 4_800, 2_100));
    assert_eq!(h.under, 1_850);
    assert_eq!(h.mark.map(|m| (m.x, m.y)), Some((4_400, 1_250)));
    let h = heading(cell, 4_000, 1_400, Align::Right, Some(false));
    assert_eq!(h.text.left, 16_000);
    assert_eq!(h.mark.map(|m| (m.x, m.y)), Some((15_600, 750)));
    assert!(heading(cell, 4_000, 1_400, Align::Right, None).mark.is_none());
    assert_eq!(blank_len(800), None);
    assert_eq!(blank_len(10_000), Some(6_200));
}

#[test]
fn a_plot_runs_from_side_to_side() {
    let cell = frame(0, 0, 9_000, 2_600);
    let pts = match sparkline(cell, &[Some(0), Some(5_000), None, Some(10_000)]) {
        Some(p) => p,
        None => panic!("nothing plotted"),
    };
    let xy: Vec<(i64, i64)> = pts.iter().map(|p| (p.x, p.y)).collect();
    assert_eq!(xy, vec![(0, 2_300), (3_000, 1_300), (6_000, 2_300), (9_000, 300)]);
    assert!(sparkline(cell, &[Some(0)]).is_none());
    assert!(sparkline(frame(0, 0, 9_000, 600), &[Some(0), Some(1)]).is_none());
    assert_eq!(strike(0), Strike::Empty);
    assert_eq!(strike(1), Strike::Pip);
    assert_eq!(strike(2), Strike::Lozenge);
    assert_eq!(strike(3), Strike::Whole);
    assert_eq!(strike(200), Strike::Whole);
}

#[test]
fn a_ticket_keeps_its_code_on_the_stub() {
    let rect = frame(0, 0, 60_000, 11_800);
    let f = ticket_face(rect, true);
    assert_eq!(f.perf_x, 49_200);
    assert_eq!((f.mark.x, f.mark.y), (1_900, 1_900));
    assert_eq!((f.text.x, f.text.y), (3_000, 1_200));
    assert_eq!((f.stub.x, f.stub.y), (54_600, 5_900));
    assert_eq!(f.qr, Some(8_800));
    assert_eq!(ticket_face(rect, false).qr, None);
    assert_eq!(ticket_face(frame(0, 0, 60_000, 6_600), true).qr, Some(4_600));
}

#[test]
fn the_overlay_sits_in_the_middle() {
    let c = overlay_card(frame(0, 0, 100_000, 60_000), 20_000, 2_000, 10_000, 1_400);
    assert_eq!((c.card.left, c.card.right), (38_200, 61_800));
    assert_eq!((c.card.top, c.card.bottom), (26_650, 33_350));
    assert_eq!((c.title.x, c.title.y), (40_000, 28_050));
    assert_eq!((c.hint.x, c.hint.y), (45_000, 30_550));
}

#[test]
fn a_notched_block_keeps_inside_its_frame() {
    let rect = frame(0, 0, 10_000, 900);
    let pts = notched_points(rect);
    let xy: Vec<(i64, i64)> = pts.iter().map(|p| (p.x, p.y)).collect();
    assert_eq!(xy, vec![(0, 0), (9_100, 0), (10_000, 900), (10_000, 900), (0, 900)]);
    assert!(pts.iter().all(|p| rect.contains(*p)));
}

#[test]
fn the_colophon_names_its_version_and_closes_on_its_promise() {
    let parts = colophon("1.4.0");
    assert_eq!(parts.len(), 18);
    assert!(matches!(parts[0], Part::Wordmark));
    match &parts[4] {
        Part::Leader(key, value) => assert_eq!((*key, value.as_str()), ("version", "1.4.0")),
        other => panic!("{other:?}"),
    }
    let faces = parts
        .iter()
        .filter(|p| matches!(p, Part::Leader(_, v) if v.as_str() == OFL))
        .count();
    assert_eq!(faces, 4);
    assert!(matches!(parts[17], Part::Text(t) if t == PROMISE));
}

#[test]
fn labels_are_set_in_the_order_of_their_stars() {
    let canvas = Block { left: 0, top: 0, right: 60_000, bottom: 60_000 };
    let you = Block { left: 29_000, top: 31_000, right: 31_000, bottom: 32_500 };
    let name = Extent { w: 4_000, h: 1_500 };
    let sub = Extent { w: 3_000, h: 1_200 };
    let star = |x: i32, y: i32, local: u32| Named { x, y, star_r: 500, local, name, sub };
    let named = [
        star(10_000, 10_000, 10_000),
        star(10_500, 10_200, 10_000),
        star(40_000, 10_000, 1_500),
        star(40_000, 10_000, 1_501),
    ];
    let ring = Block { left: 8_000, top: 11_000, right: 9_000, bottom: 12_000 };
    let free = Block { left: 50_000, top: 50_000, right: 51_000, bottom: 51_000 };
    let set = set_labels(&canvas, you, None, &named, &[ring, free]);
    let kept: Vec<bool> = set.stars.iter().map(|l| l.is_some()).collect();
    assert_eq!(kept, vec![true, false, false, true]);
    assert_eq!(set.rings, vec![false, true]);
    match set.stars[0] {
        Some(l) => {
            assert_eq!((l.block.left, l.block.right), (8_000, 12_000));
            assert_eq!((l.block.top, l.block.bottom), (10_900, 13_700));
        }
        None => panic!("no label"),
    }
}
