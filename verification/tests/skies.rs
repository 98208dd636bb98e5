//! The sky as one frame, and the marks beside a peer.

use tazamun_gui::constellation::{
    accept_labels, announced, class_key, desired_height, ease_out, fnv1a64, heading, hit_at,
    hit_radius, house_grade, label_at, local_t, mix64, order_stars, place, pointed_at, sky,
    sky_labels, star_cursor, star_radius, sub_text, thread_of, Band, Block, Extent, Orbit, Star,
    Target, Thread, Walk, STAR_OFFLINE,
};
use tazamun_gui::health::{grade_lit, level};
use tazamun_gui::marginalia::{brace_paths, revealed, Reveal, Run};
use tazamun_gui::order::{ascending, entry_less, lex_less, Entry};

fn star<'a>(id: &'a str, name: &'a str, rtt: Option<u32>, online: bool) -> Star<'a> {
    Star { id, name, rtt_ms: rtt, relayed: false, online, grade: None }
}

fn block(left: i32, top: i32, right: i32, bottom: i32) -> Block {
    Block { left, top, right, bottom }
}

#[test]
fn a_sky_is_placed_walked_and_spoken_at_once() {
    let stars = [star("b", "Bahr", Some(20), true), star("a", "Amal", None, false)];
    let still = Walk { fwd: false, back: false, first: false, last: false };
    let s = sky(&stars, Some(20_000), Some(1_500), 400, true, None, still);
    assert!(s.band.is_some());
    assert_eq!(s.placed.len(), 2);
    assert_eq!(s.overflow, 0);
    assert_eq!(s.placed[0].idx, 0);
    assert!(matches!(s.placed[0].orbit, Orbit::Measured(20)));
    assert!(matches!(s.placed[1].orbit, Orbit::Rim));
    assert_eq!(s.cursor, None);
    assert!(s.spoken.starts_with("peer mesh"), "{}", s.spoken);
    let step = Walk { fwd: true, back: false, first: false, last: false };
    let s = sky(&stars, Some(20_000), Some(1_500), 400, true, None, step);
    assert_eq!(s.cursor, Some(0));
    assert!(s.spoken.starts_with("Bahr"), "{}", s.spoken);
    let s = sky(&stars, Some(20_000), Some(1_500), 400, true, Some(0), step);
    assert_eq!(s.cursor, Some(1));
    assert!(s.spoken.starts_with("Amal") && s.spoken.contains(STAR_OFFLINE), "{}", s.spoken);
    let s = sky(&stars, Some(20_000), Some(1_500), 400, false, Some(0), step);
    assert_eq!(s.cursor, None);
    let s = sky(&stars, None, Some(1_500), 400, false, None, still);
    assert!(s.band.is_none());
}

#[test]
fn the_reached_peer_comes_before_the_lost_one() {
    let stars = [star("a", "", None, false), star("z", "", Some(5), true)];
    assert!(class_key(&stars[1]).0 < class_key(&stars[0]).0);
    assert_eq!(order_stars(&stars), (vec![1, 0], 0));
}

#[test]
fn a_thread_is_taut_broken_or_absent() {
    let mut s = star("a", "Amal", Some(20), true);
    assert_eq!(thread_of(&s), Thread::Taut);
    s.relayed = true;
    assert_eq!(thread_of(&s), Thread::Broken);
    s.online = false;
    assert_eq!(thread_of(&s), Thread::Absent);
}

#[test]
fn the_pointer_outranks_the_cursor() {
    let stars = [star("a", "Amal", Some(20), true), star("b", "Bahr", Some(200), true)];
    let (placed, _) = place(&stars);
    assert_eq!(pointed_at(&placed, Some(1), Some(0)), Some(placed[1].idx));
    assert_eq!(pointed_at(&placed, None, Some(0)), Some(placed[0].idx));
    assert_eq!(pointed_at(&placed, Some(9), Some(0)), None);
    assert_eq!(pointed_at(&placed, None, None), None);
    assert!(announced(&stars, &placed, None).starts_with("peer mesh"));
    let one = announced(&stars, &placed, Some(0));
    assert!(one.starts_with(stars[placed[0].idx].name), "{one}");
    assert!(announced(&stars, &placed, Some(9)).starts_with("peer mesh"));
}

#[test]
fn the_cursor_is_lost_with_the_focus() {
    assert_eq!(star_cursor(true, Some(1), 3, true, false, false, false), Some(2));
    assert_eq!(star_cursor(true, Some(0), 3, false, true, false, false), None);
    assert_eq!(star_cursor(true, Some(2), 3, true, false, false, false), Some(2));
    assert_eq!(star_cursor(true, Some(9), 3, false, true, false, false), Some(1));
    assert_eq!(star_cursor(false, Some(1), 3, true, false, false, false), None);
    assert_eq!(star_cursor(true, None, 0, true, false, false, false), None);
}

#[test]
fn the_nearest_star_under_the_pointer_is_hit() {
    let ts = [
        Target { dx: 0, dy: 0, star_r: 400, shown: true },
        Target { dx: 1_000, dy: 0, star_r: 400, shown: true },
        Target { dx: 1_000, dy: 0, star_r: 400, shown: false },
    ];
    assert_eq!(hit_at(&ts, 200, 0), Some(0));
    assert_eq!(hit_at(&ts, 900, 0), Some(1));
    assert_eq!(hit_at(&ts, 90_000, 0), None);
    assert_eq!(hit_at(&[], 0, 0), None);
    assert!(hit_radius(400) >= 400);
}

#[test]
fn a_label_is_held_inside_the_sky() {
    let canvas = block(0, 0, 40_000, 30_000);
    let name = Extent { w: 4_000, h: 1_500 };
    let sub = Extent { w: 6_000, h: 1_200 };
    match label_at(&canvas, 20_000, 10_000, 400, name, sub) {
        Some(at) => {
            assert_eq!((at.block.left, at.block.right), (17_000, 23_000));
            assert_eq!(at.name_x, 18_000);
            assert_eq!(at.sub_x, 17_000);
            assert_eq!(at.sub_y, at.block.top as i64 + 1_600);
        }
        None => panic!("no label"),
    }
    match label_at(&canvas, 0, 10_000, 400, name, sub) {
        Some(at) => assert_eq!((at.block.left, at.block.right), (200, 6_200)),
        None => panic!("no label"),
    }
    assert!(label_at(&block(0, 0, 6_400, 30_000), 0, 0, 400, name, sub).is_none());
}

#[test]
fn the_later_label_yields() {
    let you = block(0, 0, 1_000, 1_000);
    let clash = block(500, 500, 1_500, 1_500);
    let clear = block(5_000, 5_000, 6_000, 6_000);
    assert_eq!(sky_labels(you, None, &[clash, clear], &[]), vec![true, false, true]);
    assert_eq!(
        accept_labels(&[Some(you), Some(clash), None, Some(clear)], 2),
        vec![true, true, false, true]
    );
}

#[test]
fn headings_come_from_the_id_alone() {
    assert_eq!(fnv1a64(b""), 0xcbf2_9ce4_8422_2325);
    assert_eq!(fnv1a64(b"a"), 0xaf63_dc4c_8601_ec8c);
    assert_eq!(fnv1a64(b"foobar"), 0x8594_4171_f739_67e8);
    assert_eq!(mix64(0), 0);
    assert_eq!(heading("peer"), heading("peer"));
    assert!(heading("peer") < 1 << 53);
}

#[test]
fn a_ring_grows_from_the_centre_outward() {
    assert_eq!(ease_out(0), 0);
    assert_eq!(ease_out(10_000), 10_000);
    assert_eq!(ease_out(5_000), 7_500);
    assert_eq!(local_t(10_000, 10_000), 10_000);
    assert_eq!(local_t(0, 0), 0);
    assert!(local_t(5_000, 0) >= local_t(5_000, 9_000));
    let band = Band { centre_r: 500, r_min: 1_000, r_meas: 9_000, r_rim: 10_000 };
    assert_eq!(band.radius_of_frac(0), 1_000);
    assert_eq!(band.radius_of_frac(5_000), 5_000);
    assert_eq!(band.radius_of_frac(10_000), 9_000);
}

#[test]
fn a_star_is_lit_by_its_grade() {
    assert!(star_radius(3) > star_radius(0));
    assert_eq!(house_grade("Good"), Some("Good"));
    assert_eq!(house_grade("splendid"), None);
    assert_eq!(grade_lit("Fair"), 2);
    assert_eq!(grade_lit("splendid"), 0);
    assert!(desired_height(Some(90_000), 12) >= desired_height(Some(90_000), 1));
    assert_eq!(sub_text(&star("a", "Amal", Some(20), false)), STAR_OFFLINE);
    assert_eq!(level(Some(-4)), 0);
    assert_eq!(level(Some(20_000)), 10_000);
    assert_eq!(level(Some(1_234)), 1_234);
    assert_eq!(level(None), 0);
}

#[test]
fn a_brace_too_short_to_draw_is_not_drawn() {
    let run = Run { top: Some(0), bottom: Some(799) };
    assert!(brace_paths(Some(1_000), &run, Some(10_000)).is_none());
    let run = Run { top: Some(0), bottom: Some(8_000) };
    match brace_paths(Some(1_000), &run, Some(10_000)) {
        Some(b) => {
            assert_eq!(b.mid, 4_000);
            assert_eq!(b.half, 4_000);
        }
        None => panic!("no brace"),
    }
    assert!(brace_paths(None, &run, Some(10_000)).is_none());
    assert!(matches!(revealed(&[100, 100], Some(0)), Reveal::Nothing));
    assert!(matches!(revealed(&[100, 100], Some(10_000)), Reveal::Whole));
    match revealed(&[100, 300], Some(5_000)) {
        Reveal::Upto { whole, into, of } => {
            assert_eq!(whole, 1);
            assert_eq!(into * 3, of);
        }
        other => panic!("{other:?}"),
    }
}

#[test]
fn names_are_ordered_before_their_ties() {
    let a: Vec<char> = "alpha".chars().collect();
    let b: Vec<char> = "beta".chars().collect();
    assert!(lex_less(&a, &b));
    assert!(!lex_less(&b, &a));
    assert!(!lex_less(&a, &a));
    assert!(lex_less(&[], &a));
    let e = |rank: u64, name: &Vec<char>, tie: &Vec<char>| Entry {
        rank,
        name: name.clone(),
        tie: tie.clone(),
    };
    assert!(entry_less(&e(0, &b, &b), &e(1, &a, &a)));
    assert!(entry_less(&e(1, &a, &b), &e(1, &b, &a)));
    assert!(entry_less(&e(1, &a, &a), &e(1, &a, &b)));
    let es = vec![e(1, &a, &a), e(0, &b, &b), e(0, &b, &a)];
    assert_eq!(ascending(&es), vec![2, 1, 0]);
}
