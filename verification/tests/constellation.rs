//! The peers as a sky of stars.

use tazamun_gui::constellation::{
    elide, grade_of, place, sky_sentence, star_phrase, step_cursor, Band, Block, Orbit, Star, Target,
    LABEL_MAX_CHARS, MAX_STARS, PATH_DIRECT,
};
use tazamun_gui::theme::{SPACE_S, STEP_META};

const MIN_SKY_R: f32 = tazamun_gui::constellation::MIN_SKY_R as f32 / 100.0;

fn hundredths(v: f32) -> Option<i32> {
    if v.is_finite() {
        Some((v * 100.0).round() as i32)
    } else {
        None
    }
}

fn points(v: i64) -> f32 {
    v as f32 / 100.0
}

fn angle_of(id: &str) -> f32 {
    let unit = tazamun_gui::constellation::heading(id) as f64 / (1u64 << 53) as f64;
    ((unit * std::f64::consts::TAU) as f32).rem_euclid(std::f32::consts::TAU)
}

fn band_for(avail: f32, label_h: f32) -> Option<Band> {
    tazamun_gui::constellation::band_for(hundredths(avail), hundredths(label_h), SPACE_S)
}

fn star_radius(lit: u8) -> f32 {
    points(i64::from(tazamun_gui::constellation::star_radius(lit)))
}

fn hit_radius(star_r: f32) -> f32 {
    points(tazamun_gui::constellation::hit_radius(hundredths(star_r).unwrap()))
}

fn hit_at(targets: &[Target], x: f32, y: f32) -> Option<usize> {
    tazamun_gui::constellation::hit_at(targets, hundredths(x).unwrap(), hundredths(y).unwrap())
}

fn accept_labels(blocks: &[Option<Block>], preaccepted: usize) -> Vec<bool> {
    tazamun_gui::constellation::accept_labels(blocks, preaccepted)
}

fn desired_height(width: f32, peers: usize) -> f32 {
    points(i64::from(tazamun_gui::constellation::desired_height(hundredths(width), peers)))
}

fn ease_out(t: f32) -> f32 {
    tazamun_gui::constellation::ease_out((t * 10_000.0) as u32) as f32 / 10_000.0
}

fn local_t(ease: f32, frac: f32) -> f32 {
    let r = tazamun_gui::constellation::local_t((ease * 10_000.0) as u32, (frac * 10_000.0) as u32);
    r as f32 / 10_000.0
}

fn block(x: f32) -> Option<Block> {
    let left = hundredths(x)?;
    Some(Block { left, top: 0, right: left + 3_000, bottom: 1_000 })
}

fn approx(a: f32, b: f32) -> bool {
    (a - b).abs() < 1e-3
}

fn s<'a>(id: &'a str, rtt: Option<u32>, relayed: bool, online: bool) -> Star<'a> {
    Star {
        id,
        name: id,
        rtt_ms: rtt,
        relayed,
        online,
        grade: None,
    }
}

#[test]
fn angle_is_deterministic_and_distinct() {
    assert_eq!(angle_of("alice").to_bits(), angle_of("alice").to_bits());
    assert!(!approx(angle_of("alice"), angle_of("bob")));
}

#[test]
fn angle_is_always_in_range() {
    for id in ["", "a", "peer-00", "محطة", "a-very-long-peer-identifier"] {
        let a = angle_of(id);
        assert!((0.0..std::f32::consts::TAU).contains(&a), "{id}: {a}");
    }
}

#[test]
fn angles_spread_across_the_sky() {
    let mut buckets = [0usize; 8];
    for i in 0..32 {
        let a = angle_of(&format!("peer-{i:02}"));
        let b = ((a / std::f32::consts::TAU) * 8.0) as usize;
        buckets[b.min(7)] += 1;
    }
    let occupied = buckets.iter().filter(|&&c| c > 0).count();
    assert!(occupied >= 6, "sky clumped: {buckets:?}");
    assert!(
        buckets.iter().all(|&c| c <= 10),
        "octant overloaded: {buckets:?}"
    );
}

#[test]
fn caller_grade_wins_for_a_lit_star_but_never_for_an_unlit_one() {
    let mut lit = s("peer-a", Some(5), false, true);
    lit.grade = Some("Poor");
    let (placed, _) = place(&[lit]);
    assert_eq!(placed[0].grade, "Poor", "daemon grade wins when lit");

    let mut unlit = s("peer-a", None, false, false);
    unlit.grade = Some("Good");
    let (placed, _) = place(&[unlit]);
    assert_eq!(placed[0].grade, "Offline");

    let mut odd = s("peer-a", Some(5), false, true);
    odd.grade = Some("Excellent");
    let (placed, _) = place(&[odd]);
    assert_eq!(placed[0].grade, "Good");
}

#[test]
fn grade_matches_the_house_vocabulary() {
    assert_eq!(grade_of(true, false, Some(5)), "Good");
    assert_eq!(grade_of(true, false, Some(79)), "Good");
    assert_eq!(grade_of(true, false, Some(80)), "Fair");
    assert_eq!(grade_of(true, true, Some(5)), "Fair");
    assert_eq!(grade_of(true, false, Some(299)), "Fair");
    assert_eq!(grade_of(true, false, Some(300)), "Poor");
    assert_eq!(grade_of(true, true, Some(300)), "Poor");
    assert_eq!(grade_of(true, false, Some(u32::MAX)), "Poor");
    assert_eq!(grade_of(true, false, None), "Fair");
    assert_eq!(grade_of(false, false, None), "Offline");
}

#[test]
fn offline_star_never_shows_a_live_rtt() {
    assert_eq!(grade_of(false, false, Some(5)), "Offline");
    let (placed, _) = place(&[s("ghost", Some(5), false, false)]);
    assert_eq!(placed[0].orbit, Orbit::Rim, "must sit on the rim, not at the stale rtt");
}

#[test]
fn place_orders_measured_before_unmeasured_before_offline() {
    let stars = [
        s("a", None, false, false),
        s("b", None, false, true),
        s("c", Some(10), false, true),
    ];
    let (placed, overflow) = place(&stars);
    assert_eq!(overflow, 0);
    let idxs: Vec<usize> = placed.iter().map(|g| g.idx).collect();
    assert_eq!(idxs, vec![2, 1, 0]);
}

#[test]
fn place_caps_at_max_stars_and_reports_overflow() {
    let ids: Vec<String> = (0..30).map(|i| format!("s-{i:02}")).collect();
    let stars: Vec<Star<'_>> = ids.iter().map(|id| s(id, Some(20), false, true)).collect();
    let (placed, overflow) = place(&stars);
    assert_eq!(placed.len(), MAX_STARS);
    assert_eq!(overflow, 6);
    let kept: Vec<&str> = placed.iter().map(|g| stars[g.idx].id).collect();
    let expected: Vec<&str> = ids.iter().take(MAX_STARS).map(String::as_str).collect();
    assert_eq!(kept, expected);
}

#[test]
fn place_is_deterministic_under_input_permutation() {
    let ids: Vec<String> = (0..10).map(|i| format!("peer-{i:02}")).collect();
    let fwd: Vec<Star<'_>> = ids.iter().map(|id| s(id, Some(25), false, true)).collect();
    let mut rev = fwd.clone();
    rev.reverse();
    let (pa, _) = place(&fwd);
    let (pb, _) = place(&rev);
    for (ga, gb) in pa.iter().zip(&pb) {
        assert_eq!(fwd[ga.idx].id, rev[gb.idx].id);
        assert_eq!(ga.heading, gb.heading);
        assert_eq!(ga.orbit, gb.orbit);
    }
}

#[test]
fn rim_holds_unmeasured_and_offline() {
    for star in [s("p", None, false, true), s("p", None, false, false)] {
        let (placed, _) = place(&[star]);
        assert_eq!(placed[0].orbit, Orbit::Rim);
    }
}

fn label_h(scale: f32) -> f32 {
    STEP_META as f32 / 100.0 * scale * 1.5
}

#[test]
fn band_rejects_tiny_and_non_finite() {
    assert!(band_for(f32::NAN, label_h(1.0)).is_none());
    assert!(band_for(f32::INFINITY, label_h(1.0)).is_none());
    assert!(band_for(-10.0, label_h(1.0)).is_none());
    assert!(band_for(MIN_SKY_R - 1.0, label_h(1.0)).is_none());
    assert!(band_for(MIN_SKY_R, label_h(1.0)).is_some());
    assert!(band_for(200.0, f32::NAN).is_none());
    assert!(band_for(200.0, f32::INFINITY).is_none());
}

#[test]
fn band_orders_radii() {
    let b = band_for(200.0, label_h(1.0)).unwrap();
    assert!(b.centre_r < b.r_min);
    assert!(b.r_min < b.r_meas);
    assert!(b.r_meas < b.r_rim);
    assert!(b.radius_of_frac(0) == b.r_min);
    assert!(b.radius_of_frac(10_000) == b.r_meas);
    assert!(b.radius_of_frac(90_000) == b.r_meas, "frac clamps");
}

fn star_at(dx: i32) -> Target {
    Target { dx, dy: 0, star_r: 700, shown: true }
}

#[test]
fn hit_finds_nearest_within_reach() {
    let placed = [star_at(5000), star_at(10000)];
    assert_eq!(hit_at(&placed, 52.0, 1.0), Some(0));
    assert_eq!(hit_at(&placed, 111.0, 0.0), Some(1));
    let stacked = [star_at(0), star_at(0)];
    assert_eq!(hit_at(&stacked, 3.0, 0.0), Some(0));
}

#[test]
fn hit_misses_outside_reach() {
    let placed = [star_at(5000), star_at(10000)];
    assert_eq!(hit_at(&placed, 76.0, 0.0), None);
    let empty: [Target; 0] = [];
    assert_eq!(hit_at(&empty, 0.0, 0.0), None);
}

#[test]
fn hit_radius_floors_small_stars() {
    assert!(approx(hit_radius(star_radius(0)), 9.0));
    assert!(approx(hit_radius(star_radius(3)), 13.8));
}

#[test]
fn accept_labels_keeps_first_drops_overlappers() {
    let got = accept_labels(&[block(0.0), block(28.0), block(56.0)], 0);
    assert_eq!(got, vec![true, false, true]);
    let apart = accept_labels(&[block(0.0), block(100.0)], 0);
    assert_eq!(apart, vec![true, true]);
}

#[test]
fn accept_labels_preaccepted_always_win() {
    let got = accept_labels(&[block(0.0), block(10.0), block(20.0)], 2);
    assert_eq!(got, vec![true, true, false]);
}

/// A label stays where it keeps the clearance, and goes where it does not.
#[test]
fn accept_labels_wants_the_clearance_once() {
    assert_eq!(accept_labels(&[block(0.0), block(32.0)], 0), vec![true, false]);
    assert_eq!(accept_labels(&[block(0.0), block(32.5)], 0), vec![true, true]);
}

#[test]
fn accept_labels_rejects_non_finite() {
    let bad = block(f32::NAN);
    let ok = block(0.0);
    assert_eq!(accept_labels(&[bad, ok], 1), vec![false, true]);
}

#[test]
fn elide_keeps_short_and_trims_long() {
    assert_eq!(elide("laptop"), "laptop");
    assert_eq!(elide("workstation-of-hassan"), "workstation-o…");
    assert_eq!(elide("workstation-o…").chars().count(), LABEL_MAX_CHARS);
    let arabic = elide("محطة-العمل-الرئيسية");
    assert_eq!(arabic.chars().count(), LABEL_MAX_CHARS);
    assert!(arabic.ends_with('…'));
}

#[test]
fn desired_height_for_zero_one_many_huge() {
    assert!(approx(desired_height(600.0, 0), 150.0));
    assert!(approx(desired_height(2000.0, 0), 150.0));
    assert!(approx(desired_height(300.0, 0), 150.0));
    assert!(
        approx(desired_height(300.0, 1), 234.0),
        "one peer still gets a readable figure"
    );
    assert!(approx(desired_height(2000.0, 24), 480.0), "capped");
    assert!(
        desired_height(2000.0, usize::MAX) <= 480.0,
        "the cap holds for any crowd"
    );
    assert!(desired_height(300.0, 0) <= desired_height(300.0, 1));
    assert!(desired_height(300.0, 1) <= desired_height(300.0, 24));
    assert!(desired_height(2000.0, 1) <= desired_height(2000.0, 24));
}

#[test]
fn desired_height_guards_non_finite_width() {
    assert!(approx(desired_height(f32::NAN, 0), 150.0));
    assert!(approx(desired_height(f32::INFINITY, 3), 242.0));
    assert!(approx(desired_height(-5.0, 0), 150.0));
    assert!(desired_height(f32::NAN, 7).is_finite());
}

#[test]
fn local_t_bounds_and_stagger() {
    assert!(approx(ease_out(0.0), 0.0));
    assert!(approx(ease_out(1.0), 1.0));
    assert!(approx(ease_out(0.5), 0.75));
    assert!(approx(local_t(1.0, 0.0), 1.0));
    assert!(approx(local_t(1.0, 1.0), 1.0), "all revealed by the end");
    assert!(approx(local_t(0.0, 0.5), 0.0));
    assert!(local_t(0.5, 0.0) > local_t(0.5, 1.0), "inner stars first");
}

#[test]
fn the_innermost_orbit_clears_the_centre_and_its_label() {
    for scale in (14..=44).map(|k| k as f32 / 20.0) {
        let label = label_h(scale);
        for avail in [40.0f32, 80.0, 200.0, 600.0] {
            let Some(b) = band_for(avail, label) else {
                continue;
            };
            let nearest = points(b.radius_of_frac(0));
            assert!(
                nearest - star_radius(3) > points(b.centre_r) + label,
                "a 0 ms peer overlaps the centre at avail={avail}, scale={scale}"
            );
        }
    }
}

#[test]
fn a_sky_with_no_room_for_the_label_is_refused_outright() {
    assert!(band_for(MIN_SKY_R, label_h(2.2)).is_none());
    assert!(band_for(600.0, label_h(2.2)).is_some());
}

#[test]
fn star_radius_grows_with_lit_and_caps() {
    assert!(approx(star_radius(0), 4.0));
    assert!(star_radius(0) < star_radius(1));
    assert!(star_radius(1) < star_radius(2));
    assert!(star_radius(2) < star_radius(3));
    assert!(approx(star_radius(3), star_radius(9)), "lit caps at 3");
}

fn named<'a>(
    id: &'a str,
    name: &'a str,
    rtt: Option<u32>,
    relayed: bool,
    online: bool,
) -> Star<'a> {
    Star {
        id,
        name,
        rtt_ms: rtt,
        relayed,
        online,
        grade: None,
    }
}

#[test]
fn the_sky_announces_one_sentence_naming_every_star() {
    let stars = [
        named("a", "laptop", Some(12), false, true),
        named("b", "phone", Some(240), true, true),
        named("c", "desk", None, false, false),
    ];
    assert_eq!(
        sky_sentence(&stars),
        "peer mesh, 3 peers: laptop direct 12 milliseconds, \
         phone relayed 240 milliseconds, desk offline"
    );
}

#[test]
fn a_sky_of_one_says_it_is_empty_in_the_words_it_paints() {
    assert_eq!(sky_sentence(&[]), "peer mesh: no peers yet");
}

#[test]
fn one_peer_is_a_peer_not_peers() {
    let stars = [named("a", "laptop", Some(1), false, true)];
    assert_eq!(
        sky_sentence(&stars),
        "peer mesh, 1 peer: laptop direct 1 millisecond"
    );
}

#[test]
fn an_offline_star_is_offline_and_carries_no_stale_round_trip() {
    let stale = named("ghost", "desk", Some(5), false, false);
    assert_eq!(star_phrase(&stale), "desk offline");
    assert!(!star_phrase(&stale).contains('5'));
    assert!(!star_phrase(&stale).contains(PATH_DIRECT));
    let relayed = named("ghost", "desk", Some(400), true, false);
    assert_eq!(star_phrase(&relayed), "desk offline");
}

#[test]
fn an_unmeasured_star_says_so_rather_than_guessing() {
    let star = named("a", "tablet", None, false, true);
    assert_eq!(star_phrase(&star), "tablet direct round-trip unmeasured");
    let relayed = named("a", "tablet", None, true, true);
    assert_eq!(
        star_phrase(&relayed),
        "tablet relayed round-trip unmeasured"
    );
}

#[test]
fn the_units_are_spelled_out_for_a_reader() {
    let said = star_phrase(&named("a", "laptop", Some(12), false, true));
    assert!(said.ends_with("12 milliseconds"), "{said}");
    assert!(!said.contains(" ms"), "{said}");
}

#[test]
fn a_star_with_no_name_falls_back_to_its_id_then_to_a_word() {
    assert_eq!(
        star_phrase(&named("peer-7f2a", "", Some(9), false, true)),
        "peer-7f2a direct 9 milliseconds"
    );
    assert_eq!(
        star_phrase(&named("  ", "  ", None, false, false)),
        "unnamed peer offline"
    );
}

#[test]
fn the_sentence_names_the_stars_in_the_order_the_sky_draws_them() {
    let stars = [
        named("c", "desk", None, false, false),
        named("b", "tablet", None, false, true),
        named("a", "laptop", Some(10), false, true),
    ];
    let (placed, _) = place(&stars);
    let drawn: Vec<String> = placed.iter().map(|g| star_phrase(&stars[g.idx])).collect();
    let said = sky_sentence(&stars);
    let mut at = 0;
    for phrase in &drawn {
        let found = said[at..]
            .find(phrase.as_str())
            .unwrap_or_else(|| panic!("{phrase} is out of order in {said}"));
        at += found + phrase.len();
    }
}

#[test]
fn the_sentence_admits_the_stars_the_cap_leaves_out() {
    let ids: Vec<String> = (0..30).map(|i| format!("s-{i:02}")).collect();
    let stars: Vec<Star<'_>> = ids.iter().map(|id| s(id, Some(20), false, true)).collect();
    let said = sky_sentence(&stars);
    assert!(said.starts_with("peer mesh, 30 peers:"), "{said}");
    assert!(said.ends_with("6 more not drawn"), "{said}");
    assert_eq!(said.matches(" direct ").count(), MAX_STARS);
}

#[test]
fn the_sentence_holds_for_a_mesh_that_is_entirely_dark() {
    let stars = [
        named("a", "laptop", None, false, false),
        named("b", "desk", None, false, false),
    ];
    assert_eq!(
        sky_sentence(&stars),
        "peer mesh, 2 peers: laptop offline, desk offline"
    );
}

#[test]
fn the_cursor_starts_on_the_figure_and_steps_into_it() {
    assert_eq!(step_cursor(None, 3, false, false, false, false), None);
    assert_eq!(step_cursor(None, 3, true, false, false, false), Some(0));
    assert_eq!(step_cursor(Some(0), 3, true, false, false, false), Some(1));
}

#[test]
fn stepping_back_off_the_first_star_returns_to_the_whole_sky() {
    assert_eq!(step_cursor(Some(1), 3, false, true, false, false), Some(0));
    assert_eq!(step_cursor(Some(0), 3, false, true, false, false), None);
    assert_eq!(step_cursor(None, 3, false, true, false, false), None);
}

#[test]
fn the_cursor_stops_at_the_far_end_rather_than_wrapping() {
    assert_eq!(step_cursor(Some(2), 3, true, false, false, false), Some(2));
    assert_eq!(step_cursor(Some(2), 3, false, false, true, false), Some(0));
    assert_eq!(step_cursor(Some(0), 3, false, false, false, true), Some(2));
}

#[test]
fn a_shrunken_mesh_clamps_a_stale_cursor() {
    assert_eq!(step_cursor(Some(9), 3, false, false, false, false), Some(2));
    assert_eq!(step_cursor(Some(9), 3, true, false, false, false), Some(2));
    assert_eq!(step_cursor(Some(9), 3, false, true, false, false), Some(1));
    assert_eq!(step_cursor(Some(4), 0, true, false, false, false), None);
    assert_eq!(step_cursor(None, 0, false, false, true, false), None);
}

#[test]
fn two_directions_in_one_frame_resolve_the_same_way_every_time() {
    assert_eq!(step_cursor(Some(1), 3, true, true, false, false), Some(2));
    assert_eq!(step_cursor(Some(1), 3, true, true, true, false), Some(0));
    assert_eq!(step_cursor(Some(1), 3, false, false, true, true), Some(0));
}
