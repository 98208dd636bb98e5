//! The status strip and the running head, laid out.

use tazamun_gui::rhythm::{head_room, plan_trail, running_head, set_trail, trail_w, units_to_px};
use tazamun_gui::statusbar::{
    clusters, content_right, corner, note_min_w, plural, rail_h, seal, set_counts, set_tail,
    status_strip, strip_h, worth_showing, Measured, Seal, Status, Tone,
};

fn quiet() -> Status<'static> {
    Status {
        sessions: 1,
        running: 0,
        peers_online: 0,
        conflicts: 0,
        busy: false,
        note: None,
        version: None,
    }
}

#[test]
fn counts_are_toned_by_what_they_count() {
    let c = clusters(&quiet());
    let shown: Vec<(&str, Tone)> = c.iter().map(|c| (c.text.as_str(), c.tone)).collect();
    assert_eq!(
        shown,
        vec![
            ("1 session", Tone::Muted),
            ("0 running", Tone::Muted),
            ("0 peers online", Tone::Muted)
        ]
    );
    let c = clusters(&Status { sessions: 2, running: 2, peers_online: 1, conflicts: 3, ..quiet() });
    let shown: Vec<(&str, Tone)> = c.iter().map(|c| (c.text.as_str(), c.tone)).collect();
    assert_eq!(
        shown,
        vec![
            ("2 sessions", Tone::Muted),
            ("2 running", Tone::Good),
            ("1 peer online", Tone::Peer),
            ("3 preserved copies", Tone::Stale)
        ]
    );
    assert_eq!(plural(1, "copy", "copies"), "copy");
    assert_eq!(plural(2, "copy", "copies"), "copies");
}

#[test]
fn a_count_past_the_bound_is_dropped() {
    let c = set_counts(&[6_000, 5_000, 4_000], 1_400, 40_000);
    assert_eq!(c.at, vec![Some(1_400), Some(9_400), Some(16_400)]);
    assert_eq!(c.end, 20_400);
    let c = set_counts(&[6_000, 5_000, 4_000], 1_400, 14_000);
    assert_eq!(c.at, vec![Some(1_400), Some(9_400), None]);
    assert_eq!(c.end, 14_400);
    let c = set_counts(&[6_000], 1_400, 1_400);
    assert_eq!(c.at, vec![None]);
    assert_eq!(c.end, 1_400);
}

#[test]
fn the_version_holds_the_edge_and_the_note_takes_the_rest() {
    let t = set_tail(20_000, 60_000, 5_750, Some(4_000), Some(9_000));
    assert_eq!(t.version, Some(56_000));
    assert_eq!(t.note, Some((46_200, 55_200)));
    let t = set_tail(20_000, 60_000, 5_750, None, Some(9_000));
    assert_eq!(t.version, None);
    assert_eq!(t.note, Some((51_000, 60_000)));
    let t = set_tail(20_000, 60_000, 5_750, None, Some(90_000));
    assert_eq!(t.note, Some((20_800, 60_000)));
    let t = set_tail(50_000, 57_000, 5_750, Some(4_000), Some(9_000));
    assert_eq!(t.version, Some(53_000));
    assert_eq!(t.note, None);
    let t = set_tail(56_000, 57_000, 5_750, Some(4_000), Some(9_000));
    assert_eq!((t.version, t.note), (None, None));
}

#[test]
fn the_strip_composes_its_parts() {
    let s = Status { busy: true, note: Some("pulling"), version: Some(" 1.4.0 "), ..quiet() };
    let m = Measured {
        left: 0,
        right: 100_000,
        height: 2_600,
        counts: vec![6_000, 5_000, 8_000],
        version: 3_000,
        note: 5_000,
    };
    let r = status_strip(&s, &m, 10_000, false, false);
    assert_eq!(r.corner, 12);
    assert!(r.strapwork);
    assert_eq!(r.seal, Seal::Breathing);
    assert_eq!(
        r.spoken,
        "status: 1 session, 0 running, 0 peers online, working, version 1.4.0, pulling"
    );
    assert_eq!(r.counts.at, vec![Some(1_400), Some(9_400), Some(16_400)]);
    assert_eq!(r.counts.end, 24_400);
    assert_eq!(content_right(), 3_400);
    assert_eq!(r.tail.version, Some(100_000 - 3_400 - 3_000));
    assert_eq!(r.tail.note, Some((93_600 - 800 - 5_000, 92_800)));
    let still = status_strip(&s, &m, 10_000, true, true);
    assert_eq!(still.corner, 0);
    assert_eq!(still.seal, Seal::Filled);
    let big = status_strip(&s, &m, 22_000, true, true);
    assert!(!big.strapwork);
}

#[test]
fn the_seal_rests_when_nothing_runs() {
    assert_eq!(seal(false, false), Seal::Outline);
    assert_eq!(seal(false, true), Seal::Outline);
    assert_eq!(seal(true, true), Seal::Filled);
    assert_eq!(corner(true), 0);
    assert_eq!(rail_h(1_000), 2_600);
    assert_eq!(rail_h(3_000), 3_800);
    assert_eq!(strip_h(10_000), 2_600);
    assert_eq!(note_min_w(10_000), 5_750);
    assert_eq!(worth_showing(Some("  ")), None);
    assert_eq!(worth_showing(Some(" a ")), Some("a"));
    assert_eq!(worth_showing(None), None);
}

#[test]
fn a_trail_drops_its_oldest_names_first() {
    let w = [4_000, 5_000, 6_000];
    assert_eq!(trail_w(&w, 1_600, 0), 18_200);
    assert_eq!(trail_w(&w, 1_600, 1), 12_600);
    assert_eq!(trail_w(&w, 1_600, 3), 0);
    assert_eq!(plan_trail(&w, 1_600, 900, 18_200), (0, false));
    assert_eq!(plan_trail(&w, 1_600, 900, 18_199), (1, true));
    assert_eq!(plan_trail(&w, 1_600, 900, 8_500), (2, true));
    assert_eq!(plan_trail(&w, 1_600, 900, 8_499), (2, false));
    assert_eq!(plan_trail(&[], 1_600, 900, 10), (0, false));
}

#[test]
fn a_trail_is_set_from_left_to_right() {
    let t = set_trail(&[4_000, 5_000, 6_000], 1_600, 900, 1, true);
    let at: Vec<(Option<usize>, i128, bool)> = t.iter().map(|d| (d.name, d.x, d.current)).collect();
    assert_eq!(at, vec![(None, 0, false), (Some(1), 2_500, false), (Some(2), 9_100, true)]);
}

#[test]
fn the_folio_never_takes_more_than_half() {
    let r = head_room(40_000, Some(3_000));
    assert_eq!((r.folio, r.trail), (3_000, 35_800));
    let r = head_room(4_000, Some(3_000));
    assert_eq!((r.folio, r.trail), (2_000, 800));
    let r = head_room(4_000, None);
    assert_eq!((r.folio, r.trail), (0, 4_000));
    assert!(running_head(&[], 900, 40_000, None).is_none());
    assert!(running_head(&[4_000], 900, 99, None).is_none());
    match running_head(&[4_000, 5_000], 900, 40_000, Some(3_000)) {
        Some(h) => {
            assert_eq!(h.folio, 3_000);
            assert_eq!(h.trail.len(), 2);
            assert_eq!(h.trail[1].x, 5_600);
            assert!(h.trail[1].current);
        }
        None => panic!("no head"),
    }
    match running_head(&[4_000, 5_000], 900, 2_400, Some(3_000)) {
        Some(h) => assert!(h.trail.is_empty()),
        None => panic!("no head"),
    }
    assert_eq!(units_to_px(3), 1_200);
}
