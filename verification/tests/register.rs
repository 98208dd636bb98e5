//! The ruled register.

use tazamun_gui::a11y::SCALE_DEFAULT;
use tazamun_gui::register::{
    page, Align, Cell, Col, ColW, Content, Entry, Ground, Mark, Page, Register, Stack,
};
use tazamun_gui::theme::{Custody, Density, SPACE_XL, STEP_BODY, STEP_LABEL, STEP_META};

/// Hundredths of a point, or `None` for what is no number.
fn hundredths(v: f32) -> Option<i32> {
    v.is_finite().then_some((v * 100.0) as i32)
}

fn line_box(step: i32, scale: i32) -> f32 {
    tazamun_gui::register::line_h(step, scale) as f32
}

fn lanes(cols: &[Col], avail: f32) -> Vec<f32> {
    tazamun_gui::register::lanes(cols, (avail * 100.0).round() as i32, SCALE_DEFAULT)
        .into_iter()
        .map(|w| w as f32 / 100.0)
        .collect()
}

fn measure(steps: &[i32], scale: i32, one_line: i32) -> Stack {
    let steps: Vec<Option<i32>> = steps.iter().map(|s| Some(*s)).collect();
    tazamun_gui::register::measure(&steps, scale, one_line)
}

fn flex_min() -> f32 {
    tazamun_gui::register::flex_min(SCALE_DEFAULT) as f32 / 100.0
}

fn stacked<'a>(r: Register<'a>, steps: &[i32]) -> Register<'a> {
    let steps: Vec<Option<i32>> = steps.iter().map(|s| Some(*s)).collect();
    r.stacked_rows(&steps, SCALE_DEFAULT, Density::Regular)
}

fn row_h(r: &Register<'_>) -> i128 {
    r.row_h(SCALE_DEFAULT, Density::Regular)
}

fn cols(spec: &[ColW]) -> Vec<Col> {
    spec.iter().map(|w| Col::new("h", *w)).collect()
}

const NAME_OVER_HINT: [i32; 2] = [STEP_LABEL, STEP_META];

const DENSITY_BASES: [i32; 3] = [2_400, 2_800, 3_400];

fn one_line(base: i32, scale: i32) -> i32 {
    base * scale.clamp(10_000, 22_000) / 10_000
}

fn scales() -> impl Iterator<Item = i32> {
    (14..=44).map(|k| k * 500)
}

fn approx(a: f32, b: f32) -> bool {
    (a - b).abs() < 0.01
}

#[test]
fn one_line_of_label_measures_the_density_row() {
    for base in DENSITY_BASES {
        for scale in scales() {
            let one = one_line(base, scale);
            let m = measure(&[STEP_LABEL], scale, one);
            assert_eq!(m.row, i128::from(one), "{base} at {scale}: {m:?} vs {one}");
        }
    }
}

#[test]
fn a_stacked_entry_is_taller_than_a_one_line_entry() {
    for base in DENSITY_BASES {
        for scale in scales() {
            let one = one_line(base, scale);
            let two = measure(&NAME_OVER_HINT, scale, one);
            assert!(
                two.row > i128::from(one),
                "{base} at {scale}: two lines ruled at {} inside {one}",
                two.row
            );
        }
    }
}

#[test]
fn the_measure_grows_with_the_text_scale() {
    for base in DENSITY_BASES {
        let mut prev: Option<(i32, Stack, Stack)> = None;
        for scale in scales() {
            let one = one_line(base, scale);
            let two = measure(&NAME_OVER_HINT, scale, one);
            let single = measure(&[STEP_LABEL], scale, one);
            if let Some((was, prev_two, prev_single)) = prev {
                assert!(
                    two.row > prev_two.row,
                    "{base}: stacked row flat from {was} to {scale}"
                );
                assert!(
                    two.content > prev_two.content,
                    "{base}: stacked content flat from {was} to {scale}"
                );
                assert!(
                    single.row >= prev_single.row,
                    "{base}: one-line row shrank from {was} to {scale}"
                );
            }
            prev = Some((scale, two, single));
        }
    }
}

#[test]
fn the_measure_grows_with_density() {
    for scale in scales() {
        let mut prev: Option<i128> = None;
        for base in DENSITY_BASES {
            let m = measure(&NAME_OVER_HINT, scale, one_line(base, scale));
            if let Some(was) = prev {
                assert!(m.row > was, "density {base} at {scale}: {} vs {was}", m.row);
            }
            prev = Some(m.row);
        }
    }
}

#[test]
fn no_steps_measures_an_ordinary_entry() {
    for base in DENSITY_BASES {
        let one = one_line(base, 10_000);
        let m = measure(&[], 10_000, one);
        assert_eq!(m.content, 0);
        assert_eq!(m.row, i128::from(one), "{m:?} vs {one}");
    }
}

#[test]
fn empty_ruler_has_no_lanes() {
    assert!(lanes(&[], 500.0).is_empty());
}

#[test]
fn a_fixed_column_tracks_the_text_scale() {
    let k = 1.0;
    let c = cols(&[ColW::Fixed(8000), ColW::Fixed(4000)]);
    let w = lanes(&c, 4_000.0);
    assert!(approx(w[0], 80.0 * k), "{} vs {}", w[0], 80.0 * k);
    assert!(approx(w[1], 40.0 * k));
    assert!(approx(w[0] / w[1], 2.0));
}

#[test]
fn fixed_columns_take_exactly_their_width() {
    let k = 1.0;
    let c = cols(&[ColW::Fixed(10000), ColW::Fixed(6000)]);
    let w = lanes(&c, 4_000.0);
    assert!(approx(w[0], 100.0 * k) && approx(w[1], 60.0 * k));
}

#[test]
fn flex_splits_the_remainder_by_weight() {
    let c = cols(&[ColW::Fixed(10000), ColW::Flex(3), ColW::Flex(1)]);
    let w = lanes(&c, 500.0);
    assert!(approx(w[0], 100.0));
    assert!(approx(w[1], 300.0), "got {}", w[1]);
    assert!(approx(w[2], 100.0), "got {}", w[2]);
}

#[test]
fn a_flexible_column_is_never_squeezed_to_nothing() {
    let c = cols(&[
        ColW::Flex(3),
        ColW::Fixed(4600),
        ColW::Fixed(7800),
        ColW::Fixed(13200),
        ColW::Fixed(8600),
    ]);
    let fixed_total = (46.0 + 78.0 + 132.0 + 86.0) * 1.0;
    let w = lanes(&c, fixed_total + 8.0);
    assert!(w[0] >= flex_min(), "path collapsed to {}", w[0]);
    let sum: f32 = w.iter().sum();
    assert!(approx(sum, fixed_total + 8.0), "summed to {sum}");
    assert!(
        w[1] > 0.0 && w[2] > 0.0 && w[3] > 0.0 && w[4] > 0.0,
        "{w:?}"
    );
    assert!(approx(w[3] / w[1], 132.0 / 46.0), "ratio lost: {w:?}");
}

#[test]
fn a_roomy_ruler_is_unaffected_by_the_floor() {
    let k = 1.0;
    let c = cols(&[ColW::Flex(1), ColW::Fixed(8000)]);
    let w = lanes(&c, 4_000.0);
    assert!(approx(w[1], 80.0 * k));
    assert!(approx(w[0], 4_000.0 - 80.0 * k));
}

#[test]
fn lanes_sum_to_the_available_width() {
    let c = cols(&[ColW::Fixed(8000), ColW::Flex(2), ColW::Flex(1)]);
    for avail in [200.0_f32, 333.7, 1024.0, 4000.0] {
        let sum: f32 = lanes(&c, avail).iter().sum();
        assert!(approx(sum, avail), "avail {avail} summed to {sum}");
    }
}

#[test]
fn over_subscribed_ruler_scales_proportionally() {
    let c = cols(&[ColW::Fixed(20000), ColW::Fixed(10000)]);
    let w = lanes(&c, 150.0);
    let sum: f32 = w.iter().sum();
    assert!(approx(sum, 150.0), "summed to {sum}");
    assert!(approx(w[0] / w[1], 2.0), "ratio lost: {:?}", w);
}

#[test]
fn flex_gets_nothing_when_fixed_fills_the_ruler() {
    let c = cols(&[ColW::Fixed(30000), ColW::Flex(1)]);
    let w = lanes(&c, 200.0);
    assert!(approx(w[1], 0.0));
}

#[test]
fn zero_width_ruler_yields_zero_lanes() {
    let c = cols(&[ColW::Fixed(5000), ColW::Flex(1)]);
    for w in lanes(&c, 0.0) {
        assert!(approx(w, 0.0));
    }
}

#[test]
fn negative_width_is_treated_as_zero() {
    let c = cols(&[ColW::Fixed(5000), ColW::Flex(1)]);
    let w = lanes(&c, -100.0);
    assert!(w.iter().all(|v| approx(*v, 0.0)), "{w:?}");
}

#[test]
fn zero_weight_flex_is_finite() {
    let c = cols(&[ColW::Flex(0), ColW::Flex(0)]);
    for w in lanes(&c, 400.0) {
        assert!(w.is_finite(), "non-finite lane");
    }
}

#[test]
fn negative_declared_widths_are_clamped() {
    let c = cols(&[ColW::Fixed(-5000), ColW::Flex(-1)]);
    let w = lanes(&c, 300.0);
    assert!(w.iter().all(|v| v.is_finite() && *v >= 0.0), "{w:?}");
}

#[test]
fn only_held_entries_are_sealed() {
    assert!(Custody::Mine.sealed());
    assert!(Custody::Peer.sealed());
    for c in [
        Custody::Free,
        Custody::Stale,
        Custody::Blocked,
        Custody::Quarantined,
        Custody::Good,
    ] {
        assert!(!c.sealed(), "{c:?} must not carry a seal");
    }
}

#[test]
fn a_line_box_clears_the_tallest_face_in_the_stack() {
    for scale in scales() {
        let step = STEP_BODY;
        let b = line_box(step, scale);
        let size = step as f32 * scale as f32 / 10_000.0;
        assert!(b >= size * 1.3, "latin metric not cleared at {scale}");
        assert!((b - size * 1.5).abs() < 1.0, "arabic metric lost at {scale}");
    }
}

#[test]
fn an_entry_is_never_shorter_than_its_content() {
    for base in DENSITY_BASES {
        for scale in scales() {
            for lines in 1..=4 {
                let steps = vec![STEP_LABEL; lines];
                let one = one_line(base, scale);
                let m = measure(&steps, scale, one);
                assert!(m.row >= m.content, "{lines} lines at {scale}/{base}: {m:?}");
                assert!(m.row >= i128::from(one), "{lines} lines at {scale}/{base}: {m:?}");
                let air = i128::from(one) - tazamun_gui::register::line_h(STEP_LABEL, scale) as i128;
                assert_eq!(m.row - m.content, air, "{lines} lines at {scale}/{base}: {m:?}");
            }
        }
    }
}

#[test]
fn a_nonsense_step_falls_back_to_an_ordinary_entry() {
    let one = one_line(2_800, 10_000);
    for step in [f32::NAN, f32::INFINITY, f32::NEG_INFINITY, -40.0] {
        let m = tazamun_gui::register::measure(&[hundredths(step), Some(STEP_META)], 10_000, one);
        assert!(m.row >= i128::from(one), "{step}: {m:?}");
        assert_eq!(m.content, 1_725 + 400, "{step}: {m:?}");
    }
}

#[test]
fn an_explicit_row_height_wins() {
    let r = Register::new("t", &[]).row_height(Some(9_600));
    assert_eq!(row_h(&r), 9_600);
    let r = Register::new("t", &[]).row_height(Some(-1_200));
    assert_eq!(row_h(&r), 0);
    let r = Register::new("t", &[]).row_height(hundredths(f32::NAN));
    assert_eq!(row_h(&r), 0);
    let r = stacked(Register::new("t", &[]), &NAME_OVER_HINT).row_height(Some(20_000));
    assert_eq!(row_h(&r), 20_000);
    assert_eq!(row_h(&Register::new("t", &[])), 2_800);
}

#[test]
fn stacked_rows_rules_the_register_at_the_measured_height() {
    let r = stacked(Register::new("t", &[]), &NAME_OVER_HINT);
    let Some(band) = r.stack else {
        panic!("a stacked register must carry its content band");
    };
    assert!(band > 0, "band {band}");
    assert!(row_h(&r) > band, "ruled at {} for a {band} band", row_h(&r));
    assert_eq!(r.band(row_h(&r)), band);
    assert_eq!(r.band(100), 100);
    assert_eq!(Register::new("t", &[]).band(100), 100);
}

#[test]
fn column_builders_set_their_fields() {
    let c = Col::new("size", ColW::Fixed(8_000)).right().sortable("size");
    assert_eq!(c.head, "size");
    assert_eq!(c.align, Align::Right);
    assert_eq!(c.sort_key, Some("size"));
    assert_eq!(Col::new("size", ColW::Fixed(8_000)).align, Align::Left);
}

#[test]
fn odd_shares_lose_nothing() {
    let c = cols(&[ColW::Flex(1), ColW::Flex(1), ColW::Flex(1)]);
    let w = tazamun_gui::register::lanes(&c, 40_000, SCALE_DEFAULT);
    assert_eq!(w, vec![13_333, 13_333, 13_334]);
}

#[test]
fn a_failed_read_is_drawn_as_a_failure() {
    let failed = Content::Failed { what: "the conflicts", because: "permission denied" };
    assert!(matches!(page(failed), Page::Failure { what: "the conflicts", .. }));
    assert!(matches!(page(Content::Empty { title: "none", hint: "" }), Page::Blank { .. }));
    assert!(matches!(page(Content::Loading), Page::Skeleton(6)));
    assert!(matches!(page(Content::Entries(3)), Page::Rows(3)));
}

#[test]
fn only_a_heading_that_sorts_and_a_failure_report() {
    let c = [
        Col::new("path", ColW::Flex(1)).sortable("path"),
        Col::new("size", ColW::Fixed(8_000)),
    ];
    let r = Register::new("files", &c).sorted_by("path", true);
    let out = r.show(&Content::Entries(2), Some(0), true);
    assert_eq!(out.sort, Some("path"));
    assert!(!out.retry);
    assert_eq!(r.show(&Content::Entries(2), Some(1), false).sort, None);
    assert_eq!(r.show(&Content::Entries(2), Some(9), false).sort, None);
    let failed = Content::Failed { what: "it", because: "x" };
    assert!(r.show(&failed, None, true).retry);
    assert!(!r.show(&failed, None, false).retry);
    assert_eq!(r.active(&c[0]), Some(true));
    assert_eq!(r.active(&c[1]), None);
    let blank = [Col::new(" ", ColW::Flex(1)).sortable("k"), Col::new("", ColW::Flex(1))];
    let bare = Register::new("facts", &blank);
    assert!(!bare.ruled());
    assert_eq!(bare.show(&Content::Loading, Some(0), false).sort, None);
}

#[test]
fn cells_are_set_lane_by_lane() {
    let widths = [5_000u64, 50, 3_000];
    let mut e = Entry::new(4, &widths, 3_400, 800);
    e.indent(100);
    assert_eq!(e.indent, i64::from(SPACE_XL));
    assert_eq!(e.cell(), Some(Cell { x: 3_400 + 1_600, w: 3_400 }));
    assert_eq!(e.cell(), None);
    assert_eq!(e.cell(), Some(Cell { x: 3_400 + 5_050 + 1_600, w: 3_000 }));
    assert_eq!(e.cell(), None);
    assert_eq!(e.lane, 3);
}

#[test]
fn the_margin_carries_the_seal_or_the_folio() {
    let widths = [5_000u64];
    let mut e = Entry::new(4, &widths, 3_400, 800);
    assert_eq!(e.index(), 4);
    assert_eq!(e.finish(), Mark::Folio(5));
    e.folio(12);
    assert_eq!(e.finish(), Mark::Folio(12));
    e.custody(Custody::Stale);
    assert_eq!(e.finish(), Mark::Folio(12));
    assert_eq!(e.ground(false), Ground::Tint(Custody::Stale));
    assert_eq!(e.ground(true), Ground::Raised);
    e.custody(Custody::Mine);
    assert_eq!(e.finish(), Mark::Seal(Custody::Mine));
    assert_eq!(e.ground(false), Ground::Bare);
    e.selected(true);
    assert_eq!(e.ground(true), Ground::Selected);
    e.no_mark();
    assert_eq!(e.finish(), Mark::Blank);
    e.divider();
    assert!(e.heavy_rule);
    let no_margin = Entry::new(0, &widths, 0, 800);
    assert_eq!(no_margin.finish(), Mark::Blank);
}

#[test]
fn the_margin_and_the_gaps_come_off_the_lanes() {
    let c = cols(&[ColW::Flex(1), ColW::Flex(1)]);
    let r = Register::new("t", &c);
    assert_eq!(r.layout(50_000, 800, SCALE_DEFAULT), vec![22_900, 22_900]);
    assert_eq!(r.no_margin().layout(50_000, 800, SCALE_DEFAULT), vec![24_600, 24_600]);
    assert_eq!(r.layout(1_000, 800, SCALE_DEFAULT), vec![0, 0]);
}

#[test]
fn an_empty_page_holds_its_two_lines() {
    let small = tazamun_gui::register::empty_page(10_000, Density::Compact);
    assert_eq!((small.apart, small.height), (2_150, 9_600));
    let large = tazamun_gui::register::empty_page(22_000, Density::Compact);
    assert_eq!((large.apart, large.height), (4_125, 21_120));
    assert_eq!(tazamun_gui::register::ruler_h(10_000), 1_950);
    assert_eq!(tazamun_gui::register::ruler_h(22_000), 3_795);
}

#[test]
fn a_line_below_nothing_is_below_nothing() {
    assert_eq!(tazamun_gui::register::line_h(-1_000, 10_000), -1_500);
    assert_eq!(tazamun_gui::register::line_h(-1, 7_000), -2);
    assert_eq!(tazamun_gui::register::line_h(1, 7_000), 1);
}

#[test]
fn an_entry_may_hang_out_and_its_lanes_may_overlap() {
    let widths = [5_000u64, 3_000];
    let mut e = Entry::new(0, &widths, -100, -500);
    e.indent(-100);
    assert_eq!(e.cell(), Some(Cell { x: -100 - 1_600, w: 6_600 }));
    assert_eq!(e.cell(), Some(Cell { x: -100 + 5_000 - 500, w: 3_000 }));
    let wide = Entry::new(0, &widths, 0, i32::MAX);
    let mut far = wide;
    far.indent(i32::MAX);
    assert_eq!(far.cell(), None);
    assert_eq!(far.cell(), Some(Cell { x: 5_000 + i128::from(i32::MAX), w: 3_000 }));
    let cols = cols(&[ColW::Flex(1), ColW::Flex(1)]);
    let r = Register::new("t", &cols).no_margin();
    assert_eq!(r.layout(10_000, -2_000, 10_000).iter().sum::<u64>(), 12_000);
}
