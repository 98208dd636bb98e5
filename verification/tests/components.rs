//! The kind chip, the plate, the measure and the empty page.

use tazamun_gui::components::{chip_ext, empty_block_h, figure_box, plate_box};
use tazamun_gui::geometry::{Frame, Point};
use tazamun_gui::theme::{
    SPACE_S, STEP_BODY, STEP_CAPTION, STEP_DISPLAY, STEP_LABEL, STEP_META,
};

fn scales() -> impl Iterator<Item = i64> {
    (14..=44).map(|k| k * 500)
}

fn line_box(step: i32, scale: i64) -> i64 {
    i64::from(step) * scale * 3 / 20_000
}

fn latin(step: i32, scale: i64) -> i64 {
    i64::from(step) * scale * 13 / 100_000
}

fn chip_box(line: i64, galley: i64) -> i64 {
    tazamun_gui::components::chip_box(line, Some(galley))
}

fn plate_points(rect: Frame, cut: f64) -> Vec<Point> {
    let cut = if cut.is_finite() { Some((cut * 100.0) as i64) } else { None };
    tazamun_gui::components::plate_points(rect, cut)
}

fn measure_frac(frac: f32) -> f32 {
    let parts = if frac.is_finite() { Some((frac * 10_000.0) as i32) } else { None };
    tazamun_gui::components::measure_frac(parts) as f32 / 10_000.0
}

#[test]
fn common_extensions_get_a_chip() {
    for (path, want) in [
        ("a/button.tsx", "TSX"),
        ("sprite.png", "PNG"),
        ("README.md", "MD"),
        ("tokens/palette.json", "JSON"),
        ("tokens/icons.woff2", "WOFF2"),
        ("page.xhtml", "XHTML"),
    ] {
        assert_eq!(chip_ext(path), want, "for {path}");
    }
}

#[test]
fn anything_without_a_usable_extension_gets_the_dot() {
    for path in [
        "Makefile",            // no dot at all
        ".gitignore",          // dotfile: the extension is the whole name
        "archive.tar.gzipped", // too long to fit the well
        "trailing.",           // nothing after the dot
    ] {
        assert_eq!(chip_ext(path), "·", "for {path}");
    }
}

#[test]
fn the_chip_reads_the_last_segment_alone() {
    for (path, want) in [
        (".env", "·"),
        ("conf/.env", "·"),
        ("conf\\.env", "·"),
        ("v1.2/x", "·"),
        ("v1.2\\x", "·"),
        ("v1.2/", "·"),
        ("v1.2/x.rs", "RS"),
        ("a/.env.bak", "BAK"),
    ] {
        assert_eq!(chip_ext(path), want, "for {path}");
    }
}

#[test]
fn a_plate_is_cut_at_two_opposite_corners() {
    let r = Frame { left: 0, top: 0, right: 10_000, bottom: 3_000 };
    let pts = plate_points(r, 8.0);
    assert_eq!(pts.len(), 6);
    assert!(pts.iter().all(|p| r.contains(*p)), "{pts:?}");
    assert!(!pts.contains(&Point { x: r.right, y: r.top }), "top-right was not cut");
    assert!(!pts.contains(&Point { x: r.left, y: r.bottom }), "bottom-left was not cut");
    assert!(pts.contains(&Point { x: r.left, y: r.top }));
    assert!(pts.contains(&Point { x: r.right, y: r.bottom }));
}

#[test]
fn an_oversized_cut_is_clamped_to_the_plate() {
    let r = Frame { left: 0, top: 0, right: 4_000, bottom: 2_000 };
    for cut in [1000.0, f64::INFINITY, f64::NAN, -5.0] {
        let pts = plate_points(r, cut);
        assert!(
            pts.iter().all(|p| r.contains(*p)),
            "cut {cut} escaped the plate: {pts:?}"
        );
    }
}

#[test]
fn a_measure_never_reads_past_its_ends() {
    assert_eq!(measure_frac(-1.0), 0.0);
    assert_eq!(measure_frac(0.0), 0.0);
    assert_eq!(measure_frac(0.5), 0.5);
    assert_eq!(measure_frac(2.0), 1.0);
    assert_eq!(measure_frac(f32::NAN), 0.0);
    assert_eq!(measure_frac(f32::INFINITY), 0.0);
}

#[test]
fn a_chip_is_never_shorter_than_the_type_in_it() {
    let step = STEP_CAPTION;
    for scale in scales() {
        let line = line_box(step, scale);
        for galley in [latin(step, scale), line, 0] {
            let h = chip_box(line, galley);
            assert!(h >= galley, "chip {h} holds a {galley} galley at {scale}");
            assert!(h >= line, "chip {h} under the line box {line} at {scale}");
        }
        let was = i64::from(STEP_META) * scale / 10_000 + i64::from(SPACE_S);
        if scale >= 20_000 {
            assert!(
                chip_box(line, latin(step, scale)) > was,
                "the old pixel count is still the taller of the two at {scale}"
            );
        }
    }
}

#[test]
fn a_chip_grows_with_the_text_scale() {
    let step = STEP_CAPTION;
    let mut prev: Option<(i64, i64)> = None;
    for scale in scales() {
        let h = chip_box(line_box(step, scale), latin(step, scale));
        if let Some((was, before)) = prev {
            assert!(h > before, "chip flat from {was} to {scale}");
        }
        prev = Some((scale, h));
    }
}

#[test]
fn a_chip_survives_a_galley_it_cannot_measure() {
    let line = line_box(STEP_CAPTION, 10_000);
    for bad in [f32::NAN, f32::INFINITY, f32::NEG_INFINITY, -50.0] {
        let galley = bad.is_finite().then_some((bad * 100.0) as i64);
        let h = tazamun_gui::components::chip_box(line, galley);
        assert_eq!(h, line, "{bad} escaped the chip");
    }
}

#[test]
fn a_plate_slot_clears_the_plate_at_every_scale() {
    for scale in scales() {
        let step = STEP_LABEL;
        let line = line_box(step, scale);
        let h = plate_box(i64::from(step) * scale / 10_000, line);
        assert!(
            h >= line,
            "a {line} line box does not fit the plate at {scale}"
        );
        assert!(h >= latin(step, scale), "latin label clipped at {scale}");
    }
}

#[test]
fn a_ledger_separator_spans_the_figure_beside_it() {
    let mut prev: Option<(i64, i64)> = None;
    for scale in scales() {
        let h = figure_box(
            line_box(STEP_DISPLAY, scale),
            line_box(STEP_META, scale),
        );
        assert!(
            h > line_box(STEP_DISPLAY, scale) + line_box(STEP_META, scale),
            "the rule between value and name is unaccounted for at {scale}"
        );
        if let Some((was, before)) = prev {
            assert!(h > before, "figure height flat from {was} to {scale}");
        }
        prev = Some((scale, h));
    }
}

#[test]
fn an_empty_page_follows_the_lines_it_holds() {
    let one = empty_block_h(2_000, 1_600);
    let wrapped = empty_block_h(2_000, 1_600 * 5);
    assert!(wrapped > one, "a wrapped hint did not make the page taller");
    assert!(one >= 2_000 + 1_600, "the air between the lines went missing");
    for scale in scales() {
        let block = empty_block_h(
            line_box(STEP_BODY, scale),
            line_box(STEP_META, scale),
        );
        assert!(
            block >= line_box(STEP_BODY, scale) + line_box(STEP_META, scale),
            "block {block} clips its own lines at {scale}"
        );
    }
}
