//! The bar of bulk actions and the braces.

use tazamun_gui::marginalia::{
    brace_paths, bulk_bar, bulk_word, half_path, revealed, BulkOut, Reveal, Run, HALF_POINTS,
};

const MIN_RUN: f32 = tazamun_gui::marginalia::MIN_RUN as f32 / 100.0;

type Pos = (f32, f32);

struct Paths {
    halves: [Vec<Pos>; 2],
    cusp: Pos,
    ease: f32,
}

/// Hundredths of a point, or `None` for what is no number.
fn length(v: f32) -> Option<i32> {
    v.is_finite().then_some((v * 100.0) as i32)
}

fn run(top: f32, bottom: f32) -> Run {
    Run { top: length(top), bottom: length(bottom) }
}

fn dist(a: Pos, b: Pos) -> f32 {
    (a.0 - b.0).hypot(a.1 - b.1)
}

fn poly_len(path: &[Pos]) -> f32 {
    path.windows(2).map(|w| dist(w[0], w[1])).sum()
}

/// The leading part of a path, by its length.
fn leading(path: &[Pos], frac: f32) -> Vec<Pos> {
    let frac = frac.is_finite().then_some((frac * 10_000.0).round() as i32);
    let lens: Vec<u32> = path.windows(2).map(|w| (dist(w[0], w[1]) * 1_000.0) as u32).collect();
    match revealed(&lens, frac) {
        Reveal::Nothing => Vec::new(),
        Reveal::Whole => path.to_vec(),
        Reveal::Upto { whole, into, of } => {
            let s = into as f32 / of as f32;
            let (a, b) = (path[whole], path[whole + 1]);
            let mut out = path[..=whole].to_vec();
            out.push((a.0 + (b.0 - a.0) * s, a.1 + (b.1 - a.1) * s));
            out
        }
    }
}

/// Both halves of the brace beside a run, as they are drawn.
fn brace(x: f32, run: &Run, t: f32) -> Option<Paths> {
    let frac = t.is_finite().then_some((t * 10_000.0) as i32);
    let b = brace_paths(length(x), run, frac)?;
    let at = length(x)?;
    let half = |lower: bool| {
        let full: Vec<Pos> = half_path(at, &b, lower)
            .iter()
            .map(|p| (p.x as f32 / 100.0, p.y as f32 / 100.0))
            .collect();
        leading(&full, b.ease as f32 / 10_000.0)
    };
    Some(Paths {
        halves: [half(false), half(true)],
        cusp: (x + b.reach as f32 / 100.0, b.mid as f32 / 100.0),
        ease: b.ease as f32 / 10_000.0,
    })
}

#[test]
fn full_brace_reaches_cusp_and_terminals() {
    let p = brace(100.0, &run(40.0, 120.0), 1.0).unwrap();
    assert_eq!(p.cusp, (106.0, 80.0));
    for (half, edge) in [(&p.halves[0], 40.0_f32), (&p.halves[1], 120.0)] {
        let first = half[0];
        let last = half[half.len() - 1];
        assert!((first.0 - 106.0).abs() < 1e-3, "half starts at the cusp tip");
        assert!((first.1 - 80.0).abs() < 1e-3);
        assert!((last.0 - 95.0).abs() < 1e-3, "terminal hooks into the margin");
        assert!((last.1 - edge).abs() < 1e-3, "terminal lands on the run edge");
    }
    let b = brace_paths(Some(10_000), &run(40.0, 120.0), Some(10_000)).unwrap();
    assert_eq!((b.swell, b.curl), (700, 550));
}

#[test]
fn halves_mirror_about_the_midline() {
    let p = brace(50.0, &run(10.0, 90.0), 1.0).unwrap();
    assert_eq!(p.halves[0].len(), p.halves[1].len());
    for (a, b) in p.halves[0].iter().zip(&p.halves[1]) {
        assert!((a.0 - b.0).abs() < 1e-3);
        assert!((a.1 + b.1 - 100.0).abs() < 1e-3);
    }
}

/// The arcs of a half are quarters of an ellipse.
#[test]
fn the_arcs_are_quarter_ellipses() {
    let p = brace(0.0, &run(0.0, 100.0), 1.0).unwrap();
    let lower = &p.halves[1];
    for (i, q) in lower[..=12].iter().enumerate() {
        let phi = std::f32::consts::FRAC_PI_2 * (1.0 - i as f32 / 12.0);
        assert!((q.0 - 6.0 * (1.0 - phi.cos())).abs() < 0.02, "{i}: {q:?}");
        assert!((q.1 - (57.0 - 7.0 * phi.sin())).abs() < 0.02, "{i}: {q:?}");
    }
    for (i, q) in lower[13..].iter().enumerate() {
        let psi = std::f32::consts::FRAC_PI_2 * i as f32 / 10.0;
        assert!((q.0 + 5.0 * (1.0 - psi.cos())).abs() < 0.02, "{i}: {q:?}");
        assert!((q.1 - (100.0 - 5.5 * (1.0 - psi.sin()))).abs() < 0.02, "{i}: {q:?}");
    }
}

#[test]
fn rejects_non_finite_inputs() {
    let ok = run(0.0, 40.0);
    assert!(brace(f32::NAN, &ok, 1.0).is_none());
    assert!(brace(f32::INFINITY, &ok, 1.0).is_none());
    assert!(brace(0.0, &ok, f32::NAN).is_none());
    assert!(brace(0.0, &run(f32::NAN, 40.0), 1.0).is_none());
    assert!(brace(0.0, &run(0.0, f32::INFINITY), 1.0).is_none());
    assert!(brace(0.0, &run(f32::NEG_INFINITY, 0.0), 1.0).is_none());
}

#[test]
fn rejects_degenerate_and_inverted_runs() {
    assert!(brace(0.0, &run(40.0, 40.0), 1.0).is_none());
    assert!(brace(0.0, &run(40.0, 10.0), 1.0).is_none());
    assert!(brace(0.0, &run(0.0, MIN_RUN - 0.5), 1.0).is_none());
    assert!(brace(0.0, &run(0.0, MIN_RUN), 1.0).is_some());
}

#[test]
fn rejects_t_at_or_below_zero_and_clamps_above_one() {
    let r = run(0.0, 60.0);
    assert!(brace(0.0, &r, 0.0).is_none());
    assert!(brace(0.0, &r, -1.0).is_none());
    let clamped = brace(0.0, &r, 5.0).unwrap();
    let full = brace(0.0, &r, 1.0).unwrap();
    assert_eq!(clamped.halves[0], full.halves[0]);
    assert_eq!(clamped.halves[1], full.halves[1]);
    assert_eq!(full.ease, 1.0);
}

#[test]
fn pathological_height_stays_capped_and_finite() {
    let p = brace(0.0, &run(0.0, 1.0e7), 1.0).unwrap();
    for half in &p.halves {
        assert!(half.len() <= HALF_POINTS as usize);
        assert!(half.iter().all(|q| q.0.is_finite() && q.1.is_finite()));
    }
}

#[test]
fn partial_t_reveals_from_the_cusp_by_arc_length() {
    let r = run(0.0, 100.0);
    let part = brace(0.0, &r, 0.25).unwrap();
    let full = brace(0.0, &r, 1.0).unwrap();
    for (p, f) in part.halves.iter().zip(&full.halves) {
        assert_eq!(p[0], f[0], "reveal starts at the cusp tip");
        let frac = poly_len(p) / poly_len(f);
        let ease = 1.0 - 0.75_f32 * 0.75;
        assert!((frac - ease).abs() < 0.02, "revealed {frac}, eased t {ease}");
    }
}

#[test]
fn reveal_handles_edge_cases() {
    let a = (0.0, 0.0);
    let b = (10.0, 0.0);
    assert!(leading(&[], 0.5).is_empty());
    assert!(leading(&[a], 0.5).is_empty());
    assert!(leading(&[a, b], 0.0).is_empty());
    assert!(leading(&[a, b], f32::NAN).is_empty());
    assert!(leading(&[a, a], 0.5).is_empty(), "zero-length path draws nothing");
    assert_eq!(leading(&[a, b], 1.0), vec![a, b]);
    assert_eq!(leading(&[a, b], 0.5), vec![a, (5.0, 0.0)]);
}

#[test]
fn a_reveal_walks_whole_segments_first() {
    assert_eq!(
        revealed(&[100, 0, 100, 200], Some(5_000)),
        Reveal::Upto { whole: 2, into: 1_000_000, of: 1_000_000 }
    );
    assert_eq!(
        revealed(&[100, 300], Some(5_000)),
        Reveal::Upto { whole: 1, into: 1_000_000, of: 3_000_000 }
    );
}

#[test]
fn a_bulk_verb_is_reported_only_where_it_is_offered() {
    let all = BulkOut { start: true, stop: true, clear: true };
    assert_eq!(bulk_bar(false, false, all), BulkOut { start: false, stop: false, clear: true });
    assert_eq!(bulk_bar(true, false, all), BulkOut { start: false, stop: true, clear: true });
    assert_eq!(bulk_bar(false, true, all), BulkOut { start: true, stop: false, clear: true });
    let none = BulkOut { start: false, stop: false, clear: false };
    assert_eq!(bulk_bar(true, true, none), none);
    assert_eq!(bulk_word(0), "none selected");
    assert_eq!(bulk_word(2), "selected");
}
