//! What the window remembers.

use tazamun_gui::prefs::{DEFAULT_TAB, MAX_SESSION_LEN, MAX_TAB_LEN};

const SCALE_MIN: f32 = tazamun_gui::a11y::SCALE_MIN as f32 / 10_000.0;
const SCALE_MAX: f32 = tazamun_gui::a11y::SCALE_MAX as f32 / 10_000.0;
const SCALE_DEFAULT: f32 = tazamun_gui::a11y::SCALE_DEFAULT as f32 / 10_000.0;

const MIN_WINDOW: [f32; 2] = [
    tazamun_gui::prefs::MIN_WINDOW_W as f32 / 100.0,
    tazamun_gui::prefs::MIN_WINDOW_H as f32 / 100.0,
];
const MAX_WINDOW: [f32; 2] = [
    tazamun_gui::prefs::MAX_WINDOW as f32 / 100.0,
    tazamun_gui::prefs::MAX_WINDOW as f32 / 100.0,
];

#[derive(Debug, Clone, PartialEq)]
struct Prefs {
    text_scale: f32,
    sort_by_size: bool,
    last_tab: String,
    last_session: Option<String>,
    window: Option<[f32; 2]>,
    maximized: bool,
}

fn parts(v: f32, per: f32) -> Option<i32> {
    if v.is_finite() {
        Some((v * per).round() as i32)
    } else {
        None
    }
}

fn inward(p: &Prefs) -> tazamun_gui::prefs::Prefs {
    tazamun_gui::prefs::Prefs {
        text_scale: parts(p.text_scale, 10_000.0),
        sort_by_size: p.sort_by_size,
        last_tab: p.last_tab.clone(),
        last_session: p.last_session.clone(),
        window: p.window.map(|[w, h]| tazamun_gui::prefs::Size {
            w: parts(w, 100.0),
            h: parts(h, 100.0),
        }),
        maximized: p.maximized,
    }
}

fn outward(p: tazamun_gui::prefs::Prefs) -> Prefs {
    Prefs {
        text_scale: p.text_scale.unwrap() as f32 / 10_000.0,
        sort_by_size: p.sort_by_size,
        last_tab: p.last_tab,
        last_session: p.last_session,
        window: p.window.map(|s| [s.w.unwrap() as f32 / 100.0, s.h.unwrap() as f32 / 100.0]),
        maximized: p.maximized,
    }
}

impl Default for Prefs {
    fn default() -> Self {
        outward(tazamun_gui::prefs::Prefs::default())
    }
}

fn approx(a: f32, b: f32) -> bool {
    (a - b).abs() < 1e-6
}

fn hostile() -> Vec<Prefs> {
    let scales = [
        f32::NAN,
        f32::INFINITY,
        f32::NEG_INFINITY,
        0.0,
        -1.0,
        1e30,
        SCALE_MIN,
        SCALE_MAX,
        1.25,
    ];
    let windows = [
        None,
        Some([f32::NAN, 600.0]),
        Some([900.0, f32::INFINITY]),
        Some([0.0, 0.0]),
        Some([-1200.0, -800.0]),
        Some([1e9, 1e9]),
        Some([10.0, 10.0]),
        Some([1180.0, 760.0]),
    ];
    let long_tab = "x".repeat(4096);
    let tabs: [&str; 5] = ["", "files", "\u{7}bell", "tab\nname", &long_tab];
    let sessions = [
        None,
        Some(String::new()),
        Some("   ".to_string()),
        Some("/home/u/p\u{0}roj".to_string()),
        Some("x".repeat(MAX_SESSION_LEN + 1)),
        Some("/home/u/proj".to_string()),
    ];

    let mut out = Vec::new();
    for (i, scale) in scales.iter().enumerate() {
        for (j, window) in windows.iter().enumerate() {
            out.push(Prefs {
                text_scale: *scale,
                sort_by_size: i % 2 == 0,
                last_tab: tabs[(i + j) % tabs.len()].to_string(),
                last_session: sessions[(i + j) % sessions.len()].clone(),
                window: *window,
                maximized: j % 2 == 0,
            });
        }
    }
    out
}

fn sanitized(p: &Prefs) -> Prefs {
    let mut c = inward(p);
    c.sanitize();
    outward(c)
}

#[test]
fn default_is_already_sane() {
    let d = Prefs::default();
    assert_eq!(sanitized(&d), d);
    assert!(approx(d.text_scale, SCALE_DEFAULT));
    assert_eq!(d.last_tab, DEFAULT_TAB);
    assert_eq!(d.last_session, None);
    assert_eq!(d.window, None);
    assert!(!d.sort_by_size);
    assert!(!d.maximized);
}

#[test]
fn sanitize_is_idempotent() {
    for p in hostile() {
        let once = sanitized(&p);
        let twice = sanitized(&once);
        assert_eq!(once, twice, "not idempotent for {p:?}");
    }
}

#[test]
fn sanitize_leaves_the_booleans_alone() {
    for (sort, max) in [(true, true), (true, false), (false, true), (false, false)] {
        let p = Prefs {
            sort_by_size: sort,
            maximized: max,
            text_scale: f32::NAN,
            ..Prefs::default()
        };
        let c = sanitized(&p);
        assert_eq!(c.sort_by_size, sort);
        assert_eq!(c.maximized, max);
    }
}

#[test]
fn text_scale_non_finite_falls_back_to_default() {
    for bad in [f32::NAN, f32::INFINITY, f32::NEG_INFINITY] {
        let c = sanitized(&Prefs {
            text_scale: bad,
            ..Prefs::default()
        });
        assert!(
            approx(c.text_scale, SCALE_DEFAULT),
            "{bad} did not fall back"
        );
        assert!(c.text_scale.is_finite());
    }
}

#[test]
fn text_scale_zero_and_negative_clamp_to_min() {
    for bad in [0.0, -0.0, -1.0, -1e30] {
        let c = sanitized(&Prefs {
            text_scale: bad,
            ..Prefs::default()
        });
        assert!(approx(c.text_scale, SCALE_MIN), "{bad} did not clamp up");
    }
}

/// The range ends at 2.2, so that 2.0 is still within it.
#[test]
fn text_scale_absurdly_large_clamps_to_max() {
    let c = sanitized(&Prefs {
        text_scale: 2.0,
        ..Prefs::default()
    });
    assert!(approx(c.text_scale, 2.0), "2.0 is no absurd scale");
    assert!(approx(SCALE_MAX, 2.2));
    for bad in [2.5, 1e6, 1e30, f32::MAX] {
        let c = sanitized(&Prefs {
            text_scale: bad,
            ..Prefs::default()
        });
        assert!(approx(c.text_scale, SCALE_MAX), "{bad} did not clamp down");
    }
}

#[test]
fn text_scale_in_range_survives_untouched() {
    for good in [SCALE_MIN, 1.0, 1.25, SCALE_MAX] {
        let c = sanitized(&Prefs {
            text_scale: good,
            ..Prefs::default()
        });
        assert!(approx(c.text_scale, good));
    }
}

#[test]
fn window_none_stays_none() {
    assert_eq!(sanitized(&Prefs::default()).window, None);
}

#[test]
fn window_non_finite_in_either_axis_is_dropped() {
    for bad in [
        [f32::NAN, 600.0],
        [900.0, f32::NAN],
        [f32::INFINITY, 600.0],
        [900.0, f32::NEG_INFINITY],
        [f32::NAN, f32::NAN],
    ] {
        let c = sanitized(&Prefs {
            window: Some(bad),
            ..Prefs::default()
        });
        assert_eq!(c.window, None, "{bad:?} survived");
    }
}

#[test]
fn window_zero_or_negative_is_dropped() {
    for bad in [[0.0, 0.0], [0.0, 600.0], [900.0, 0.0], [-1200.0, -800.0]] {
        let c = sanitized(&Prefs {
            window: Some(bad),
            ..Prefs::default()
        });
        assert_eq!(c.window, None, "{bad:?} survived");
    }
}

#[test]
fn window_below_the_floor_clamps_up() {
    let c = sanitized(&Prefs {
        window: Some([10.0, 4.0]),
        ..Prefs::default()
    });
    assert_eq!(c.window, Some(MIN_WINDOW));
}

#[test]
fn window_larger_than_any_display_clamps_down() {
    for bad in [[1e9, 1e9], [f32::MAX, f32::MAX], [99999.0, 99999.0]] {
        let c = sanitized(&Prefs {
            window: Some(bad),
            ..Prefs::default()
        });
        assert_eq!(c.window, Some(MAX_WINDOW), "{bad:?} was not clamped");
    }
}

#[test]
fn window_in_range_survives_untouched() {
    let size = [1180.0, 760.0];
    let c = sanitized(&Prefs {
        window: Some(size),
        ..Prefs::default()
    });
    assert_eq!(c.window, Some(size));
}

#[test]
fn last_tab_empty_falls_back_to_default() {
    let c = sanitized(&Prefs {
        last_tab: String::new(),
        ..Prefs::default()
    });
    assert_eq!(c.last_tab, DEFAULT_TAB);
}

#[test]
fn last_tab_overlong_falls_back_to_default() {
    for len in [MAX_TAB_LEN + 1, 1024, 1_000_000] {
        let c = sanitized(&Prefs {
            last_tab: "a".repeat(len),
            ..Prefs::default()
        });
        assert_eq!(c.last_tab, DEFAULT_TAB, "length {len} survived");
    }
    let edge = "a".repeat(MAX_TAB_LEN);
    let c = sanitized(&Prefs {
        last_tab: edge.clone(),
        ..Prefs::default()
    });
    assert_eq!(c.last_tab, edge);
}

#[test]
fn last_tab_with_control_characters_falls_back_to_default() {
    for bad in [
        "files\n",
        "\u{0}files",
        "fi\tles",
        "\u{1b}[31mfiles",
        "files\u{7f}",
        "\u{202e}selif",
    ] {
        let c = sanitized(&Prefs {
            last_tab: bad.to_string(),
            ..Prefs::default()
        });
        assert_eq!(c.last_tab, DEFAULT_TAB, "{bad:?} survived");
    }
}

#[test]
fn last_tab_with_odd_but_harmless_shape_falls_back() {
    for bad in ["two words", "../files", "files.tab", "tab:1"] {
        let c = sanitized(&Prefs {
            last_tab: bad.to_string(),
            ..Prefs::default()
        });
        assert_eq!(c.last_tab, DEFAULT_TAB, "{bad:?} survived");
    }
}

#[test]
fn last_tab_unknown_but_well_formed_is_kept() {
    for good in ["files", "conflicts", "some_future_tab", "tab-9"] {
        let c = sanitized(&Prefs {
            last_tab: good.to_string(),
            ..Prefs::default()
        });
        assert_eq!(c.last_tab, good);
    }
}

#[test]
fn last_session_blank_is_dropped() {
    for bad in ["", "   ", "\t\n"] {
        let c = sanitized(&Prefs {
            last_session: Some(bad.to_string()),
            ..Prefs::default()
        });
        assert_eq!(c.last_session, None, "{bad:?} survived");
    }
}

#[test]
fn last_session_overlong_is_dropped() {
    for len in [MAX_SESSION_LEN + 1, 100_000] {
        let c = sanitized(&Prefs {
            last_session: Some("/".to_string() + &"a".repeat(len)),
            ..Prefs::default()
        });
        assert_eq!(c.last_session, None, "length {len} survived");
    }
}

#[test]
fn last_session_with_control_characters_is_dropped() {
    for bad in [
        "/home/u/pr\u{0}oj",
        "/home/u/proj\n",
        "/home\u{1b}[2Ju/proj",
    ] {
        let c = sanitized(&Prefs {
            last_session: Some(bad.to_string()),
            ..Prefs::default()
        });
        assert_eq!(c.last_session, None, "{bad:?} survived");
    }
}

#[test]
fn last_session_ordinary_path_is_kept() {
    for good in [
        "/home/u/proj",
        "C:\\Users\\u\\proj",
        "/home/u/مشروع",
        "/home/u/with space",
    ] {
        let c = sanitized(&Prefs {
            last_session: Some(good.to_string()),
            ..Prefs::default()
        });
        assert_eq!(c.last_session.as_deref(), Some(good));
    }
}

#[test]
fn a_file_that_cannot_be_read_gives_the_default() {
    let p = outward(tazamun_gui::prefs::parse(None));
    assert_eq!(p, Prefs::default());
}

#[test]
fn what_was_read_is_held_to_its_ranges() {
    let wild = Prefs {
        text_scale: 1e30,
        window: Some([1e9, -4.0]),
        last_tab: "a\nb".to_string(),
        ..Prefs::default()
    };
    let p = outward(tazamun_gui::prefs::parse(Some(inward(&wild))));
    assert!(approx(p.text_scale, SCALE_MAX));
    assert_eq!(p.window, None);
    assert_eq!(p.last_tab, DEFAULT_TAB);
}

#[test]
fn what_is_written_is_clean_and_leaves_the_original_alone() {
    let kept = Prefs {
        text_scale: 1.25,
        sort_by_size: true,
        last_tab: "conflicts".to_string(),
        last_session: Some("/home/u/proj".to_string()),
        window: Some([1400.0, 900.0]),
        maximized: true,
    };
    let given = inward(&kept);
    assert_eq!(outward(tazamun_gui::prefs::clean(&given)), kept);
    let mut bad = inward(&kept);
    bad.last_tab = String::new();
    assert_eq!(tazamun_gui::prefs::clean(&bad).last_tab, DEFAULT_TAB);
    assert_eq!(bad.last_tab, "");
}

#[test]
fn the_file_lies_below_the_configuration_directory() {
    assert_eq!(tazamun_gui::prefs::path(), vec!["tazamun".to_string(), "gui.json".to_string()]);
}

#[test]
fn a_long_arabic_path_is_measured_in_bytes() {
    let fits = "م".repeat(MAX_SESSION_LEN / 2);
    let over = "م".repeat(MAX_SESSION_LEN / 2 + 1);
    assert!(tazamun_gui::prefs::is_session_path(&fits));
    assert!(!tazamun_gui::prefs::is_session_path(&over));
}

#[test]
fn preferences_compare_by_what_they_hold() {
    let kept = inward(&Prefs::default());
    let mut other = kept.clone();
    assert!(kept == other);
    other.maximized = !other.maximized;
    assert!(kept != other);
}
