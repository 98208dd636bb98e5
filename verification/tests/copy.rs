//! The sentences of the window.

use tazamun_gui::copy::{attention, files_page, standing, Attention, Standing};

fn group_share(files: usize, share: f32) -> String {
    let millionths = if share.is_finite() {
        Some((share * 1_000_000.0).round() as i64)
    } else {
        None
    };
    tazamun_gui::copy::group_share(files, millionths)
}

fn base() -> Standing {
    Standing {
        running: true,
        strict: true,
        files: 5,
        held_by_you: 0,
        held_by_peers: 0,
        conflicts: 0,
        peers_online: 1,
        peers_total: 1,
    }
}

#[test]
fn a_stopped_session_says_so_first() {
    let s = Standing {
        running: false,
        ..base()
    };
    assert!(standing(&s).starts_with("This session is stopped"));
    assert_eq!(attention(&s), vec![Attention::Stopped]);
}

#[test]
fn a_quiet_session_needs_nothing() {
    assert!(attention(&base()).is_empty());
    assert_eq!(
        standing(&base()),
        "5 files, nothing is held, in step with 1 peer."
    );
}

#[test]
fn one_file_is_not_pluralised() {
    let s = Standing { files: 1, ..base() };
    assert!(standing(&s).starts_with("1 file,"), "{}", standing(&s));
}

#[test]
fn custody_names_both_sides() {
    let s = Standing {
        held_by_you: 2,
        held_by_peers: 1,
        ..base()
    };
    let t = standing(&s);
    assert!(t.contains("you hold 2 files"), "{t}");
    assert!(t.contains("1 file is held elsewhere"), "{t}");
}

#[test]
fn an_unreachable_mesh_is_stated_and_flagged() {
    let s = Standing {
        peers_online: 0,
        peers_total: 2,
        ..base()
    };
    assert!(
        standing(&s).contains("no peer is reachable"),
        "{}",
        standing(&s)
    );
    assert!(attention(&s).contains(&Attention::NoPeers));
}

#[test]
fn easy_mode_does_not_warn_about_reachability() {
    let s = Standing {
        strict: false,
        peers_online: 0,
        peers_total: 2,
        ..base()
    };
    assert!(!attention(&s).contains(&Attention::NoPeers));
}

#[test]
fn a_solo_session_is_not_reported_as_unreachable() {
    let s = Standing {
        peers_online: 0,
        peers_total: 0,
        ..base()
    };
    assert!(
        standing(&s).contains("no peer has joined yet"),
        "{}",
        standing(&s)
    );
    assert!(!attention(&s).contains(&Attention::NoPeers));
}

#[test]
fn conflicts_outrank_everything_else_present() {
    let s = Standing {
        conflicts: 2,
        held_by_you: 1,
        peers_online: 0,
        peers_total: 1,
        ..base()
    };
    assert_eq!(attention(&s).first(), Some(&Attention::Conflicts(2)));
}

#[test]
fn every_attention_carries_a_line_and_a_verb() {
    for a in [
        Attention::Conflicts(1),
        Attention::NoPeers,
        Attention::Unpublished(1),
        Attention::Stopped,
    ] {
        assert!(!a.line().trim().is_empty());
        assert!(a.verb().is_some_and(|v| !v.trim().is_empty()));
    }
}

#[test]
fn a_partially_reachable_mesh_reports_the_fraction() {
    let s = Standing {
        peers_online: 1,
        peers_total: 3,
        ..base()
    };
    assert!(
        standing(&s).contains("1 of 3 peers reachable"),
        "{}",
        standing(&s)
    );
}

#[test]
fn a_full_result_set_is_not_described_as_a_page() {
    assert_eq!(files_page(0, 12, 12), "12 matching");
}

#[test]
fn a_partial_page_names_its_slice_one_based() {
    assert_eq!(files_page(0, 200, 4812), "1–200 of 4812 matching");
    assert_eq!(files_page(200, 200, 4812), "201–400 of 4812 matching");
}

#[test]
fn the_last_page_stops_at_the_total() {
    assert_eq!(files_page(4800, 12, 4812), "4801–4812 of 4812 matching");
}

#[test]
fn no_matches_says_so_plainly() {
    assert_eq!(files_page(0, 0, 0), "no file matches");
}

#[test]
fn an_overshot_offset_does_not_invert_the_range() {
    let s = files_page(500, 0, 10);
    assert!(!s.contains("501–"), "{s}");
}

#[test]
fn a_share_is_a_whole_percent_beside_a_file_count() {
    assert_eq!(group_share(1, 0.5), "1 file · 50%");
    assert_eq!(group_share(3, 0.41), "3 files · 41%");
}

#[test]
fn zero_files_is_plural() {
    assert_eq!(group_share(0, 0.0), "0 files · 0%");
}

#[test]
fn the_percentage_rounds_half_away_from_zero() {
    assert_eq!(group_share(2, 0.414), "2 files · 41%");
    assert_eq!(group_share(2, 0.416), "2 files · 42%");
    assert_eq!(group_share(2, 0.125), "2 files · 13%");
    assert_eq!(group_share(2, 0.375), "2 files · 38%");
}

#[test]
fn a_small_share_still_rounds_to_something_honest() {
    assert_eq!(group_share(2, 0.006), "2 files · 1%");
    assert_eq!(group_share(2, 0.004), "2 files · 0%");
}

#[test]
fn a_share_is_clamped_to_its_range() {
    assert_eq!(group_share(2, 1.0), "2 files · 100%");
    assert_eq!(group_share(2, 3.7), "2 files · 100%");
    assert_eq!(group_share(2, -0.5), "2 files · 0%");
}

#[test]
fn a_non_finite_share_reads_as_zero() {
    for bad in [f32::NAN, f32::INFINITY, f32::NEG_INFINITY] {
        assert_eq!(group_share(1, bad), "1 file · 0%");
    }
}
