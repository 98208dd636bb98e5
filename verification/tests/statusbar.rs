//! The strip at the foot of the window.

use tazamun_gui::statusbar::{content_right, rail_h, strip_sentence, Status, BUSY, IDLE, SEAL_INSET, SEAL_R, STRIP_H};
use tazamun_gui::theme::STEP_META;

fn scales() -> impl Iterator<Item = i64> {
    (14..=44).map(|k| k * 500)
}

fn line_box(step: i32, scale: i64) -> i64 {
    i64::from(step) * scale * 3 / 20_000
}

fn status() -> Status<'static> {
    Status {
        sessions: 4,
        running: 2,
        peers_online: 3,
        conflicts: 1,
        busy: true,
        note: Some("notes.txt"),
        version: None,
    }
}

#[test]
fn sentence_reads_the_whole_strip() {
    assert_eq!(
        strip_sentence(&status()),
        "status: 4 sessions, 2 running, 3 peers online, 1 preserved copy, working, notes.txt"
    );
}

#[test]
fn sentence_drops_the_clause_the_strip_does_not_paint() {
    let quiet = Status {
        conflicts: 0,
        busy: false,
        note: None,
        version: None,
        ..status()
    };
    assert_eq!(
        strip_sentence(&quiet),
        "status: 4 sessions, 2 running, 3 peers online, idle"
    );
}

#[test]
fn sentence_singularizes_every_count() {
    let one = Status {
        sessions: 1,
        running: 1,
        peers_online: 1,
        conflicts: 1,
        busy: false,
        note: None,
        version: None,
    };
    assert_eq!(
        strip_sentence(&one),
        "status: 1 session, 1 running, 1 peer online, 1 preserved copy, idle"
    );
}

#[test]
fn sentence_holds_at_zero_and_at_an_empty_note() {
    let empty = Status {
        sessions: 0,
        running: 0,
        peers_online: 0,
        conflicts: 0,
        busy: false,
        note: Some("   "),
        version: None,
    };
    assert_eq!(
        strip_sentence(&empty),
        "status: 0 sessions, 0 running, 0 peers online, idle"
    );
}

#[test]
fn the_rail_clears_the_counts_painted_on_it() {
    for scale in scales() {
        let line = line_box(STEP_META, scale);
        let h = rail_h(line);
        assert!(
            h >= line,
            "a {line} line box does not fit a {h} rail at {scale}"
        );
        assert!(h >= i64::from(STRIP_H), "the rail dropped under its floor at {scale}");
    }
}

#[test]
fn the_rail_grows_with_the_text_scale() {
    let small = rail_h(line_box(STEP_META, 7_000));
    let large = rail_h(line_box(STEP_META, 22_000));
    assert_eq!(small, i64::from(STRIP_H), "small text still gets the house floor");
    assert!(large > small, "{small} to {large} is not a text scale");
}

#[test]
fn the_counts_stop_clear_of_the_seal() {
    assert!(
        content_right() >= SEAL_INSET + SEAL_R,
        "a count can be drawn under the seal"
    );
}

#[test]
fn busy_and_idle_are_both_spoken() {
    let busy = strip_sentence(&Status {
        busy: true,
        ..status()
    });
    let idle = strip_sentence(&Status {
        busy: false,
        ..status()
    });
    assert!(busy.contains(BUSY) && !busy.contains(IDLE));
    assert!(idle.contains(IDLE) && !idle.contains(BUSY));
}
