//! The link, the history and the rates in words.

use tazamun_gui::health::{
    grade_lit, rate_phrase, signal_sentence, FALLING, NO_RATE, RATE_IDLE, RECEIVING, RISING, STEADY,
};

fn samples(values: &[f32]) -> Vec<Option<i32>> {
    values
        .iter()
        .map(|v| {
            if v.is_finite() {
                Some((v * 10_000.0).round() as i32)
            } else {
                None
            }
        })
        .collect()
}

fn trend_sentence(values: &[f32]) -> String {
    tazamun_gui::health::trend_sentence(&samples(values))
}

fn trend_of(values: &[f32]) -> &'static str {
    tazamun_gui::health::trend_of(&samples(values))
}

#[test]
fn signal_sentence_names_every_grade_the_house_has() {
    assert_eq!(
        signal_sentence(grade_lit("Good")),
        "link good, 3 of 3"
    );
    assert_eq!(
        signal_sentence(grade_lit("Fair")),
        "link fair, 2 of 3"
    );
    assert_eq!(
        signal_sentence(grade_lit("Poor")),
        "link poor, 1 of 3"
    );
    assert_eq!(
        signal_sentence(grade_lit("Offline")),
        "link offline, 0 of 3"
    );
}

#[test]
fn signal_sentence_clamps_a_count_past_the_seal() {
    assert_eq!(signal_sentence(9), "link good, 3 of 3");
    assert_eq!(signal_sentence(u8::MAX), "link good, 3 of 3");
}

#[test]
fn trend_sentence_says_when_there_is_nothing_to_plot() {
    assert_eq!(trend_sentence(&[]), "round-trip history: no readings yet");
    assert_eq!(
        trend_sentence(&[0.4]),
        "round-trip history: one reading so far"
    );
}

#[test]
fn trend_sentence_reads_the_newest_against_the_peers_own_range() {
    let said = trend_sentence(&[0.0, 0.25, 0.5, 1.0]);
    assert_eq!(
        said,
        "round-trip history: 4 readings, latest 100 percent of its own range, rising"
    );
    assert!(!said.contains("ms") && !said.contains("millisecond"));
}

#[test]
fn trend_sentence_calls_a_flat_ring_steady() {
    assert_eq!(
        trend_sentence(&[0.5; 6]),
        "round-trip history: 6 readings, latest 50 percent of its own range, steady"
    );
}

#[test]
fn trend_sentence_reads_a_falling_trail() {
    let said = trend_sentence(&[1.0, 0.9, 0.2, 0.0]);
    assert!(said.ends_with("falling"), "{said}");
}

#[test]
fn trend_sentence_survives_nonsense_samples() {
    let unreadable = trend_sentence(&[f32::NAN; 4]);
    assert_eq!(
        unreadable,
        "round-trip history: 4 readings, latest 0 percent of its own range, steady"
    );
    let clamped = trend_sentence(&[0.0, 0.0, 5.0, 9.0]);
    assert!(clamped.contains("latest 100 percent"), "{clamped}");
    assert!(clamped.ends_with(RISING), "{clamped}");
    let mixed = trend_sentence(&[1.0, 1.0, f32::NAN, f32::NAN]);
    assert!(mixed.ends_with(FALLING), "{mixed}");
}

#[test]
fn trend_swing_needs_a_real_move() {
    assert_eq!(trend_of(&[0.50, 0.50, 0.55, 0.55]), STEADY);
    assert_eq!(trend_of(&[0.50, 0.50, 0.75, 0.75]), RISING);
    assert_eq!(trend_of(&[0.75, 0.75, 0.50, 0.50]), FALLING);
}

#[test]
fn rate_phrase_names_the_direction_and_the_unit() {
    assert_eq!(
        rate_phrase("1.2 MB/s", true),
        "sending 1.2 megabytes per second"
    );
    assert_eq!(
        rate_phrase("512 B/s", false),
        "receiving 512 bytes per second"
    );
}

#[test]
fn an_idle_direction_is_an_absence_not_a_zero() {
    assert_eq!(
        rate_phrase(NO_RATE, true),
        "sending nothing"
    );
    assert_eq!(
        rate_phrase(NO_RATE, false),
        format!("{RECEIVING} {RATE_IDLE}")
    );
}

#[test]
fn rate_phrase_passes_an_unexpected_caption_through() {
    assert_eq!(rate_phrase("", true), "sending nothing");
    assert_eq!(rate_phrase("  ", false), "receiving nothing");
    assert_eq!(rate_phrase("stalled", false), "receiving stalled");
}
