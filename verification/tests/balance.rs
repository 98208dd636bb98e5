//! The conflict scales.

use tazamun_gui::balance::{
    apparatus_h, beam_inset, card_h, lean, scales_sentence, Side, Verdict, BEAM_INSET, HANGER, LEVEL,
    MAX_DIP, PAN_BOWL, PAN_HALF, PIVOT_Y, STAND_H,
};
use tazamun_gui::theme::{SPACE_S, STEP_LABEL, STEP_META};

fn scales() -> impl Iterator<Item = i64> {
    (14..=44).map(|k| k * 500)
}

fn line_box(step: i32, scale: i64) -> i64 {
    i64::from(step) * scale * 3 / 20_000
}

fn kept(size: u64, size_text: &'static str) -> Side<'static> {
    Side {
        title: "preserved copy",
        size,
        size_text,
        when: "kept 2026-07-17 20:08",
        note: "edited while offline",
    }
}

fn live(size: u64, size_text: &'static str) -> Side<'static> {
    Side {
        title: "synced version",
        size,
        size_text,
        when: "in the folder now",
        note: "this is what your peers hold today",
    }
}

#[test]
fn sentence_reads_both_pans_and_the_verdict() {
    assert_eq!(
        scales_sentence(&kept(17, "17 B"), &live(1536, "1.5 KB")),
        "scales weighing two copies: \
         preserved copy, 17 bytes, kept 2026-07-17 20:08, edited while offline; \
         synced version, 1.5 kilobytes, in the folder now, this is what your peers hold today; \
         synced version is heavier"
    );
}

#[test]
fn sentence_names_the_heavier_side_either_way() {
    let heavier_left = scales_sentence(&kept(4096, "4.0 KB"), &live(17, "17 B"));
    assert!(
        heavier_left.ends_with("preserved copy is heavier"),
        "{heavier_left}"
    );
    let heavier_right = scales_sentence(&kept(17, "17 B"), &live(4096, "4.0 KB"));
    assert!(
        heavier_right.ends_with("synced version is heavier"),
        "{heavier_right}"
    );
}

#[test]
fn equal_weights_announce_a_level_beam() {
    let level = scales_sentence(&kept(17, "17 B"), &live(17, "17 B"));
    assert!(level.ends_with(LEVEL), "{level}");
    let nothing = scales_sentence(&kept(0, ""), &live(0, ""));
    assert!(nothing.ends_with(LEVEL), "{nothing}");
}

#[test]
fn a_missing_side_drops_its_weight_but_keeps_its_card() {
    let mut gone = live(0, "");
    gone.when = "";
    gone.note = "nothing is in the folder under this name";
    let said = scales_sentence(&kept(17, "17 B"), &gone);
    assert!(
        said.contains("synced version, nothing is in the folder under this name;"),
        "{said}"
    );
    assert!(said.ends_with("preserved copy is heavier"), "{said}");
}

#[test]
fn sentence_survives_a_side_with_nothing_on_it() {
    let blank = Side {
        title: "",
        size: 0,
        size_text: "",
        when: "",
        note: "",
    };
    assert_eq!(
        scales_sentence(&blank, &blank),
        "scales weighing two copies: both sides weigh the same"
    );
}

#[test]
fn the_cards_start_below_the_lowest_ink_the_apparatus_puts_down() {
    for scale in scales() {
        let caption = line_box(STEP_META, scale);
        let top = apparatus_h(caption);
        let ink = PIVOT_Y + MAX_DIP + HANGER + PAN_BOWL + SPACE_S;
        let caption_bottom = i64::from(ink) + caption;
        assert!(
            top > caption_bottom,
            "cards start at {top}, the weight ends at {caption_bottom}, at {scale}"
        );
        assert!(
            top > i64::from(PIVOT_Y + STAND_H),
            "cards start inside the stand at {scale}"
        );
    }
}

#[test]
fn the_apparatus_grows_with_the_text_scale() {
    let small = apparatus_h(line_box(STEP_META, 7_000));
    let large = apparatus_h(line_box(STEP_META, 22_000));
    assert!(large > small, "{small} to {large} is not a text scale");
}

#[test]
fn a_card_is_never_shorter_than_the_lines_in_it() {
    for scale in scales() {
        let title = line_box(STEP_LABEL, scale);
        let meta = line_box(STEP_META, scale);
        for note_lines in 1..=6 {
            let note = meta * note_lines;
            let h = card_h(title, meta, note);
            assert!(
                h > title + meta + note,
                "{note_lines} note lines at {scale}: {h} holds {}",
                title + meta + note
            );
        }
    }
    assert!(
        card_h(1_800, 1_600, 1_600 * 4) > card_h(1_800, 1_600, 1_600),
        "a wrapped note did not make the card taller"
    );
}

#[test]
fn the_figure_grows_with_everything_in_it() {
    let mut prev: Option<(i64, i64)> = None;
    for scale in scales() {
        let title = line_box(STEP_LABEL, scale);
        let meta = line_box(STEP_META, scale);
        let h = apparatus_h(meta) + card_h(title, meta, meta * 2);
        if let Some((was, before)) = prev {
            assert!(h > before, "figure flat from {was} to {scale}");
        }
        prev = Some((scale, h));
    }
}

#[test]
fn the_beam_yields_to_the_weight_written_under_it() {
    assert_eq!(beam_inset(0), i64::from(BEAM_INSET), "a short weight moves nothing");
    assert_eq!(
        beam_inset(i64::from(PAN_HALF)),
        i64::from(BEAM_INSET),
        "a weight narrower than the pan moves nothing"
    );
    let wide = i64::from(BEAM_INSET) * 3;
    assert!(
        beam_inset(wide) >= wide / 2,
        "a {wide} caption is drawn past the figure's edge"
    );
}

#[test]
fn the_beam_inset_survives_a_caption_it_cannot_measure() {
    assert_eq!(beam_inset(-1_000), i64::from(BEAM_INSET));
    assert_eq!(beam_inset(0), i64::from(BEAM_INSET));
}

#[test]
fn the_beam_never_leans_against_the_spoken_verdict() {
    for (l, r) in [(17u64, 1536u64), (1536, 17), (17, 17), (0, 0), (0, 1)] {
        let tilt = lean(l, r);
        let said = scales_sentence(&kept(l, "x"), &live(r, "y"));
        if l > r {
            assert!(said.ends_with("preserved copy is heavier"), "{l}/{r}: {said}");
            assert_ne!(tilt, Verdict::Right, "{l}/{r}: beam leans against the verdict");
        } else if l < r {
            assert!(said.ends_with("synced version is heavier"), "{l}/{r}: {said}");
            assert_ne!(tilt, Verdict::Left, "{l}/{r}: beam leans against the verdict");
        } else {
            assert!(said.ends_with(LEVEL), "{l}/{r}: {said}");
            assert_eq!(tilt, Verdict::Level, "{l}/{r}: beam is not level");
        }
    }
    assert_eq!(lean(0, 1), Verdict::Level);
    assert_eq!(lean(2, 1), Verdict::Left);
}
