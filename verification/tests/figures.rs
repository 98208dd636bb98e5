//! Splitting, aligning and dating figures.

use tazamun_gui::figures::{ago, align, count, split, value_width, Figure};

fn fig(value: &str, unit: &str) -> Figure {
    Figure {
        value: value.to_string(),
        unit: unit.to_string(),
    }
}

#[test]
fn split_size_with_space() {
    assert_eq!(split("12.4 MB"), fig("12.4", "MB"));
    assert_eq!(split("1.5 KB"), fig("1.5", "KB"));
    assert_eq!(split("512 B"), fig("512", "B"));
}

#[test]
fn split_handles_spaced_and_unspaced_units() {
    assert_eq!(split("900 ms"), fig("900", "ms"));
    assert_eq!(split("900ms"), fig("900", "ms"));
    assert_eq!(split("5s"), fig("5", "s"));
    assert_eq!(split("42m"), fig("42", "m"));
    assert_eq!(split("3h"), fig("3", "h"));
}

#[test]
fn split_bare_number_has_no_unit() {
    assert_eq!(split("7"), fig("7", ""));
    assert_eq!(split("0"), fig("0", ""));
    assert_eq!(split("1024"), fig("1024", ""));
}

#[test]
fn split_empty_string_is_empty_both_sides() {
    assert_eq!(split(""), fig("", ""));
    assert_eq!(split("   "), fig("", ""));
}

#[test]
fn split_unit_only_keeps_whole_input_as_unit() {
    assert_eq!(split("MB"), fig("", "MB"));
    assert_eq!(split("files"), fig("", "files"));
    assert_eq!(split("unknown"), fig("", "unknown"));
}

#[test]
fn split_leading_minus_joins_the_value() {
    assert_eq!(split("-3 KB"), fig("-3", "KB"));
    assert_eq!(split("-12.5%"), fig("-12.5", "%"));
    assert_eq!(split("-7"), fig("-7", ""));
}

#[test]
fn split_sign_without_digits_is_not_a_value() {
    assert_eq!(split("—"), fig("", "—"));
    assert_eq!(split("-"), fig("", "-"));
    assert_eq!(split("-abc"), fig("", "-abc"));
    assert_eq!(split("- 5"), fig("", "- 5"));
}

#[test]
fn split_keeps_thousands_separators_in_the_value() {
    assert_eq!(split("1,024 files"), fig("1,024", "files"));
    assert_eq!(split("1,234,567 B"), fig("1,234,567", "B"));
}

#[test]
fn split_separator_needs_a_digit_on_both_sides() {
    assert_eq!(split("3. seconds"), fig("3", ". seconds"));
    assert_eq!(split("12."), fig("12", "."));
    assert_eq!(split("5,"), fig("5", ","));
    assert_eq!(split(".5 MB"), fig("", ".5 MB"));
    assert_eq!(split(",5"), fig("", ",5"));
}

#[test]
fn split_multibyte_unit_is_intact() {
    assert_eq!(split("12.4 ميغابايت"), fig("12.4", "ميغابايت"));
    assert_eq!(split("3 ملفات"), fig("3", "ملفات"));
    assert_eq!(split("250 µs"), fig("250", "µs"));
    assert_eq!(split("21°C"), fig("21", "°C"));
}

#[test]
fn split_non_ascii_digits_are_not_numbers() {
    assert_eq!(split("١٢٣ ملفات"), fig("", "١٢٣ ملفات"));
}

#[test]
fn split_trims_surrounding_whitespace() {
    assert_eq!(split("  12.4 MB  "), fig("12.4", "MB"));
    assert_eq!(split("\t7\n"), fig("7", ""));
    assert_eq!(split("  MB "), fig("", "MB"));
    assert_eq!(split("12.4\u{2009}MB"), fig("12.4", "MB"));
    assert_eq!(split("12.4\u{00a0}MB"), fig("12.4", "MB"));
}

#[test]
fn split_preserves_internal_unit_whitespace() {
    assert_eq!(split("3 files here"), fig("3", "files here"));
    assert_eq!(split("2 days ago"), fig("2", "days ago"));
}

#[test]
fn split_handles_house_formatter_output() {
    assert_eq!(split("1.2 MB/s"), fig("1.2", "MB/s"));
    assert_eq!(split("2.0 KB/s"), fig("2.0", "KB/s"));
    assert_eq!(split("512 B/s"), fig("512", "B/s"));
    assert_eq!(split("0 B"), fig("0", "B"));
    assert_eq!(split("5.0 TB"), fig("5.0", "TB"));
}

#[test]
fn split_never_loses_characters() {
    for text in [
        "12.4 MB",
        "900ms",
        "7",
        "",
        "MB",
        "-3 KB",
        "1,024 files",
        "—",
        "12.4 ميغابايت",
        "  padded  ",
        "3. seconds",
    ] {
        let f = split(text);
        let joined: String = f.value.chars().chain(f.unit.chars()).collect();
        let want: String = text.trim().chars().filter(|c| !c.is_whitespace()).collect();
        let got: String = joined.chars().filter(|c| !c.is_whitespace()).collect();
        assert_eq!(got, want, "input {text:?}");
    }
}

#[test]
fn value_width_of_empty_slice_is_zero() {
    assert_eq!(value_width(&[]), 0);
}

#[test]
fn value_width_of_a_single_figure_is_its_own_width() {
    assert_eq!(value_width(&[fig("12.4", "MB")]), 4);
    assert_eq!(value_width(&[fig("7", "")]), 1);
    assert_eq!(value_width(&[fig("", "—")]), 0);
}

#[test]
fn value_width_takes_the_widest() {
    let column = [
        fig("7", "B"),
        fig("1,024", "B"),
        fig("12.4", "MB"),
        fig("", "—"),
    ];
    assert_eq!(value_width(&column), 5);
}

#[test]
fn value_width_counts_chars_not_bytes() {
    let arabic = fig("١٢٣", "ملفات");
    assert_eq!(arabic.value.len(), 6);
    assert_eq!(value_width(&[arabic]), 3);
    assert_eq!(value_width(&[fig("−1", "%")]), 2);
}

#[test]
fn align_pads_narrower_values_on_the_left() {
    assert_eq!(align(&fig("7", "B"), 5), "    7 B");
    assert_eq!(align(&fig("12.4", "MB"), 5), " 12.4 MB");
}

#[test]
fn align_at_exact_width_adds_no_padding() {
    assert_eq!(align(&fig("1,024", "files"), 5), "1,024 files");
    assert_eq!(align(&fig("7", ""), 1), "7");
}

#[test]
fn align_never_truncates_a_wider_value() {
    assert_eq!(align(&fig("1,048,576", "B"), 3), "1,048,576 B");
    assert_eq!(align(&fig("12.4", "MB"), 0), "12.4 MB");
    assert_eq!(align(&fig("-3", "KB"), 1), "-3 KB");
}

#[test]
fn align_omits_the_space_when_there_is_no_unit() {
    assert_eq!(align(&fig("7", ""), 4), "   7");
    assert!(!align(&fig("7", ""), 4).ends_with(' '));
    assert_eq!(align(&fig("", ""), 3), "   ");
}

#[test]
fn align_puts_a_valueless_figure_in_the_unit_column() {
    let width = 5;
    let dash = align(&fig("", "—"), width);
    let size = align(&fig("12.4", "MB"), width);
    assert_eq!(dash.chars().position(|c| c == '—'), Some(width + 1));
    assert_eq!(size.chars().position(|c| c == 'M'), Some(width + 1));
}

#[test]
fn align_counts_chars_not_bytes_when_padding() {
    let out = align(&fig("١٢٣", "ملفات"), 5);
    assert_eq!(out.chars().take_while(|&c| c == ' ').count(), 2);
    assert_eq!(out.chars().count(), 2 + 3 + 1 + 5);
}

#[test]
fn align_lines_a_real_column_up_on_its_units() {
    let column: Vec<Figure> = ["512 B", "1.5 KB", "12.4 MB", "1,024 B", "—"]
        .into_iter()
        .map(split)
        .collect();
    let width = value_width(&column);
    assert_eq!(width, 5);

    let rows: Vec<String> = column.iter().map(|f| align(f, width)).collect();
    for (f, row) in column.iter().zip(&rows) {
        let unit_start = row.chars().count() - f.unit.chars().count();
        assert_eq!(unit_start, width + 1, "row {row:?} misaligned");
    }
    assert_eq!(rows[0], "  512 B");
    assert_eq!(rows[1], "  1.5 KB");
    assert_eq!(rows[2], " 12.4 MB");
    assert_eq!(rows[3], "1,024 B");
    assert_eq!(rows[4], "      —");
}

#[test]
fn ago_zero_gap_is_just_now() {
    assert_eq!(ago(0, 0), "just now");
    assert_eq!(ago(1_700_000_000, 1_700_000_000), "just now");
}

#[test]
fn ago_just_now_boundary() {
    let now = 1_000_000;
    assert_eq!(ago(now - 1, now), "just now");
    assert_eq!(ago(now - 30, now), "just now");
    assert_eq!(ago(now - 59, now), "just now");
    assert_eq!(ago(now - 60, now), "1 minute ago");
}

#[test]
fn ago_minute_boundaries_floor() {
    let now = 1_000_000;
    assert_eq!(ago(now - 60, now), "1 minute ago");
    assert_eq!(ago(now - 61, now), "1 minute ago");
    assert_eq!(ago(now - 119, now), "1 minute ago");
    assert_eq!(ago(now - 120, now), "2 minutes ago");
    assert_eq!(ago(now - 300, now), "5 minutes ago");
    assert_eq!(ago(now - 3599, now), "59 minutes ago");
}

#[test]
fn ago_hour_boundaries_floor() {
    let now = 1_000_000;
    assert_eq!(ago(now - 3600, now), "1 hour ago");
    assert_eq!(ago(now - 3601, now), "1 hour ago");
    assert_eq!(ago(now - 7199, now), "1 hour ago");
    assert_eq!(ago(now - 7200, now), "2 hours ago");
    assert_eq!(ago(now - 3 * 3600, now), "3 hours ago");
    assert_eq!(ago(now - 86399, now), "23 hours ago");
}

#[test]
fn ago_day_boundaries_floor() {
    let now = 10_000_000;
    assert_eq!(ago(now - 86400, now), "1 day ago");
    assert_eq!(ago(now - 86401, now), "1 day ago");
    assert_eq!(ago(now - 2 * 86400, now), "2 days ago");
    assert_eq!(ago(now - 172_799, now), "1 day ago");
    assert_eq!(ago(now - 30 * 86400, now), "30 days ago");
}

#[test]
fn ago_future_reads_just_now() {
    assert_eq!(ago(100, 0), "just now");
    assert_eq!(ago(u64::MAX, 0), "just now");
    assert_eq!(ago(1_700_000_060, 1_700_000_000), "just now");
}

#[test]
fn ago_multi_year_gap_does_not_overflow() {
    assert_eq!(ago(0, 730 * 86400), "730 days ago");
    assert_eq!(ago(1_600_000_000, 1_700_000_000), "1157 days ago");
    let far = ago(0, u64::MAX);
    assert!(far.ends_with(" days ago"), "got {far:?}");
}

#[test]
fn ago_singular_forms_have_no_s() {
    let now = 10_000_000;
    assert_eq!(ago(now - 60, now), "1 minute ago");
    assert_eq!(ago(now - 3600, now), "1 hour ago");
    assert_eq!(ago(now - 86400, now), "1 day ago");
    for text in [
        ago(now - 60, now),
        ago(now - 3600, now),
        ago(now - 86400, now),
    ] {
        assert!(!text.contains("s ago"), "{text:?} pluralised a 1");
    }
}

#[test]
fn ago_is_lowercase_and_ends_in_ago_or_just_now() {
    let now = 10_000_000u64;
    for gap in [0u64, 1, 59, 60, 3599, 3600, 86399, 86400, 999_999] {
        let text = ago(now - gap, now);
        assert_eq!(text, text.to_lowercase(), "{text:?} is not lowercase");
        assert!(
            text == "just now" || text.ends_with(" ago"),
            "unexpected phrasing {text:?}"
        );
    }
}

#[test]
fn count_zero_one_many() {
    assert_eq!(count(0, "file"), "0 files");
    assert_eq!(count(1, "file"), "1 file");
    assert_eq!(count(2, "file"), "2 files");
    assert_eq!(count(3, "conflict"), "3 conflicts");
    assert_eq!(count(1_024, "file"), "1024 files");
}

#[test]
fn count_every_documented_noun() {
    for noun in [
        "file", "folder", "peer", "version", "conflict", "change", "lease", "session",
        "minute", "hour", "day",
    ] {
        assert_eq!(count(1, noun), format!("1 {noun}"));
        assert_eq!(count(0, noun), format!("0 {noun}s"));
        assert_eq!(count(7, noun), format!("7 {noun}s"));
    }
}

#[test]
fn count_matches_the_existing_caption_voice() {
    assert_eq!(count(1, "file"), "1 file");
    assert_eq!(count(0, "file"), "0 files");
    assert_eq!(count(3, "file"), "3 files");
}

#[test]
fn an_aligned_figure_splits_again() {
    for text in ["12.4 MB", "7", "—", "", "-3 KB", "3. seconds", "900ms", "- 4", "5-3"] {
        let figure = split(text);
        for width in [0, 1, 4, 9] {
            assert_eq!(split(&align(&figure, width)), figure, "{text:?} in {width}");
        }
    }
}
