//! Selecting rows.

use tazamun_gui::selection::Selection;

fn ks(items: &[&str]) -> Vec<String> {
    items.iter().map(|s| s.to_string()).collect()
}

fn abcde() -> Vec<String> {
    ks(&["a", "b", "c", "d", "e"])
}

#[test]
fn default_selection_is_empty_with_no_anchor() {
    let s = Selection::default();
    assert!(s.is_empty());
    assert_eq!(s.len(), 0);
    assert!(!s.is_selected("a"));
    assert!(s.ordered(&abcde()).is_empty());
    assert!(s.runs(&abcde()).is_empty());
}

#[test]
fn plain_click_replaces_and_anchors() {
    let keys = abcde();
    let mut s = Selection::default();

    s.click(&keys, 1, false, false);
    assert_eq!(s.ordered(&keys), ks(&["b"]));

    s.click(&keys, 3, true, false);
    assert_eq!(s.ordered(&keys), ks(&["b", "d"]));
    s.click(&keys, 4, false, false);
    assert_eq!(s.ordered(&keys), ks(&["e"]));

    s.click(&keys, 2, false, true);
    assert_eq!(s.ordered(&keys), ks(&["c", "d", "e"]));
}

#[test]
fn ctrl_click_toggles_on_and_off() {
    let keys = abcde();
    let mut s = Selection::default();

    s.click(&keys, 1, true, false);
    assert_eq!(s.ordered(&keys), ks(&["b"]));

    s.click(&keys, 3, true, false);
    assert_eq!(s.ordered(&keys), ks(&["b", "d"]));

    s.click(&keys, 1, true, false);
    assert_eq!(s.ordered(&keys), ks(&["d"]));
    s.click(&keys, 3, true, false);
    assert!(s.is_empty());
}

#[test]
fn ctrl_click_moves_the_anchor() {
    let keys = abcde();
    let mut s = Selection::default();
    s.click(&keys, 0, false, false);
    s.click(&keys, 3, true, false);
    assert_eq!(s.ordered(&keys), ks(&["a", "d"]));

    s.click(&keys, 4, false, true);
    assert_eq!(s.ordered(&keys), ks(&["d", "e"]));
}

#[test]
fn ctrl_click_reanchors_even_when_deselecting() {
    let keys = abcde();
    let mut s = Selection::default();
    s.click(&keys, 0, false, false);
    s.click(&keys, 2, true, false);
    s.click(&keys, 2, true, false); // toggled c back off
    assert_eq!(s.ordered(&keys), ks(&["a"]));

    s.click(&keys, 4, false, true);
    assert_eq!(s.ordered(&keys), ks(&["c", "d", "e"]));
}

#[test]
fn shift_range_forward_from_anchor() {
    let keys = abcde();
    let mut s = Selection::default();
    s.click(&keys, 1, false, false);
    s.click(&keys, 3, false, true);
    assert_eq!(s.ordered(&keys), ks(&["b", "c", "d"]));
    assert_eq!(s.len(), 3);
}

#[test]
fn shift_range_backward_from_anchor() {
    let keys = abcde();
    let mut s = Selection::default();
    s.click(&keys, 3, false, false);
    s.click(&keys, 1, false, true);
    assert_eq!(s.ordered(&keys), ks(&["b", "c", "d"]));

    s.click(&keys, 3, false, true);
    assert_eq!(s.ordered(&keys), ks(&["d"]));
}

#[test]
fn shift_range_replaces_prior_selection() {
    let keys = abcde();
    let mut s = Selection::default();
    s.click(&keys, 0, false, false);
    s.click(&keys, 4, true, false);
    assert_eq!(s.ordered(&keys), ks(&["a", "e"]));

    s.click(&keys, 2, false, true);
    assert_eq!(s.ordered(&keys), ks(&["c", "d", "e"]));
}

#[test]
fn successive_shift_clicks_keep_the_same_anchor() {
    let keys = abcde();
    let mut s = Selection::default();
    s.click(&keys, 2, false, false);

    s.click(&keys, 4, false, true);
    assert_eq!(s.ordered(&keys), ks(&["c", "d", "e"]));

    s.click(&keys, 0, false, true);
    assert_eq!(s.ordered(&keys), ks(&["a", "b", "c"]));

    s.click(&keys, 3, false, true);
    assert_eq!(s.ordered(&keys), ks(&["c", "d"]));
}

#[test]
fn shift_without_anchor_acts_as_plain_click() {
    let keys = abcde();
    let mut s = Selection::default();

    s.click(&keys, 2, false, true);
    assert_eq!(s.ordered(&keys), ks(&["c"]));

    s.click(&keys, 4, false, true);
    assert_eq!(s.ordered(&keys), ks(&["c", "d", "e"]));
}

#[test]
fn ctrl_shift_without_anchor_adds_only_the_clicked_row() {
    let keys = ks(&["a", "b", "c", "d"]);
    let mut s = Selection::default();
    s.click(&keys, 0, true, false);
    s.click(&keys, 2, true, false);
    assert_eq!(s.ordered(&keys), ks(&["a", "c"]));

    let shrunk = ks(&["a", "b", "d"]);
    assert!(s.retain_existing(&shrunk));
    assert_eq!(s.ordered(&shrunk), ks(&["a"]));

    s.click(&shrunk, 2, true, true);
    assert_eq!(s.ordered(&shrunk), ks(&["a", "d"]));

    s.click(&shrunk, 0, false, true);
    assert_eq!(s.ordered(&shrunk), ks(&["a", "b", "d"]));
}

#[test]
fn shift_after_anchor_key_removed_degrades_and_reanchors() {
    let keys = abcde();
    let mut s = Selection::default();
    s.click(&keys, 1, false, false); // anchor b
    assert_eq!(s.ordered(&keys), ks(&["b"]));

    let shrunk = ks(&["a", "c", "d", "e"]);
    assert!(s.retain_existing(&shrunk));
    assert!(s.is_empty());

    s.click(&shrunk, 3, false, true);
    assert_eq!(s.ordered(&shrunk), ks(&["e"]));

    s.click(&shrunk, 0, false, true);
    assert_eq!(s.ordered(&shrunk), ks(&["a", "c", "d", "e"]));
}

#[test]
fn ctrl_shift_adds_range_to_existing_selection() {
    let keys = abcde();
    let mut s = Selection::default();
    s.click(&keys, 0, false, false);
    s.click(&keys, 3, true, false); // anchor d
    assert_eq!(s.ordered(&keys), ks(&["a", "d"]));

    s.click(&keys, 1, true, true); // range b..=d, additive
    assert_eq!(s.ordered(&keys), ks(&["a", "b", "c", "d"]));
}

#[test]
fn ctrl_shift_keeps_anchor_for_further_ranges() {
    let keys = abcde();
    let mut s = Selection::default();
    s.click(&keys, 3, false, false); // anchor d
    s.click(&keys, 1, true, true);
    assert_eq!(s.ordered(&keys), ks(&["b", "c", "d"]));

    s.click(&keys, 4, true, true);
    assert_eq!(s.ordered(&keys), ks(&["b", "c", "d", "e"]));

    s.click(&keys, 4, false, true);
    assert_eq!(s.ordered(&keys), ks(&["d", "e"]));
}

#[test]
fn anchor_is_a_key_not_an_index() {
    let keys = abcde();
    let mut s = Selection::default();
    s.click(&keys, 1, false, false); // anchor b, at index 1

    let filtered = ks(&["b", "d", "e"]);
    s.click(&filtered, 2, false, true);
    assert_eq!(s.ordered(&filtered), ks(&["b", "d", "e"]));
}

#[test]
fn click_out_of_range_is_a_no_op() {
    let keys = ks(&["a", "b", "c"]);
    let mut s = Selection::default();
    s.click(&keys, 0, false, false);

    for (ctrl, shift) in [(false, false), (true, false), (false, true), (true, true)] {
        s.click(&keys, 3, ctrl, shift);
        s.click(&keys, usize::MAX, ctrl, shift);
    }
    assert_eq!(s.ordered(&keys), ks(&["a"]));

    s.click(&keys, 2, false, true);
    assert_eq!(s.ordered(&keys), ks(&["a", "b", "c"]));
}

#[test]
fn click_on_empty_keys_is_a_no_op() {
    let empty: Vec<String> = Vec::new();
    let mut s = Selection::default();
    for (ctrl, shift) in [(false, false), (true, false), (false, true), (true, true)] {
        s.click(&empty, 0, ctrl, shift);
    }
    assert!(s.is_empty());

    let keys = ks(&["a", "b"]);
    s.click(&keys, 1, false, false);
    s.click(&empty, 0, false, false);
    assert_eq!(s.ordered(&keys), ks(&["b"]));
}

#[test]
fn select_all_then_clear() {
    let keys = abcde();
    let mut s = Selection::default();
    s.click(&keys, 2, false, false);

    s.select_all(&keys);
    assert_eq!(s.len(), 5);
    assert_eq!(s.ordered(&keys), keys);
    assert!(keys.iter().all(|k| s.is_selected(k)));
    assert_eq!(s.runs(&keys), vec![(0, 4)]);

    s.click(&keys, 1, false, true);
    assert_eq!(s.ordered(&keys), ks(&["a", "b"]));

    s.select_all(&keys);
    s.clear();
    assert!(s.is_empty());
    assert_eq!(s.len(), 0);
    assert!(s.runs(&keys).is_empty());

    s.click(&keys, 3, false, true);
    assert_eq!(s.ordered(&keys), ks(&["d"]));
}

#[test]
fn select_all_on_empty_keys_clears() {
    let keys = abcde();
    let mut s = Selection::default();
    s.select_all(&keys);
    s.select_all(&[]);
    assert!(s.is_empty());

    s.click(&keys, 4, false, true);
    assert_eq!(s.ordered(&keys), ks(&["e"]));
}

#[test]
fn select_all_dedupes_repeated_keys() {
    let keys = ks(&["x", "y", "x"]);
    let mut s = Selection::default();
    s.select_all(&keys);
    assert_eq!(s.len(), 2);
    assert_eq!(s.ordered(&keys), ks(&["x", "y"]));
    assert_eq!(s.runs(&keys), vec![(0, 2)]);
}

#[test]
fn retain_existing_removes_missing_and_reports_true() {
    let keys = abcde();
    let mut s = Selection::default();
    s.select_all(&keys);

    let shrunk = ks(&["a", "c", "e"]);
    assert!(s.retain_existing(&shrunk));
    assert_eq!(s.len(), 3);
    assert_eq!(s.ordered(&shrunk), ks(&["a", "c", "e"]));
    assert!(!s.is_selected("b"));
    assert!(!s.is_selected("d"));
}

#[test]
fn retain_existing_with_nothing_missing_reports_false() {
    let keys = abcde();
    let mut s = Selection::default();
    s.click(&keys, 1, false, false);
    s.click(&keys, 3, true, false);

    assert!(!s.retain_existing(&keys));
    assert_eq!(s.ordered(&keys), ks(&["b", "d"]));

    let grown = ks(&["a", "b", "c", "d", "e", "f"]);
    assert!(!s.retain_existing(&grown));
    assert_eq!(s.ordered(&grown), ks(&["b", "d"]));
}

#[test]
fn retain_existing_removing_all_empties_selection() {
    let keys = abcde();
    let mut s = Selection::default();
    s.select_all(&keys);

    assert!(s.retain_existing(&[]));
    assert!(s.is_empty());
    assert!(!s.retain_existing(&[]));
}

#[test]
fn retain_existing_drops_dangling_anchor_alone() {
    let keys = abcde();
    let mut s = Selection::default();
    s.click(&keys, 0, false, false);
    s.click(&keys, 1, true, false);
    s.click(&keys, 1, true, false); // b deselected but still the anchor
    assert_eq!(s.ordered(&keys), ks(&["a"]));

    let shrunk = ks(&["a", "c", "d", "e"]);
    assert!(s.retain_existing(&shrunk));
    assert_eq!(s.ordered(&shrunk), ks(&["a"]));

    s.click(&shrunk, 3, false, true);
    assert_eq!(s.ordered(&shrunk), ks(&["e"]));
}

#[test]
fn retain_existing_keeps_a_live_anchor() {
    let keys = abcde();
    let mut s = Selection::default();
    s.click(&keys, 0, false, false);
    s.click(&keys, 1, true, false);
    s.click(&keys, 1, true, false); // anchor b, not selected

    assert!(!s.retain_existing(&keys));
    s.click(&keys, 2, false, true);
    assert_eq!(s.ordered(&keys), ks(&["b", "c"]));
}

#[test]
fn ordered_follows_display_order_not_insertion_order() {
    let keys = abcde();
    let mut s = Selection::default();
    s.click(&keys, 4, true, false);
    s.click(&keys, 0, true, false);
    s.click(&keys, 2, true, false);
    assert_eq!(s.ordered(&keys), ks(&["a", "c", "e"]));

    let reversed = ks(&["e", "d", "c", "b", "a"]);
    assert_eq!(s.ordered(&reversed), ks(&["e", "c", "a"]));
}

#[test]
fn ordered_skips_keys_absent_from_display() {
    let keys = abcde();
    let mut s = Selection::default();
    s.select_all(&keys);

    let filtered = ks(&["b", "d"]);
    assert_eq!(s.ordered(&filtered), ks(&["b", "d"]));
    assert_eq!(s.len(), 5);
    assert!(s.is_selected("a"));
    assert!(s.ordered(&[]).is_empty());
}

#[test]
fn ordered_yields_a_repeated_key_once() {
    let keys = ks(&["x", "y", "x", "z", "x"]);
    let mut s = Selection::default();
    s.click(&keys, 2, false, false);
    assert_eq!(s.len(), 1);
    assert_eq!(s.ordered(&keys), ks(&["x"]));

    s.click(&keys, 3, true, false);
    assert_eq!(s.ordered(&keys), ks(&["x", "z"]));
}

#[test]
fn duplicate_key_rows_select_together() {
    let keys = ks(&["x", "y", "x"]);
    let mut s = Selection::default();

    s.click(&keys, 2, false, false);
    assert!(s.is_selected("x"));
    assert_eq!(s.len(), 1);
    assert_eq!(s.runs(&keys), vec![(0, 0), (2, 2)]);

    s.click(&keys, 0, true, false);
    assert!(s.is_empty());
    assert!(s.runs(&keys).is_empty());
}

#[test]
fn duplicate_anchor_resolves_to_its_first_occurrence() {
    let keys = ks(&["x", "y", "x", "z"]);
    let mut s = Selection::default();
    s.click(&keys, 2, false, false); // anchored on key "x"

    s.click(&keys, 3, false, true);
    assert_eq!(s.ordered(&keys), ks(&["x", "y", "z"]));
    assert!(s.is_selected("y"));
}

#[test]
fn runs_empty_selection_and_empty_keys() {
    let keys = abcde();
    let mut s = Selection::default();
    assert!(s.runs(&keys).is_empty());
    assert!(s.runs(&[]).is_empty());

    s.select_all(&keys);
    assert!(s.runs(&[]).is_empty());
}

#[test]
fn runs_single_row() {
    let keys = abcde();
    let mut s = Selection::default();

    s.click(&keys, 0, false, false);
    assert_eq!(s.runs(&keys), vec![(0, 0)]);

    s.click(&keys, 2, false, false);
    assert_eq!(s.runs(&keys), vec![(2, 2)]);

    s.click(&keys, 4, false, false);
    assert_eq!(s.runs(&keys), vec![(4, 4)]);
}

#[test]
fn runs_all_selected_is_one_run() {
    let keys = abcde();
    let mut s = Selection::default();
    s.select_all(&keys);
    assert_eq!(s.runs(&keys), vec![(0, 4)]);

    let single = ks(&["only"]);
    let mut s = Selection::default();
    s.select_all(&single);
    assert_eq!(s.runs(&single), vec![(0, 0)]);
}

#[test]
fn runs_alternating_rows() {
    let keys = abcde();
    let mut s = Selection::default();
    s.click(&keys, 0, true, false);
    s.click(&keys, 2, true, false);
    s.click(&keys, 4, true, false);
    assert_eq!(s.runs(&keys), vec![(0, 0), (2, 2), (4, 4)]);
}

#[test]
fn runs_two_separated_blocks() {
    let keys = ks(&["a", "b", "c", "d", "e", "f", "g"]);
    let mut s = Selection::default();
    s.click(&keys, 0, false, false);
    s.click(&keys, 1, false, true); // a..=b
    s.click(&keys, 4, true, false);
    s.click(&keys, 6, true, true); // e..=g, additive
    assert_eq!(s.runs(&keys), vec![(0, 1), (4, 6)]);
    assert_eq!(s.ordered(&keys), ks(&["a", "b", "e", "f", "g"]));
}

#[test]
fn runs_ignore_selected_keys_absent_from_keys() {
    let keys = abcde();
    let mut s = Selection::default();
    s.select_all(&keys);

    let filtered = ks(&["a", "e"]);
    assert_eq!(s.runs(&filtered), vec![(0, 1)]);

    let gapped = ks(&["a", "unknown", "e"]);
    assert_eq!(s.runs(&gapped), vec![(0, 0), (2, 2)]);

    let unknown = ks(&["zz", "yy"]);
    assert!(s.runs(&unknown).is_empty());
}

#[test]
fn runs_are_ascending_and_within_bounds() {
    let keys = ks(&["a", "b", "c", "d", "e", "f"]);
    let mut s = Selection::default();
    s.click(&keys, 5, true, false);
    s.click(&keys, 1, true, false);
    s.click(&keys, 2, true, false);

    let runs = s.runs(&keys);
    assert_eq!(runs, vec![(1, 2), (5, 5)]);
    assert!(runs.iter().all(|&(lo, hi)| lo <= hi && hi < keys.len()));
    assert!(runs.windows(2).all(|w| w[0].1 < w[1].0));
}

#[test]
fn is_empty_tracks_len() {
    let keys = abcde();
    let mut s = Selection::default();
    assert!(s.is_empty());
    assert_eq!(s.len(), 0);

    s.click(&keys, 0, true, false);
    assert!(!s.is_empty());
    assert_eq!(s.len(), 1);

    s.click(&keys, 0, true, false);
    assert!(s.is_empty());
    assert_eq!(s.len(), 0);

    s.select_all(&keys);
    assert!(!s.is_empty());
    assert_eq!(s.len(), keys.len());
}

#[test]
fn equal_selections_print_alike_whatever_the_clicks() {
    let keys = ks(&["é", "b", "Z", "a"]);
    let mut one = Selection::default();
    for idx in [0, 1, 2, 3] {
        one.click(&keys, idx, true, false);
    }
    let mut other = Selection::default();
    for idx in [2, 0, 1, 3] {
        other.click(&keys, idx, true, false);
    }
    assert_eq!(format!("{one:?}"), format!("{other:?}"));
    let shown = format!("{one:?}");
    let places: Vec<Option<usize>> =
        ["\"Z\"", "\"a\"", "\"b\"", "\"é\""].iter().map(|k| shown.find(k)).collect();
    assert!(places.iter().all(|p| p.is_some()));
    assert!(places.windows(2).all(|w| w[0] < w[1]), "{shown}");

    one.click(&keys, 1, true, false);
    one.click(&keys, 1, true, false);
    other.click(&keys, 1, true, false);
    other.click(&keys, 1, true, false);
    assert_eq!(format!("{one:?}"), format!("{other:?}"));
}
