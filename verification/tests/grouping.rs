//! Grouping files by folder.

use tazamun_gui::grouping::{group_files, sort_indices, top_segment, Group, SortMode, ROOT_NAME};

fn share(g: &Group) -> f32 {
    g.share() as f32 / 1_000_000.0
}

fn group_caption(count: usize, size_text: &str, share: f32) -> String {
    let millionths = if share.is_finite() {
        Some((share * 1_000_000.0).round() as i64)
    } else {
        None
    };
    tazamun_gui::grouping::group_caption(count, size_text, millionths)
}

fn f(path: &str, size: u64) -> (String, u64) {
    (path.to_string(), size)
}

fn named(groups: &[Group]) -> Vec<&str> {
    groups.iter().map(|g| g.name.as_str()).collect()
}

fn group<'a>(groups: &'a [Group], name: &str) -> &'a Group {
    match groups.iter().find(|g| g.name == name) {
        Some(g) => g,
        None => panic!("missing group {name:?} in {:?}", named(groups)),
    }
}

#[test]
fn top_segment_splits_on_first_separator() {
    assert_eq!(top_segment("a/b.txt"), "a");
    assert_eq!(top_segment("a\\b.txt"), "a");
    assert_eq!(top_segment("docs/deep/nested/file.txt"), "docs");
    assert_eq!(top_segment("file.txt"), "");
    assert_eq!(top_segment(""), "");
    assert_eq!(top_segment("/leading"), "");
    assert_eq!(top_segment("\\leading"), "");
    assert_eq!(top_segment("x/y\\z"), "x");
    assert_eq!(top_segment("p\\q/r"), "p");
}

#[test]
fn root_files_bucket_under_root_name() {
    let files = [
        f("readme.md", 10),
        f("docs/guide.md", 20),
        f("notes.txt", 30),
        f("docs/api.md", 40),
        f("/odd", 5),
    ];
    let groups = group_files(&files, SortMode::Name);
    assert_eq!(groups.len(), 2);

    let root = group(&groups, ROOT_NAME);
    assert_eq!(root.indices.len(), 3);
    assert_eq!(root.bytes, 45);

    let docs = group(&groups, "docs");
    assert_eq!(docs.indices.len(), 2);
    assert_eq!(docs.bytes, 60);
}

#[test]
fn shares_sum_to_one_and_collapse_to_zero() {
    let files = [
        f("a/one", 1),
        f("b/two", 2),
        f("c/three", 3),
        f("root", 4),
        f("a/four", 90),
    ];
    let groups = group_files(&files, SortMode::Size);
    let sum: f32 = groups.iter().map(share).sum();
    assert!((sum - 1.0).abs() < 1e-5, "shares summed to {sum}");
    assert!(groups.iter().all(|g| (0.0..=1.0).contains(&share(g))));

    let a = group(&groups, "a");
    assert_eq!(a.bytes, 91);
    assert!((share(a) - 91.0 / 100.0).abs() < 1e-5);

    let empty_bytes = [f("a/one", 0), f("b/two", 0), f("root", 0)];
    let groups = group_files(&empty_bytes, SortMode::Name);
    assert_eq!(groups.len(), 3);
    assert!(groups.iter().all(|g| share(g) == 0.0));
    assert!(groups.iter().all(|g| g.bytes == 0));
}

#[test]
fn name_sort_is_case_insensitive() {
    let files = [
        f("Beta/x", 1),
        f("alpha/y", 1),
        f("Gamma/z", 1),
        f("delta/w", 1),
    ];
    let groups = group_files(&files, SortMode::Name);
    assert_eq!(named(&groups), vec!["alpha", "Beta", "delta", "Gamma"]);
}

#[test]
fn name_sort_orders_indices_case_insensitively() {
    let files = [
        f("docs/Zebra.md", 1),
        f("docs/apple.md", 1),
        f("docs/Mango.md", 1),
    ];
    let groups = group_files(&files, SortMode::Name);
    let docs = group(&groups, "docs");
    let paths: Vec<&str> = docs.indices.iter().map(|&i| files[i].0.as_str()).collect();
    assert_eq!(
        paths,
        vec!["docs/apple.md", "docs/Mango.md", "docs/Zebra.md"]
    );
}

#[test]
fn size_sort_is_largest_first_then_name() {
    let files = [
        f("small/a", 10),
        f("Big/b", 500),
        f("tie/c", 100),
        f("Ally/d", 100),
    ];
    let groups = group_files(&files, SortMode::Size);
    assert_eq!(named(&groups), vec!["Big", "Ally", "tie", "small"]);
    assert_eq!(groups[0].bytes, 500);
    assert_eq!(groups[3].bytes, 10);
}

#[test]
fn size_sort_orders_indices_largest_first_then_path() {
    let files = [
        f("d/small.bin", 5),
        f("d/huge.bin", 900),
        f("d/Zed.bin", 50),
        f("d/apex.bin", 50),
    ];
    let groups = group_files(&files, SortMode::Size);
    let d = group(&groups, "d");
    let paths: Vec<&str> = d.indices.iter().map(|&i| files[i].0.as_str()).collect();
    assert_eq!(
        paths,
        vec!["d/huge.bin", "d/apex.bin", "d/Zed.bin", "d/small.bin"]
    );
}

#[test]
fn every_file_appears_exactly_once_with_valid_indices() {
    let files = [
        f("a/1", 3),
        f("root", 7),
        f("b/2", 11),
        f("a/3", 13),
        f("a/1", 17),
        f("b/4", 0),
        f("c\\5", 1),
    ];
    for sort in [SortMode::Name, SortMode::Size] {
        let groups = group_files(&files, sort);
        let mut seen: Vec<usize> = groups
            .iter()
            .flat_map(|g| g.indices.iter())
            .copied()
            .collect();
        assert!(seen.iter().all(|&i| i < files.len()), "index out of range");
        seen.sort_unstable();
        assert_eq!(seen, (0..files.len()).collect::<Vec<_>>(), "sort {sort:?}");

        for g in &groups {
            let want: u64 = g.indices.iter().map(|&i| files[i].1).sum();
            assert_eq!(g.bytes, want, "group {} bytes", g.name);
        }
    }
}

#[test]
fn duplicate_paths_are_kept_as_separate_entries() {
    let files = [f("a/dup", 5), f("a/dup", 5), f("a/dup", 5)];
    let groups = group_files(&files, SortMode::Name);
    assert_eq!(groups.len(), 1);
    assert_eq!(groups[0].indices.len(), 3);
    assert_eq!(groups[0].bytes, 15);
}

#[test]
fn empty_input_yields_empty_vec() {
    for sort in [SortMode::Name, SortMode::Size] {
        assert!(group_files(&[], sort).is_empty(), "sort {sort:?}");
    }
}

#[test]
fn default_sort_mode_is_name() {
    assert_eq!(SortMode::default(), SortMode::Name);
}

#[test]
fn caption_singular_and_plural() {
    assert_eq!(group_caption(1, "4 KB", 0.5), "1 file · 4 KB · 50%");
    assert_eq!(group_caption(0, "0 B", 0.0), "0 files · 0 B · 0%");
    assert_eq!(group_caption(3, "1.2 MB", 0.41), "3 files · 1.2 MB · 41%");
}

#[test]
fn caption_rounds_and_clamps_percent() {
    assert_eq!(group_caption(2, "x", 0.414), "2 files · x · 41%");
    assert_eq!(group_caption(2, "x", 0.416), "2 files · x · 42%");
    assert_eq!(group_caption(2, "x", 0.006), "2 files · x · 1%");
    assert_eq!(group_caption(2, "x", 0.004), "2 files · x · 0%");
    assert_eq!(group_caption(2, "x", 1.0), "2 files · x · 100%");
    assert_eq!(group_caption(2, "x", 0.125), "2 files · x · 13%");
    assert_eq!(group_caption(2, "x", 0.375), "2 files · x · 38%");
    assert_eq!(group_caption(2, "x", 3.7), "2 files · x · 100%");
    assert_eq!(group_caption(2, "x", -0.5), "2 files · x · 0%");
}

#[test]
fn caption_non_finite_share_renders_zero() {
    assert_eq!(group_caption(1, "x", f32::NAN), "1 file · x · 0%");
    assert_eq!(group_caption(1, "x", f32::INFINITY), "1 file · x · 0%");
    assert_eq!(group_caption(1, "x", f32::NEG_INFINITY), "1 file · x · 0%");
}

/// Paths that differ in case alone still have one order, however they are
/// listed.
#[test]
fn the_listed_order_never_decides_between_two_paths() {
    let files = [f("d/x", 5), f("d/X", 5), f("d/a", 1), f("d/A", 9)];
    for (sort, want) in [(SortMode::Name, vec![3, 2, 1, 0]), (SortMode::Size, vec![3, 1, 0, 2])] {
        for listed in [[0, 1, 2, 3], [3, 2, 1, 0], [1, 0, 3, 2], [2, 0, 3, 1]] {
            let mut indices = listed.to_vec();
            sort_indices(&mut indices, &files, sort);
            assert_eq!(indices, want, "{sort:?} {listed:?}");
        }
    }
}

#[test]
fn a_share_is_counted_in_whole_millionths() {
    let files = [f("a/one", 1), f("b/two", 1), f("c/three", 1)];
    let groups = group_files(&files, SortMode::Name);
    let shares: Vec<i64> = groups.iter().map(|g| g.share()).collect();
    assert_eq!(shares, [333_333, 333_333, 333_333]);

    let files = [f("a/one", 91), f("root", 9)];
    let groups = group_files(&files, SortMode::Name);
    assert_eq!(group(&groups, "a").share(), 910_000);
    assert_eq!(group(&groups, ROOT_NAME).share(), 90_000);
}

#[test]
fn the_only_group_has_the_whole_share() {
    let groups = group_files(&[f("a/one", 7), f("a/two", 8)], SortMode::Name);
    assert_eq!(groups[0].share(), 1_000_000);
    let huge = group_files(&[f("a/one", u64::MAX), f("b/two", u64::MAX)], SortMode::Name);
    assert!(huge.iter().all(|g| g.share() == 1_000_000));
}

#[test]
fn the_caption_of_a_group_rounds_its_exact_share() {
    let files = [f("a/one", 4_999_999_999), f("b/two", 995_000_000_001)];
    let groups = group_files(&files, SortMode::Name);
    let caption = |name: &str| {
        let g = group(&groups, name);
        tazamun_gui::grouping::group_caption(g.indices.len(), "x", Some(g.share()))
    };
    assert_eq!(caption("a"), "1 file · x · 0%");
    assert_eq!(caption("b"), "1 file · x · 100%");
    let files = [f("a/one", 1), f("b/two", 199)];
    let groups = group_files(&files, SortMode::Name);
    let a = group(&groups, "a");
    assert_eq!(a.share(), 5_000);
    assert_eq!(
        tazamun_gui::grouping::group_caption(1, "x", Some(a.share())),
        "1 file · x · 1%"
    );
}

#[test]
fn a_group_can_be_kept_as_a_copy() {
    let groups = group_files(&[f("a/one", 3), f("root", 1)], SortMode::Name);
    let kept = groups.clone();
    assert_eq!(format!("{kept:?}"), format!("{groups:?}"));
}
