//! The sentences the window says, with the numbers and names put in.

use tazamun_gui::copy::{
    audit_truncated, conflict_discard_body, conflict_mine_body, files_page, files_truncated,
    group_share, history_truncated, invite_roles, invite_ttls, menu_spoken, menu_update_install,
    menubar_folio, peer_lifetime, plural, precondition_title, precondition_why, prune_ages,
    prune_body, prune_preview, refused_pull_progress, restore_body, role_cannot_edit, stale_for,
    toast_paused_deferred, transfer_meta, update_applied, update_failed, update_offer,
    working_step, PRUNE_AGE_DEFAULT,
};

#[test]
fn the_offered_choices_are_in_order() {
    assert_eq!(invite_roles(), vec!["editor", "viewer", "archive"]);
    let ttls = invite_ttls();
    assert_eq!(ttls.len(), 4);
    assert_eq!(ttls[0], ("1 hour", Some(3_600_000)));
    assert_eq!(ttls[3], ("never", None));
    let ages = prune_ages();
    assert_eq!(
        ages,
        vec![("7 days", 604_800_000), ("30 days", 2_592_000_000), ("90 days", 7_776_000_000)]
    );
    assert!(ages.iter().any(|a| a.1 == PRUNE_AGE_DEFAULT));
}

#[test]
fn a_cut_list_names_both_counts() {
    assert!(files_truncated(500, 12_000).starts_with("showing the first 500 of 12000 files"));
    assert!(history_truncated(20, 21).starts_with("showing the 20 most recent of 21 versions"));
    assert!(audit_truncated(0, u64::MAX as usize)
        .starts_with("showing the 0 most recent of 18446744073709551615 entries"));
}

#[test]
fn a_destructive_body_names_what_goes() {
    let b = conflict_discard_body("plan (preserved).md");
    assert!(b.starts_with("This deletes the quarantined copy plan (preserved).md and keeps"));
    assert!(b.ends_with("cannot be undone."));
    let m = conflict_mine_body("plan.md", "plan (preserved).md");
    assert!(m.contains("written over plan.md and published"));
    assert!(m.contains("(plan (preserved).md) is then deleted"));
    let r = restore_body("plan.md", 7, "4 KB");
    assert!(r.starts_with("plan.md goes back to version 7 (4 KB)."));
    let p = prune_body(3, "12 MB");
    assert!(p.starts_with("3 preserved copies (12 MB) are older"));
}

#[test]
fn a_prune_of_nothing_says_so() {
    assert_eq!(prune_preview(0, "0 B"), "nothing is older than the cutoff");
    assert_eq!(prune_preview(2, "8 KB"), "2 copies · 8 KB");
}

#[test]
fn a_deferred_pause_and_resume_differ_in_one_word() {
    let p = toast_paused_deferred(true);
    let r = toast_paused_deferred(false);
    assert!(p.starts_with("paused — "));
    assert!(r.starts_with("resumed — "));
    assert_eq!(p["paused".len()..], r["resumed".len()..]);
}

#[test]
fn a_role_is_named_in_its_refusal() {
    assert!(role_cannot_edit("viewer").starts_with("this folder is joined as viewer, which"));
}

#[test]
fn a_peer_without_a_direct_path_has_no_second_line() {
    assert_eq!(peer_lifetime("1 MB", "2 MB", None), "lifetime — sent 1 MB, received 2 MB");
    assert_eq!(
        peer_lifetime("1 MB", "2 MB", Some(400)),
        "lifetime — sent 1 MB, received 2 MB\ndirect path found in 0.4s"
    );
}

#[test]
fn each_precondition_has_its_own_words() {
    assert_eq!(precondition_title("REACHABILITY"), "No peer is reachable");
    assert_eq!(precondition_title("FRESHNESS"), "This copy is not up to date yet");
    assert_eq!(precondition_title("LEASE"), "Someone else holds the pen");
    assert_eq!(precondition_title("ROLE"), "This folder does not allow edits");
    assert_eq!(precondition_title("lease"), "This folder does not allow edits");
    let whys: Vec<&str> =
        ["REACHABILITY", "FRESHNESS", "LEASE", "ROLE"].iter().map(|p| precondition_why(p)).collect();
    for (i, a) in whys.iter().enumerate() {
        for b in &whys[i + 1..] {
            assert_ne!(a, b);
        }
    }
}

#[test]
fn progress_is_spoken_in_whole_numbers() {
    assert_eq!(refused_pull_progress(41), "this path is 41% pulled");
    assert_eq!(transfer_meta(3, 0, None), "3 queued · 0 resuming");
    assert_eq!(
        transfer_meta(0, 2, Some("1 MB".to_string())),
        "0 queued · 2 resuming · capped at 1 MB/s"
    );
    assert_eq!(working_step("rekeying", "Notes", None), "rekeying Notes");
    assert_eq!(working_step("rekeying", "Notes", Some((2, 3))), "rekeying Notes — step 2 of 3");
}

#[test]
fn a_stale_session_counts_seconds_then_minutes() {
    assert_eq!(
        stale_for(59),
        "this session last answered 59s ago — showing the last good read"
    );
    assert_eq!(
        stale_for(60),
        "this session last answered 1m ago — showing the last good read"
    );
    assert_eq!(
        stale_for(179),
        "this session last answered 2m ago — showing the last good read"
    );
}

#[test]
fn a_count_takes_the_form_of_its_noun() {
    assert_eq!(plural(1, "copy", "copies"), "1 copy");
    assert_eq!(plural(0, "copy", "copies"), "0 copies");
    assert_eq!(group_share(1, Some(500_000)), "1 file · 50%");
    assert_eq!(group_share(2, None), "2 files · 0%");
}

#[test]
fn a_page_of_the_index_is_counted_from_one() {
    assert_eq!(files_page(0, 0, 0), "no file matches");
    assert_eq!(files_page(900, 0, 12), "12 matching — past the last page");
    assert_eq!(files_page(0, 12, 12), "12 matching");
    assert_eq!(files_page(500, 5, 10), "10 matching — past the last page");
    assert_eq!(files_page(10, 5, 10), "10 matching — past the last page");
    assert_eq!(files_page(9, 5, 10), "10–10 of 10 matching");
    assert_eq!(files_page(usize::MAX, 5, 10), "10 matching — past the last page");
    assert_eq!(files_page(0, 50, 120), "1–50 of 120 matching");
    assert_eq!(files_page(100, 50, 120), "101–120 of 120 matching");
}

#[test]
fn the_bar_numbers_its_pages() {
    assert_eq!(menubar_folio(0), Some("I"));
    assert_eq!(menubar_folio(3), Some("IV"));
    assert_eq!(menubar_folio(4), None);
    assert_eq!(menu_spoken("Session"), "Session menu");
}

#[test]
fn an_update_names_its_versions() {
    assert_eq!(menu_update_install("1.4.0"), "Install 1.4.0");
    assert_eq!(update_offer("1.3.0", "1.4.0"), "1.4.0 is available — this window runs 1.3.0");
    assert_eq!(
        update_applied("1.4.0"),
        "1.4.0 is installed and takes effect on the next start"
    );
    assert_eq!(update_failed("timed out"), "the check did not finish: timed out");
}

/// The seconds of a direct path are written as a double divided by a thousand
/// would be, to the last half.
#[test]
fn a_direct_path_is_told_in_seconds() {
    let told = |ms: u64| peer_lifetime("a", "b", Some(ms));
    let want = |ms: u64| {
        let secs = ms as f64 / 1000.0;
        format!("lifetime — sent a, received b\ndirect path found in {secs:.1}s")
    };
    assert!(told(1_234).ends_with("found in 1.2s"));
    assert!(told(0).ends_with("found in 0.0s"));
    for ms in 0..40_000u64 {
        assert_eq!(told(ms), want(ms), "{ms} ms");
    }
    // Halves at every size, and what no double can hold.
    let mut ms: u64 = 50;
    while ms < u64::MAX / 3 {
        for near in [ms - 50, ms - 1, ms, ms + 1, ms + 50, ms + 100] {
            assert_eq!(told(near), want(near), "{near} ms");
        }
        ms = ms / 50 * 75 + 50;
    }
    for ms in [(1 << 53) - 1, 1 << 53, (1 << 53) + 1, u64::MAX - 1024, u64::MAX - 1, u64::MAX] {
        assert_eq!(told(ms), want(ms), "{ms} ms");
    }
}
