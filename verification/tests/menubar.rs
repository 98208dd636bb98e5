//! The menus, and the bar that carries them.

use tazamun_gui::a11y;
use tazamun_gui::chrome;
use tazamun_gui::copy;
use tazamun_gui::geometry::Frame;
use tazamun_gui::headband::{self, Gutter, Plan, Rule, Rules, Stubs};
use tazamun_gui::menubar::{
    content_of, folio_of, rows, update_mark, update_rows, BarState, Item, Menu, MenuAction, Row,
    SessionState, Tone, Trigger,
};
use tazamun_gui::model::UpdateState;
use tazamun_gui::shortcuts::{self, chord_caps};
use tazamun_gui::theme;

fn hundredths(v: f32) -> Option<i32> {
    if v.is_finite() {
        Some((v * 100.0).round() as i32)
    } else {
        None
    }
}

/// Ten-thousandths of a text scale, or `None` for what is no number.
fn scale(v: f32) -> Option<i32> {
    v.is_finite().then_some((v * 10_000.0) as i32)
}

fn plan(widths: &[(Menu, f32)], gap: f32, more: f32, avail: f32, pinned: Option<Menu>) -> Plan {
    let widths: Vec<(Menu, i32)> = widths
        .iter()
        .map(|(m, w)| (*m, hundredths(*w).unwrap()))
        .collect();
    headband::plan(&widths, hundredths(gap), hundredths(more), hundredths(avail), pinned)
}

fn step_focus(ids: &[u64], focused: Option<u64>, step: isize) -> Option<u64> {
    headband::step_focus(ids, focused, step)
}

fn frame(left: f32, top: f32, w: f32, h: f32) -> Frame {
    let at = |v: f32| i64::from(hundredths(v).unwrap());
    Frame { left: at(left), top: at(top), right: at(left + w), bottom: at(top + h) }
}

fn compartment_rules(strip: Frame, word: Frame) -> Option<Rules> {
    headband::compartment_rules(strip, word)
}

fn open_notch(strip: Frame, bar: Frame) -> Option<Frame> {
    headband::open_notch(strip, bar)
}

fn separator_stubs(top: f32, foot: f32, r: f32) -> Option<Stubs> {
    let at = |v: f32| i64::from(hundredths(v).unwrap());
    headband::separator_stubs(at(top), at(foot), at(r))
}

fn bar_of(w: f32) -> Frame {
    Frame {
        left: 0,
        top: 0,
        right: i64::from(hundredths(w).unwrap()),
        bottom: i64::from(chrome::TITLEBAR_H),
    }
}

fn update(current: &str) -> UpdateState {
    UpdateState {
        current: current.to_owned(),
        ..Default::default()
    }
}

fn state<'a>(session: Option<SessionState<'a>>, update: &'a UpdateState) -> BarState<'a> {
    BarState {
        session,
        update,
        supervisor: false,
        mode: theme::Mode::Contrast,
        density: theme::Density::Regular,
        reduced_motion: false,
        text_scale: Some(a11y::SCALE_DEFAULT),
        reserve: 0,
    }
}

fn session(running: bool, paused: bool) -> SessionState<'static> {
    SessionState {
        running,
        paused,
        role: "editor",
        may_edit: true,
        conflicts: 0,
        marked_file: Some("notes/deed.md"),
    }
}

fn find(page: &[Row], action: MenuAction) -> Item {
    page.iter()
        .find_map(|r| match r {
            Row::Item(i) if i.action == action => Some(i.clone()),
            _ => None,
        })
        .unwrap_or_else(|| panic!("no item for {action:?}"))
}

fn notes(page: &[Row]) -> Vec<(String, Tone)> {
    page.iter()
        .filter_map(|r| match r {
            Row::Note { text, tone } => Some((text.clone(), *tone)),
            _ => None,
        })
        .collect()
}

#[test]
fn with_no_session_open_every_session_verb_says_so() {
    let u = update("0.1.9");
    let s = state(None, &u);
    let page = rows(Menu::Session, &s, 0);
    for action in [
        MenuAction::Start,
        MenuAction::Stop,
        MenuAction::Pause,
        MenuAction::Resume,
        MenuAction::OpenFolder,
        MenuAction::CopyPath,
        MenuAction::Rename,
    ] {
        let item = find(&page, action);
        assert_eq!(
            item.blocked.as_deref(),
            Some(copy::MENUBAR_NEEDS_SESSION),
            "{action:?}"
        );
    }
}

#[test]
fn a_running_session_can_be_stopped_but_not_started() {
    let u = update("0.1.9");
    let s = state(Some(session(true, false)), &u);
    let page = rows(Menu::Session, &s, 0);
    assert_eq!(
        find(&page, MenuAction::Start).blocked.as_deref(),
        Some(copy::MENUBAR_ALREADY_RUNNING)
    );
    assert!(find(&page, MenuAction::Stop).enabled());
}

#[test]
fn a_stopped_session_cannot_be_paused_or_resumed() {
    let u = update("0.1.9");
    let s = state(Some(session(false, false)), &u);
    let page = rows(Menu::Session, &s, 0);
    assert_eq!(
        find(&page, MenuAction::Pause).blocked.as_deref(),
        Some(copy::MENUBAR_NEEDS_RUNNING)
    );
    assert_eq!(
        find(&page, MenuAction::Resume).blocked.as_deref(),
        Some(copy::MENUBAR_NEEDS_RUNNING)
    );
    assert!(find(&page, MenuAction::Start).enabled());
}

#[test]
fn pause_and_resume_answer_the_paused_flag() {
    let u = update("0.1.9");
    let running = state(Some(session(true, false)), &u);
    let page = rows(Menu::Session, &running, 0);
    assert!(find(&page, MenuAction::Pause).enabled());
    assert_eq!(
        find(&page, MenuAction::Resume).blocked.as_deref(),
        Some(copy::MENUBAR_NOT_PAUSED)
    );

    let paused = state(Some(session(true, true)), &u);
    let page = rows(Menu::Session, &paused, 0);
    assert!(find(&page, MenuAction::Resume).enabled());
    assert_eq!(
        find(&page, MenuAction::Pause).blocked.as_deref(),
        Some(copy::MENUBAR_ALREADY_PAUSED)
    );
}

#[test]
fn a_viewer_cannot_rename_and_is_told_which_role_it_is() {
    let u = update("0.1.9");
    let viewer = SessionState {
        role: "viewer",
        may_edit: false,
        ..session(true, false)
    };
    let s = state(Some(viewer), &u);
    let item = find(&rows(Menu::Session, &s, 0), MenuAction::Rename);
    let why = item.blocked.unwrap_or_default();
    assert!(why.contains("viewer"), "{why}");
    assert_eq!(why, copy::role_cannot_edit("viewer"));
}

#[test]
fn renaming_needs_a_file_to_rename() {
    let u = update("0.1.9");
    let bare = SessionState {
        marked_file: None,
        ..session(true, false)
    };
    let s = state(Some(bare), &u);
    let item = find(&rows(Menu::Session, &s, 0), MenuAction::Rename);
    assert_eq!(item.blocked.as_deref(), Some(copy::MENUBAR_NEEDS_FILE));
}

#[test]
fn the_tools_that_need_a_daemon_refuse_a_stopped_session() {
    let u = update("0.1.9");
    let s = state(Some(session(false, false)), &u);
    let page = rows(Menu::Tools, &s, 0);
    for action in [MenuAction::Doctor, MenuAction::Dashboard, MenuAction::Gc] {
        assert_eq!(
            find(&page, action).blocked.as_deref(),
            Some(copy::MENUBAR_NEEDS_RUNNING),
            "{action:?}"
        );
    }
    assert!(find(&page, MenuAction::Rekey).enabled());
}

#[test]
fn pruning_is_refused_when_nothing_is_preserved() {
    let u = update("0.1.9");
    let clean = state(Some(session(true, false)), &u);
    assert_eq!(
        find(&rows(Menu::Tools, &clean, 0), MenuAction::Prune)
            .blocked
            .as_deref(),
        Some(copy::MENUBAR_NO_CONFLICTS)
    );

    let holding = SessionState {
        conflicts: 3,
        ..session(true, false)
    };
    let s = state(Some(holding), &u);
    assert!(find(&rows(Menu::Tools, &s, 0), MenuAction::Prune).enabled());
}

#[test]
fn the_supervisor_offers_the_verb_that_applies() {
    let u = update("0.1.9");
    let mut off = state(None, &u);
    off.supervisor = false;
    let item = find(
        &rows(Menu::Tools, &off, 0),
        MenuAction::Supervisor { install: true },
    );
    assert_eq!(item.label, copy::SUPERVISOR_INSTALL);
    assert!(item.enabled());

    let mut on = state(None, &u);
    on.supervisor = true;
    let item = find(
        &rows(Menu::Tools, &on, 0),
        MenuAction::Supervisor { install: false },
    );
    assert_eq!(item.label, copy::SUPERVISOR_REMOVE);
}

#[test]
fn exactly_one_choice_is_marked_in_every_group() {
    let u = update("0.1.9");
    let mut s = state(None, &u);
    s.mode = theme::Mode::Paper;
    s.density = theme::Density::Compact;
    s.reduced_motion = true;
    let page = rows(Menu::Display, &s, 0);

    assert!(find(&page, MenuAction::Palette(theme::Mode::Paper)).marked());
    assert!(!find(&page, MenuAction::Palette(theme::Mode::Night)).marked());
    assert!(find(&page, MenuAction::Density(theme::Density::Compact)).marked());
    assert!(find(&page, MenuAction::Motion { reduced: true }).marked());
    assert!(!find(&page, MenuAction::Motion { reduced: false }).marked());

    let marked = page
        .iter()
        .filter(|r| matches!(r, Row::Item(i) if i.marked()))
        .count();
    assert_eq!(marked, 3);
}

#[test]
fn the_text_steppers_stop_at_the_ends_of_the_scale() {
    let u = update("0.1.9");
    let mut top = state(None, &u);
    top.text_scale = Some(a11y::SCALE_MAX);
    let page = rows(Menu::Display, &top, 0);
    let bigger = find(&page, MenuAction::TextScale(a11y::SCALE_MAX));
    assert_eq!(bigger.blocked.as_deref(), Some(copy::MENUBAR_TEXT_AT_MAX));
    assert!(page.iter().any(|r| matches!(
        r,
        Row::Item(i) if i.action == MenuAction::TextScale(a11y::step_scale(Some(a11y::SCALE_MAX), false))
    )));

    let mut bottom = state(None, &u);
    bottom.text_scale = Some(a11y::SCALE_MIN);
    let page = rows(Menu::Display, &bottom, 0);
    assert_eq!(
        find(&page, MenuAction::TextScale(a11y::SCALE_MIN))
            .blocked
            .as_deref(),
        Some(copy::MENUBAR_TEXT_AT_MIN)
    );
}

#[test]
fn the_reset_is_refused_when_the_scale_has_not_moved() {
    let u = update("0.1.9");
    let s = state(None, &u);
    let item = find(
        &rows(Menu::Display, &s, 0),
        MenuAction::TextScale(a11y::SCALE_DEFAULT),
    );
    assert_eq!(item.blocked.as_deref(), Some(copy::MENUBAR_TEXT_AT_DEFAULT));
}

#[test]
fn the_text_section_head_carries_the_scale() {
    let u = update("0.1.9");
    let mut s = state(None, &u);
    s.text_scale = Some(12_500);
    let page = rows(Menu::Display, &s, 0);
    let value = page.iter().find_map(|r| match r {
        Row::Head { title, value } if *title == copy::MENUBAR_TEXT => value.clone(),
        _ => None,
    });
    assert_eq!(value.as_deref(), Some("125%"));
}

#[test]
fn an_out_of_range_scale_is_clamped_before_the_steppers_read_it() {
    let u = update("0.1.9");
    let mut wild = state(None, &u);
    wild.text_scale = scale(99.0);
    let page = rows(Menu::Display, &wild, 0);
    assert_eq!(
        find(&page, MenuAction::TextScale(a11y::SCALE_MAX))
            .blocked
            .as_deref(),
        Some(copy::MENUBAR_TEXT_AT_MAX)
    );

    let mut nan = state(None, &u);
    nan.text_scale = scale(f32::NAN);
    let page = rows(Menu::Display, &nan, 0);
    let value = page.iter().find_map(|r| match r {
        Row::Head { title, value } if *title == copy::MENUBAR_TEXT => value.clone(),
        _ => None,
    });
    assert_eq!(value.as_deref(), Some("100%"));
}

#[test]
fn an_unchecked_window_offers_the_check_and_says_it_has_not_run() {
    let u = update("0.1.9");
    let page = update_rows(&u, 0);
    let item = find(&page, MenuAction::CheckUpdate);
    assert_eq!(item.label, copy::MENU_UPDATE_CHECK);
    assert!(item.enabled());
    assert_eq!(
        notes(&page),
        vec![(copy::update_unchecked("0.1.9"), Tone::Muted)]
    );
    assert_eq!(update_mark(&u), None);
}

#[test]
fn a_check_in_flight_says_it_is_checking_and_refuses_a_second_one() {
    let mut u = update("0.1.9");
    u.busy = true;
    let page = update_rows(&u, 0);
    let item = find(&page, MenuAction::CheckUpdate);
    assert_eq!(item.label, copy::MENU_UPDATE_CHECKING);
    assert_eq!(item.blocked.as_deref(), Some(copy::MENUBAR_UPDATE_BUSY));
    assert_eq!(
        notes(&page),
        vec![(copy::UPDATE_CHECKING_NOTE.to_owned(), Tone::Muted)]
    );
}

#[test]
fn a_newer_release_becomes_the_verb_and_marks_the_head() {
    let mut u = update("0.1.9");
    u.latest = Some("0.2.1".to_owned());
    let page = update_rows(&u, 0);
    let item = find(&page, MenuAction::ApplyUpdate);
    assert_eq!(item.label, "Install 0.2.1");
    assert!(item.enabled());
    assert_eq!(
        notes(&page),
        vec![(copy::update_offer("0.1.9", "0.2.1"), Tone::Offer)]
    );
    assert_eq!(update_mark(&u), Some(Tone::Offer));
}

#[test]
fn a_check_that_finds_nothing_newer_reads_as_up_to_date() {
    let mut u = update("0.1.9");
    u.latest = Some("0.1.9".to_owned());
    u.checked_at = Some(10);
    let page = update_rows(&u, 130);
    let item = find(&page, MenuAction::CheckUpdate);
    assert_eq!(item.label, copy::MENU_UPDATE_CHECK);
    assert_eq!(
        notes(&page),
        vec![(
            copy::update_up_to_date("0.1.9", "2 minutes ago"),
            Tone::Muted
        )]
    );
    assert_eq!(update_mark(&u), None);
}

#[test]
fn an_installed_update_says_it_lands_on_restart() {
    let mut u = update("0.1.9");
    u.latest = Some("0.2.1".to_owned());
    u.applied = true;
    let page = update_rows(&u, 0);
    assert_eq!(
        notes(&page),
        vec![(copy::update_applied("0.2.1"), Tone::Offer)]
    );
    assert_eq!(update_mark(&u), Some(Tone::Offer));
}

#[test]
fn a_failed_check_carries_its_reason_and_stays_retryable() {
    let mut u = update("0.1.9");
    u.error = Some("no route to github.com".to_owned());
    let page = update_rows(&u, 0);
    assert!(find(&page, MenuAction::CheckUpdate).enabled());
    assert_eq!(
        notes(&page),
        vec![(copy::update_failed("no route to github.com"), Tone::Trouble)]
    );
    assert_eq!(update_mark(&u), Some(Tone::Trouble));
}

#[test]
fn an_offer_outranks_a_failure_on_the_head() {
    let mut u = update("0.1.9");
    u.latest = Some("0.2.1".to_owned());
    u.error = Some("the retry timed out".to_owned());
    assert_eq!(update_mark(&u), Some(Tone::Offer));
    let page = update_rows(&u, 0);
    assert!(find(&page, MenuAction::ApplyUpdate).enabled());
    assert_eq!(
        notes(&page),
        vec![(copy::update_failed("the retry timed out"), Tone::Trouble)]
    );
}

#[test]
fn a_check_stamped_in_the_future_reads_as_just_now() {
    let mut u = update("0.1.9");
    u.latest = Some("0.1.9".to_owned());
    u.checked_at = Some(500);
    let page = update_rows(&u, 10);
    assert_eq!(
        notes(&page),
        vec![(copy::update_up_to_date("0.1.9", "just now"), Tone::Muted)]
    );
}

fn even(w: f32) -> Vec<(Menu, f32)> {
    Menu::all().into_iter().map(|m| (m, w)).collect()
}

#[test]
fn a_wide_bar_rules_every_head() {
    let p = plan(&even(60.0), 8.0, 50.0, 1000.0, None);
    assert_eq!(p.shown, Menu::all());
    assert!(p.folded.is_empty());
}

#[test]
fn a_bar_that_just_fits_folds_nothing() {
    let p = plan(&even(60.0), 8.0, 50.0, 264.0, None);
    assert!(p.folded.is_empty());
    let p = plan(&even(60.0), 8.0, 50.0, 263.0, None);
    assert!(!p.folded.is_empty());
}

#[test]
fn a_narrow_bar_folds_from_the_end() {
    let p = plan(&even(60.0), 8.0, 50.0, 200.0, None);
    assert_eq!(p.shown, vec![Menu::Session, Menu::Tools]);
    assert_eq!(p.folded, vec![Menu::Display, Menu::Help]);
}

#[test]
fn a_head_with_something_to_report_is_kept_over_the_ones_before_it() {
    let p = plan(&even(60.0), 8.0, 50.0, 200.0, Some(Menu::Help));
    assert_eq!(p.shown, vec![Menu::Session, Menu::Help]);
    assert_eq!(p.folded, vec![Menu::Tools, Menu::Display]);
}

#[test]
fn a_bar_with_room_for_one_head_keeps_the_first_and_folds_the_rest() {
    let p = plan(&even(60.0), 8.0, 50.0, 125.0, None);
    assert_eq!(p.shown, vec![Menu::Session]);
    assert_eq!(p.folded, vec![Menu::Tools, Menu::Display, Menu::Help]);
}

#[test]
fn a_bar_with_room_for_nothing_but_more_shows_only_more() {
    let p = plan(&even(60.0), 8.0, 50.0, 60.0, None);
    assert!(p.shown.is_empty());
    assert_eq!(p.folded, Menu::all());
    assert!(!p.is_empty());
}

#[test]
fn a_bar_with_no_room_draws_nothing() {
    let p = plan(&even(60.0), 8.0, 50.0, 49.0, None);
    assert!(p.is_empty());
    assert!(plan(&even(60.0), 8.0, 50.0, 0.0, None).is_empty());
    assert!(plan(&even(60.0), 8.0, 50.0, -20.0, None).is_empty());
    assert!(plan(&even(60.0), 8.0, 50.0, f32::NAN, None).is_empty());
}

#[test]
fn an_empty_ruler_plans_nothing() {
    assert!(plan(&[], 8.0, 50.0, 900.0, None).is_empty());
}

#[test]
fn uneven_heads_are_fitted_by_their_own_widths() {
    let widths = vec![
        (Menu::Session, 90.0),
        (Menu::Tools, 60.0),
        (Menu::Display, 80.0),
        (Menu::Help, 55.0),
    ];
    let p = plan(&widths, 8.0, 50.0, 220.0, None);
    assert_eq!(p.shown, vec![Menu::Session, Menu::Tools]);
    assert_eq!(p.folded, vec![Menu::Display, Menu::Help]);
}

fn ids(n: u64) -> Vec<u64> {
    (0..n).map(|i| 100 + i).collect()
}

#[test]
fn stepping_into_a_menu_lands_on_an_end() {
    let ids = ids(3);
    assert_eq!(step_focus(&ids, None, 1), Some(ids[0]));
    assert_eq!(step_focus(&ids, None, -1), Some(ids[2]));
}

#[test]
fn stepping_wraps_at_both_ends() {
    let ids = ids(3);
    assert_eq!(step_focus(&ids, Some(ids[2]), 1), Some(ids[0]));
    assert_eq!(step_focus(&ids, Some(ids[0]), -1), Some(ids[2]));
    assert_eq!(step_focus(&ids, Some(ids[0]), 1), Some(ids[1]));
}

#[test]
fn stepping_from_outside_the_menu_starts_over() {
    let ids = ids(3);
    assert_eq!(
        step_focus(&ids, Some(7), 1),
        Some(ids[0])
    );
    assert_eq!(step_focus(&[], Some(ids[0]), 1), None);
}

#[test]
fn chords_come_from_the_one_registry() {
    assert_eq!(chord_caps(shortcuts::Action::Sheet).as_deref(), Some("?"));
    assert_eq!(
        chord_caps(shortcuts::Action::TextReset).as_deref(),
        Some("Ctrl 0")
    );
    assert_eq!(chord_caps(shortcuts::Action::Tab(42)), None);
}

#[test]
fn the_help_menu_prints_the_sheets_own_key() {
    let u = update("0.1.9");
    let s = state(None, &u);
    let item = find(&rows(Menu::Help, &s, 0), MenuAction::Shortcuts);
    assert_eq!(item.chord.as_deref(), Some("?"));
}

#[test]
fn every_menu_opens_with_a_section_head() {
    let u = update("0.1.9");
    let s = state(Some(session(true, false)), &u);
    for menu in Menu::all() {
        let page = rows(menu, &s, 0);
        assert!(
            matches!(page.first(), Some(Row::Head { .. })),
            "{menu:?} does not open with a head"
        );
        assert!(
            page.iter().any(|r| matches!(r, Row::Item(_))),
            "{menu:?} has no items"
        );
    }
}

#[test]
fn a_head_carries_both_a_lowercase_word_and_a_serif_title() {
    for menu in Menu::all() {
        assert_eq!(menu.head(), menu.head().to_lowercase());
        assert!(menu.title().starts_with(|c: char| c.is_uppercase()));
    }
}

#[test]
fn every_leaf_opens_with_its_own_engraved_title() {
    let u = update("0.1.9");
    let s = state(Some(session(true, false)), &u);
    for menu in Menu::all() {
        let page = content_of(Trigger::Menu(menu), &[], &s, 0);
        assert_eq!(page.first(), Some(&Row::Title(menu.title())), "{menu:?}");
    }
}

#[test]
fn the_folded_leaf_titles_every_menu_it_carries() {
    let u = update("0.1.9");
    let s = state(None, &u);
    let folded = [Menu::Display, Menu::Help];
    let page = content_of(Trigger::More, &folded, &s, 0);
    let titles: Vec<&str> = page
        .iter()
        .filter_map(|r| match r {
            Row::Title(t) => Some(*t),
            _ => None,
        })
        .collect();
    assert_eq!(
        titles,
        vec![Menu::Display.title(), Menu::Help.title()],
        "{titles:?}"
    );
}

#[test]
fn every_menu_is_numbered_in_the_bars_reading_order() {
    let numerals: Vec<Option<&str>> = Menu::all().iter().map(|m| folio_of(m.title())).collect();
    assert_eq!(
        numerals,
        vec![Some("I"), Some("II"), Some("III"), Some("IV")]
    );
}

#[test]
fn a_title_that_is_not_a_menu_carries_no_folio() {
    assert_eq!(folio_of("Conflicts"), None);
    assert_eq!(folio_of(""), None);
    assert_eq!(folio_of(&Menu::Help.title().to_lowercase()), None);
}

fn head_strip(h: f32) -> Frame {
    frame(0.0, 0.0, 80.0, h)
}

#[test]
fn a_roomy_compartment_is_ruled_over_and_under_its_word() {
    let strip = head_strip(36.0);
    let text = frame(12.0, 11.0, 48.0, 14.0);
    let Rules { cap, foot } = compartment_rules(strip, text).expect("room for both rules");
    assert!(cap < text.top, "cap {cap} is not over the word");
    assert!(foot > text.bottom, "foot {foot} is not under the word");
    assert!(cap > strip.top && foot < strip.bottom);
}

#[test]
fn a_squeezed_compartment_is_left_unruled() {
    let text = frame(12.0, 1.0, 48.0, 14.0);
    assert_eq!(compartment_rules(head_strip(16.0), text), None);
    assert_eq!(compartment_rules(head_strip(0.0), text), None);
}

#[test]
fn an_open_head_cuts_its_doorway_through_the_band() {
    let bar = bar_of(900.0);
    let mid = bar.bottom / 2;
    let half = i64::from(headband::strip_h(a11y::SCALE_DEFAULT)) / 2;
    let strip = Frame { left: 41_000, top: mid - half, right: 49_000, bottom: mid + half };
    let notch = open_notch(strip, bar).expect("the band crosses the strip's foot");
    assert_eq!(notch.top, strip.bottom);
    assert_eq!((notch.left, notch.right), (strip.left, strip.right));
    assert!(notch.bottom < bar.bottom, "{notch:?}");
    assert!(notch.bottom > strip.bottom, "{notch:?}");
}

#[test]
fn a_head_that_cannot_find_the_band_cuts_nothing() {
    let bar = bar_of(900.0);
    let strip = frame(0.0, 0.0, 80.0, 34.0);
    assert_eq!(open_notch(bar, bar), None);
    let tall = frame(0.0, 0.0, 900.0, 400.0);
    assert_eq!(open_notch(strip, tall), None);
    assert_eq!(
        open_notch(strip, frame(0.0, 0.0, 8.0, 46.0)),
        None
    );
}

#[test]
fn a_separator_leaves_its_diamond_clear_of_both_stubs() {
    let s = separator_stubs(0.0, 36.0, 3.0).expect("room for both stubs");
    assert!(s.above <= 1_800 - 300, "{s:?}");
    assert!(s.below >= 1_800 + 300, "{s:?}");
    assert!(s.top >= 0 && s.foot <= 3_600);
}

#[test]
fn a_short_separator_is_the_diamond_alone() {
    assert_eq!(separator_stubs(0.0, 14.0, 3.0), None);
    assert_eq!(separator_stubs(0.0, 0.0, 3.0), None);
}

fn entry_at(top: f32) -> Rule {
    let top = hundredths(top).unwrap();
    Rule { x: 0, top, bottom: top + 2_000 }
}

#[test]
fn the_gutter_is_ruled_once_per_block_of_entries() {
    let mut g = Gutter::default();
    g.entry(entry_at(0.0));
    g.entry(entry_at(20.0));
    g.brk();
    g.entry(entry_at(60.0));
    let runs = g.finish();
    assert_eq!(runs.len(), 2);
    assert_eq!((runs[0].top, runs[0].bottom), (0, 4_000));
    assert_eq!((runs[1].top, runs[1].bottom), (6_000, 8_000));
}

#[test]
fn a_leaf_with_no_entries_is_not_ruled() {
    let mut g = Gutter::default();
    g.brk();
    g.brk();
    assert!(g.finish().is_empty());
}
