//! The keyboard's shortcuts.

use tazamun_gui::shortcuts::{sections, Action, Held, Key};

fn advertised_chords() -> Vec<String> {
    sections()
        .iter()
        .flat_map(|s| s.bindings.iter().map(|b| b.keys.join("+")))
        .collect()
}

#[test]
fn no_chord_is_advertised_twice() {
    let chords = advertised_chords();
    let mut seen = std::collections::BTreeSet::new();
    for c in &chords {
        assert!(seen.insert(c.clone()), "{c} is advertised more than once");
    }
    assert!(!chords.is_empty());
}

#[test]
fn every_binding_is_complete() {
    for s in sections() {
        assert!(!s.title.trim().is_empty(), "a section has no title");
        assert!(!s.bindings.is_empty(), "section {} is empty", s.title);
        for b in s.bindings {
            assert!(!b.keys.is_empty(), "a binding in {} has no keys", s.title);
            assert!(
                b.keys.iter().all(|k| !k.trim().is_empty()),
                "a binding in {} has a blank cap",
                s.title
            );
            assert!(
                !b.what.trim().is_empty(),
                "a binding in {} has no meaning",
                s.title
            );
        }
    }
}

#[test]
fn every_handled_binding_has_a_chord() {
    for sec in sections() {
        for b in sec.bindings {
            if b.action == Action::Convention {
                assert!(
                    b.action.chord().is_none(),
                    "{:?} is a convention but claims a chord",
                    b.keys
                );
            } else {
                assert!(
                    b.action.chord().is_some(),
                    "{:?} is handled but has no chord",
                    b.keys
                );
            }
        }
    }
}

#[test]
fn no_two_bindings_claim_the_same_chord() {
    let mut seen: Vec<(Held, Key)> = Vec::new();
    for sec in sections() {
        for b in sec.bindings {
            let Some((mods, keys)) = b.action.chord() else {
                continue;
            };
            for k in keys {
                assert!(
                    !seen.contains(&(mods, k)),
                    "{:?} re-uses a chord already claimed",
                    b.keys
                );
                seen.push((mods, k));
            }
        }
    }
}

#[test]
fn every_action_is_advertised() {
    let listed: Vec<Action> = sections()
        .iter()
        .flat_map(|s| s.bindings.iter().map(|b| b.action))
        .collect();
    let expected = [
        Action::Palette,
        Action::Refresh,
        Action::Settings,
        Action::Sheet,
        Action::SelectAll,
        Action::FileFilter,
        Action::TextBigger,
        Action::TextSmaller,
        Action::TextReset,
        Action::Tab(0),
        Action::Tab(1),
        Action::Tab(2),
        Action::Tab(3),
        Action::Tab(4),
        Action::Tab(5),
        Action::Tab(6),
    ];
    for a in expected {
        assert!(listed.contains(&a), "{a:?} is handled but not on the sheet");
    }
}

#[test]
fn tab_actions_are_contiguous_from_zero() {
    let mut tabs: Vec<usize> = sections()
        .iter()
        .flat_map(|s| s.bindings.iter())
        .filter_map(|b| match b.action {
            Action::Tab(n) => Some(n),
            _ => None,
        })
        .collect();
    tabs.sort_unstable();
    assert_eq!(tabs, (0..tabs.len()).collect::<Vec<_>>());
}

#[test]
fn typing_guards_cover_the_bare_keys() {
    assert!(Action::Sheet.yields_to_typing());
    assert!(Action::SelectAll.yields_to_typing());
    assert!(!Action::Palette.yields_to_typing());
}

#[test]
fn meanings_keep_the_house_voice() {
    for s in sections() {
        for b in s.bindings {
            assert!(!b.what.ends_with('.'), "{:?} ends with a period", b.what);
            let first = b.what.chars().next().unwrap_or('a');
            assert!(!first.is_uppercase(), "{:?} starts upper case", b.what);
        }
    }
}
