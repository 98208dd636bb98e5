//! Choosing a folder and opening one, desktop by desktop.

use tazamun_gui::folderpick::{
    backend, parse_ps_path, pick, pick_via_rfd, pick_via_windows, portal_dirs, portal_present,
    unix_path, windows_choice, Backend, PickError, PickStep, Ran, BRIDGE_FAILED, NO_BACKEND_HINT,
};
use tazamun_gui::sysopen::{
    command_for, detect_os, is_wsl, mentions, open_folder, printed_path, Os,
};

fn missing(r: Result<String, PickError>) -> String {
    match r {
        Err(PickError::NoBackend(why)) => why,
        other => panic!("expected a missing backend, got {other:?}"),
    }
}

#[test]
fn the_bridge_outranks_the_portal_and_nothing_comes_last() {
    assert_eq!(backend(true, true, true, true), Backend::WindowsBridge);
    assert_eq!(backend(true, false, true, true), Backend::Rfd);
    assert_eq!(backend(false, true, true, true), Backend::Rfd);
    assert_eq!(backend(false, false, true, false), Backend::Nothing);
    assert_eq!(backend(false, false, false, false), Backend::Rfd);
}

#[test]
fn one_portal_directory_or_a_helper_on_the_path_is_enough() {
    assert!(!portal_dirs().is_empty());
    assert!(!portal_present(&[false, false, false], false));
    assert!(portal_present(&[false, true, false], false));
    assert!(portal_present(&[], true));
    assert!(!portal_present(&[], false));
}

#[test]
fn the_windows_picker_fails_cancels_or_answers() {
    assert_eq!(
        missing(windows_choice(Ran::NotRun("no such file".to_string()))),
        "could not run powershell.exe: no such file"
    );
    assert_eq!(missing(windows_choice(Ran::Failed)), BRIDGE_FAILED);
    assert!(matches!(
        windows_choice(Ran::Printed("\r\n".to_string())),
        Err(PickError::Cancelled)
    ));
    match windows_choice(Ran::Printed("C:\\Users\\amal\\Notes\r\n".to_string())) {
        Ok(path) => assert_eq!(path, "C:\\Users\\amal\\Notes"),
        Err(e) => panic!("{e:?}"),
    }
    assert_eq!(parse_ps_path(" \t\r\n"), None);
}

#[test]
fn a_windows_choice_needs_its_unix_path() {
    assert_eq!(unix_path("/mnt/c/Notes\n"), Some("/mnt/c/Notes".to_string()));
    assert_eq!(unix_path("\n"), None);
    match pick_via_windows("C:\\Notes", Some("/mnt/c/Notes".to_string())) {
        Ok(path) => assert_eq!(path, "/mnt/c/Notes"),
        Err(e) => panic!("{e:?}"),
    }
    assert!(missing(pick_via_windows("C:\\Notes", None)).contains("C:\\Notes"));
}

#[test]
fn picking_asks_once_and_then_answers() {
    assert!(matches!(pick(Backend::WindowsBridge, None), PickStep::AskWindows));
    assert!(matches!(pick(Backend::Rfd, None), PickStep::AskDesktop));
    match pick(Backend::Nothing, None) {
        PickStep::Answer(r) => assert_eq!(missing(r), NO_BACKEND_HINT),
        other => panic!("{other:?}"),
    }
    match pick(Backend::WindowsBridge, Some(Err(PickError::Cancelled))) {
        PickStep::Answer(Err(PickError::Cancelled)) => {}
        other => panic!("{other:?}"),
    }
    match pick(Backend::WindowsBridge, Some(Ok("/mnt/c/Notes".to_string()))) {
        PickStep::Answer(Ok(path)) => assert_eq!(path, "/mnt/c/Notes"),
        other => panic!("{other:?}"),
    }
    assert!(matches!(pick_via_rfd(None::<String>), Err(PickError::Cancelled)));
    match pick_via_rfd(Some("/home/amal/Notes".to_string())) {
        Ok(path) => assert_eq!(path, "/home/amal/Notes"),
        Err(e) => panic!("{e:?}"),
    }
}

#[test]
fn a_word_is_found_wherever_it_stands() {
    assert!(mentions("Linux version 5.15 Microsoft standard", "microsoft"));
    assert!(mentions("wsl", "wsl"));
    assert!(!mentions("ws", "wsl"));
    assert!(!mentions("", "wsl"));
}

#[test]
fn wsl_shows_in_the_kernel_and_by_its_tool() {
    let wsl = "Linux version 5.15.90.1-Microsoft-standard-WSL2";
    assert!(is_wsl(Some(wsl), true));
    assert!(!is_wsl(Some(wsl), false));
    assert!(!is_wsl(Some("Linux version 6.8.0-generic"), true));
    assert!(!is_wsl(None, true));
}

#[test]
fn every_desktop_is_told_apart() {
    assert_eq!(detect_os("windows", false), Os::Windows);
    assert_eq!(detect_os("macos", true), Os::Mac);
    assert_eq!(detect_os("linux", true), Os::LinuxWsl);
    assert_eq!(detect_os("linux", false), Os::LinuxOther);
    assert_eq!(detect_os("freebsd", false), Os::LinuxOther);
}

#[test]
fn only_wsl_has_a_second_way_to_open() {
    let wsl = open_folder("/home/amal", Os::LinuxWsl, Some("C:\\home".to_string()));
    assert_eq!(wsl.first.program, "explorer.exe");
    assert_eq!(wsl.first.args, vec!["C:\\home".to_string()]);
    match wsl.fallback {
        Some(l) => {
            assert_eq!(l.program, "xdg-open");
            assert_eq!(l.args, vec!["/home/amal".to_string()]);
        }
        None => panic!("no fallback under WSL"),
    }
    for os in [Os::Windows, Os::Mac, Os::LinuxOther] {
        let a = open_folder("/home/amal", os, None);
        assert!(a.fallback.is_none(), "{os:?}");
        assert_eq!(a.first.args, vec!["/home/amal".to_string()]);
        assert_eq!(a.first.program, command_for("/home/amal", os, None).program);
    }
    assert_eq!(printed_path("\r\n"), None);
    assert_eq!(printed_path("C:\\home\r\n"), Some("C:\\home".to_string()));
}
