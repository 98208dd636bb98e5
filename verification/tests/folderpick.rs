//! Choosing a folder.

use tazamun_gui::folderpick::{parse_ps_path, NO_BACKEND_HINT, PS_PICK};

#[test]
fn a_cancelled_windows_dialog_prints_nothing() {
    assert_eq!(parse_ps_path(""), None);
    assert_eq!(parse_ps_path("\r\n"), None);
    assert_eq!(parse_ps_path("   \n  \r\n"), None);
}

#[test]
fn a_chosen_path_survives_windows_line_endings() {
    assert_eq!(
        parse_ps_path("C:\\Users\\me\\proj\r\n").as_deref(),
        Some("C:\\Users\\me\\proj")
    );
    assert_eq!(
        parse_ps_path("C:\\Users\\me\\proj").as_deref(),
        Some("C:\\Users\\me\\proj")
    );
}

#[test]
fn a_unc_path_back_into_wsl_survives() {
    assert_eq!(
        parse_ps_path("\\\\wsl$\\kali-linux\\home\\me\\proj\r\n").as_deref(),
        Some("\\\\wsl$\\kali-linux\\home\\me\\proj")
    );
}

#[test]
fn the_last_non_blank_line_wins() {
    assert_eq!(
        parse_ps_path("warning: something\r\nC:\\proj\r\n\r\n").as_deref(),
        Some("C:\\proj")
    );
}

#[test]
fn a_path_with_spaces_is_not_split() {
    assert_eq!(
        parse_ps_path("C:\\Users\\me\\My Documents\\a folder\r\n").as_deref(),
        Some("C:\\Users\\me\\My Documents\\a folder")
    );
}

#[test]
fn the_no_backend_hint_names_a_fix_and_a_way_around() {
    assert!(NO_BACKEND_HINT.contains("xdg-desktop-portal"));
    assert!(NO_BACKEND_HINT.contains("type the folder path"));
}

#[test]
fn the_powershell_script_cancels_cleanly_and_needs_no_escaping() {
    assert!(!PS_PICK.contains('"'));
    assert!(PS_PICK.contains("BrowseForFolder"));
    assert!(PS_PICK.contains("-ne $null"));
}
