use niri_taskbar::notify::match_ancestry;
use niri_taskbar::notify::match_desktop_entry;
use niri_taskbar::notify::match_notification;
use niri_taskbar::Window;
use niri_taskbar::WindowInfo;

fn row(id: u64, app_id: Option<&str>, pid: Option<i64>, focused: bool) -> WindowInfo {
    WindowInfo {
        window: Window {
            id,
            app_id: app_id.map(|s| s.to_string()),
            title: None,
            workspace_id: Some(1),
            is_focused: focused,
            pid,
            tile_pos: None,
        },
        output_name: None,
    }
}

#[test]
fn ancestry_walk_flags_the_parents_window() {
    // Process 50 has parent 40; process 40 has no parent; the window is
    // registered under process id 40 and not focused. The walk therefore
    // visits 50 then 40 and flags the window.
    let snap = vec![row(7, None, Some(40), false)];
    let chain = vec![50, 40];
    assert_eq!(match_ancestry(&snap, &chain), vec![7]);
}

#[test]
fn focused_windows_are_not_flagged_by_the_walk() {
    let snap = vec![row(7, None, Some(40), true)];
    assert_eq!(match_ancestry(&snap, &vec![50, 40]), Vec::<u64>::new());
}

#[test]
fn every_matching_ancestor_is_flagged() {
    let snap = vec![row(1, None, Some(40), false), row(2, None, Some(50), false)];
    assert_eq!(match_ancestry(&snap, &vec![50, 40]), vec![2, 1]);
}

#[test]
fn later_window_wins_a_duplicated_process_id() {
    let snap = vec![row(1, None, Some(40), false), row(2, None, Some(40), false)];
    assert_eq!(match_ancestry(&snap, &vec![40]), vec![2]);
}

#[test]
fn exact_app_id_match_suppresses_fuzzy_matches() {
    let snap = vec![
        row(1, Some("Firefox"), None, false),
        row(2, Some("firefox"), None, false),
        row(3, Some("editor"), None, false),
    ];
    // Window 2 is a fuzzy (case-insensitive) candidate, but window 1 matches
    // exactly, so only window 1 is flagged even with fuzzy matching on.
    assert_eq!(match_desktop_entry(&snap, &"Firefox".to_string(), true), vec![1]);
}

#[test]
fn fuzzy_matches_apply_only_without_an_exact_match() {
    let snap = vec![row(2, Some("FIREFOX"), None, false), row(3, Some("editor"), None, false)];
    assert_eq!(match_desktop_entry(&snap, &"firefox".to_string(), true), vec![2]);
    assert_eq!(match_desktop_entry(&snap, &"firefox".to_string(), false), Vec::<u64>::new());
}

#[test]
fn dotted_suffix_matches_case_insensitively_when_fuzzy_is_enabled() {
    let snap = vec![row(9, Some("io.other.App"), None, false)];
    let entry = "org.example.App".to_string();
    assert_eq!(match_desktop_entry(&snap, &entry, true), vec![9]);
    assert_eq!(match_desktop_entry(&snap, &entry, false), Vec::<u64>::new());
}

#[test]
fn suffix_matching_folds_case_through_lowercasing() {
    let snap = vec![row(9, Some("io.other.APP"), None, false)];
    assert_eq!(match_desktop_entry(&snap, &"org.example.app".to_string(), true), vec![9]);
}

#[test]
fn undotted_app_id_matches_the_entry_suffix() {
    // A dot-free app id is its own last segment, so it matches an entry
    // whose last segment equals it case-insensitively.
    let snap = vec![row(9, Some("App"), None, false)];
    assert_eq!(match_desktop_entry(&snap, &"org.example.App".to_string(), true), vec![9]);
    // A differing last segment still yields no match.
    let other = vec![row(9, Some("Editor"), None, false)];
    assert_eq!(
        match_desktop_entry(&other, &"org.example.App".to_string(), true),
        Vec::<u64>::new(),
    );
}

#[test]
fn process_matches_take_precedence_over_desktop_entry() {
    let snap = vec![row(1, Some("term"), Some(40), false), row(2, Some("term"), None, false)];
    let flagged = match_notification(
        &snap,
        &Some(vec![40]),
        &Some("term".to_string()),
        true,
        true,
        &Vec::new(),
    );
    assert_eq!(flagged, vec![1]);
}

#[test]
fn empty_ancestry_result_falls_through_to_desktop_entry() {
    let snap = vec![row(2, Some("term"), None, false)];
    let flagged = match_notification(
        &snap,
        &Some(vec![999, 998]),
        &Some("term".to_string()),
        true,
        false,
        &Vec::new(),
    );
    assert_eq!(flagged, vec![2]);
}

#[test]
fn desktop_entry_matching_can_be_disabled() {
    let snap = vec![row(2, Some("term"), None, false)];
    let flagged =
        match_notification(&snap, &None, &Some("term".to_string()), false, true, &Vec::new());
    assert_eq!(flagged, Vec::<u64>::new());
}

#[test]
fn notification_without_entry_or_process_flags_nothing() {
    let snap = vec![row(2, Some("term"), None, false)];
    assert_eq!(match_notification(&snap, &None, &None, true, true, &Vec::new()), Vec::<u64>::new());
}

#[test]
fn rename_table_maps_the_desktop_entry_before_matching() {
    let snap = vec![row(2, Some("org.kde.konsole"), None, false)];
    let map = vec![("terminal".to_string(), "org.kde.konsole".to_string())];
    let flagged =
        match_notification(&snap, &None, &Some("terminal".to_string()), true, false, &map);
    assert_eq!(flagged, vec![2]);
}

#[test]
fn unmapped_entry_is_used_as_it_came() {
    let snap = vec![row(2, Some("terminal"), None, false)];
    let map = vec![("other".to_string(), "x".to_string())];
    let flagged =
        match_notification(&snap, &None, &Some("terminal".to_string()), true, false, &map);
    assert_eq!(flagged, vec![2]);
}
