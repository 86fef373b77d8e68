use niri_taskbar::Event;
use niri_taskbar::Registry;
use niri_taskbar::TilePos;
use niri_taskbar::Window;
use niri_taskbar::WindowInfo;
use niri_taskbar::Workspace;

fn win(id: u64, ws: u64, focused: bool) -> Window {
    Window {
        id,
        app_id: None,
        title: None,
        workspace_id: Some(ws),
        is_focused: focused,
        pid: None,
        tile_pos: None,
    }
}

fn tiled(id: u64, ws: u64, col: u64, row: u64) -> Window {
    Window {
        id,
        app_id: None,
        title: None,
        workspace_id: Some(ws),
        is_focused: false,
        pid: None,
        tile_pos: Some(TilePos { col, row }),
    }
}

fn wsp(id: u64, idx: u8, output: &str, active: bool) -> Workspace {
    Workspace { id, idx, output: Some(output.to_string()), is_active: active }
}

fn ids(snapshot: &[WindowInfo]) -> Vec<u64> {
    snapshot.iter().map(|wi| wi.window.id).collect()
}

fn focused_ids(snapshot: &[WindowInfo]) -> Vec<u64> {
    snapshot.iter().filter(|wi| wi.window.is_focused).map(|wi| wi.window.id).collect()
}

fn ready_registry() -> Registry {
    let mut reg = Registry::new();
    let none = reg.process_event(
        Event::WorkspacesChanged { workspaces: vec![wsp(1, 0, "DP-1", true)] },
        false,
    );
    assert!(none.is_none());
    let snap = reg.process_event(
        Event::WindowsChanged { windows: vec![win(10, 1, false), win(11, 1, false)] },
        false,
    );
    assert!(snap.is_some());
    reg
}

#[test]
fn no_snapshot_before_both_halves_arrive() {
    let mut reg = Registry::new();
    assert!(reg
        .process_event(Event::WindowsChanged { windows: vec![win(1, 1, false)] }, false)
        .is_none());
    assert!(reg
        .process_event(Event::WindowClosed { id: 1 }, false)
        .is_none());
    let snap = reg.process_event(
        Event::WorkspacesChanged { workspaces: vec![wsp(1, 0, "DP-1", true)] },
        false,
    );
    assert_eq!(ids(&snap.unwrap()), vec![1]);
}

#[test]
fn workspaces_first_then_windows_also_reaches_ready() {
    let mut reg = Registry::new();
    assert!(reg
        .process_event(Event::WorkspacesChanged { workspaces: vec![wsp(1, 0, "DP-1", true)] }, false)
        .is_none());
    let snap = reg.process_event(Event::WindowsChanged { windows: vec![win(7, 1, false)] }, false);
    assert_eq!(ids(&snap.unwrap()), vec![7]);
}

#[test]
fn replaying_windows_changed_twice_gives_identical_snapshot() {
    let mut reg = ready_registry();
    let windows = vec![win(3, 1, false), win(2, 1, true), win(2, 1, false)];
    let first = reg
        .process_event(Event::WindowsChanged { windows: windows.clone() }, false)
        .unwrap();
    let second = reg
        .process_event(Event::WindowsChanged { windows }, false)
        .unwrap();
    assert_eq!(first, second);
}

#[test]
fn replaying_workspaces_changed_twice_gives_identical_snapshot() {
    let mut reg = ready_registry();
    let workspaces = vec![wsp(1, 0, "DP-1", true), wsp(2, 1, "DP-2", true)];
    let first = reg
        .process_event(Event::WorkspacesChanged { workspaces: workspaces.clone() }, false)
        .unwrap();
    let second = reg
        .process_event(Event::WorkspacesChanged { workspaces }, false)
        .unwrap();
    assert_eq!(first, second);
}

#[test]
fn duplicate_ids_in_window_list_keep_the_last() {
    let mut reg = ready_registry();
    let mut with_title = win(5, 1, false);
    with_title.title = Some("late".to_string());
    let snap = reg
        .process_event(Event::WindowsChanged { windows: vec![win(5, 1, false), with_title] }, false)
        .unwrap();
    assert_eq!(snap.len(), 1);
    assert_eq!(snap[0].window.title.as_deref(), Some("late"));
}

#[test]
fn window_closed_removes_only_that_window() {
    let mut reg = ready_registry();
    let snap = reg.process_event(Event::WindowClosed { id: 10 }, false).unwrap();
    assert_eq!(ids(&snap), vec![11]);
}

#[test]
fn window_opened_replaces_by_id() {
    let mut reg = ready_registry();
    let mut renamed = win(10, 1, false);
    renamed.title = Some("new title".to_string());
    let snap = reg
        .process_event(Event::WindowOpenedOrChanged { window: renamed }, false)
        .unwrap();
    assert_eq!(ids(&snap), vec![10, 11]);
    assert_eq!(snap[0].window.title.as_deref(), Some("new title"));
}

#[test]
fn focused_open_clears_other_focus() {
    let mut reg = ready_registry();
    reg.process_event(Event::WindowFocusChanged { id: Some(10) }, false);
    let snap = reg
        .process_event(Event::WindowOpenedOrChanged { window: win(12, 1, true) }, false)
        .unwrap();
    assert_eq!(focused_ids(&snap), vec![12]);
}

#[test]
fn focus_change_moves_focus_to_exactly_one_window() {
    let mut reg = ready_registry();
    reg.process_event(Event::WindowFocusChanged { id: Some(10) }, false);
    let snap = reg
        .process_event(Event::WindowFocusChanged { id: Some(11) }, false)
        .unwrap();
    assert_eq!(focused_ids(&snap), vec![11]);
}

#[test]
fn focus_change_to_nothing_leaves_highlight_fallback() {
    let mut reg = ready_registry();
    reg.process_event(Event::WindowFocusChanged { id: Some(11) }, false);
    // Focus leaves entirely: the snapshot falls back to the workspace's last
    // focused window and highlights it.
    let snap = reg.process_event(Event::WindowFocusChanged { id: None }, false).unwrap();
    assert_eq!(focused_ids(&snap), vec![11]);
}

#[test]
fn workspace_activation_is_scoped_to_one_output() {
    let mut reg = Registry::new();
    reg.process_event(
        Event::WorkspacesChanged {
            workspaces: vec![
                wsp(1, 0, "DP-1", true),
                wsp(2, 1, "DP-1", false),
                wsp(3, 0, "DP-2", true),
            ],
        },
        false,
    );
    reg.process_event(
        Event::WindowsChanged { windows: vec![win(10, 1, false), win(20, 2, false), win(30, 3, false)] },
        false,
    );
    // Activating workspace 2 deactivates workspace 1 but leaves DP-2 alone;
    // workspace 3 has the lower index and sorts first.
    let snap = reg.process_event(Event::WorkspaceActivated { id: 2 }, true).unwrap();
    assert_eq!(ids(&snap), vec![30, 20]);
}

#[test]
fn workspace_active_window_set_and_cleared() {
    let mut reg = ready_registry();
    let snap = reg
        .process_event(
            Event::WorkspaceActiveWindowChanged { workspace_id: 1, active_window_id: Some(11) },
            false,
        )
        .unwrap();
    // Nothing is focused, so the overview-active window is highlighted.
    assert_eq!(focused_ids(&snap), vec![11]);
    let snap = reg
        .process_event(
            Event::WorkspaceActiveWindowChanged { workspace_id: 1, active_window_id: None },
            false,
        )
        .unwrap();
    // The slot is cleared again; the fallback is the first candidate.
    assert_eq!(focused_ids(&snap), vec![10]);
}

#[test]
fn layout_change_updates_known_window_and_tolerates_unknown() {
    let mut reg = ready_registry();
    let snap = reg
        .process_event(
            Event::WindowLayoutsChanged {
                changes: vec![
                    (11, Some(TilePos { col: 1, row: 1 })),
                    (999, Some(TilePos { col: 9, row: 9 })),
                ],
            },
            false,
        )
        .unwrap();
    // Window 11 is tiled now and sorts before the floating window 10.
    assert_eq!(ids(&snap), vec![11, 10]);
}

#[test]
fn ignored_event_still_yields_a_snapshot_when_ready() {
    let mut reg = ready_registry();
    let snap = reg.process_event(Event::Other, false);
    assert!(snap.is_some());
}

#[test]
fn ready_state_survives_partial_looking_updates() {
    let mut reg = ready_registry();
    reg.process_event(Event::WindowFocusChanged { id: Some(10) }, false);
    // A fresh window list replaces the window map but keeps the workspaces.
    let snap = reg
        .process_event(Event::WindowsChanged { windows: vec![win(42, 1, false)] }, false)
        .unwrap();
    assert_eq!(ids(&snap), vec![42]);
}

#[test]
fn sort_is_workspace_then_tiled_then_position_then_id() {
    let mut reg = Registry::new();
    reg.process_event(
        Event::WorkspacesChanged { workspaces: vec![wsp(1, 0, "DP-1", true), wsp(2, 1, "DP-1", false)] },
        false,
    );
    let snap = reg
        .process_event(
            Event::WindowsChanged {
                windows: vec![
                    win(9, 2, false),
                    tiled(8, 1, 2, 1),
                    win(7, 1, false),
                    tiled(6, 1, 1, 2),
                    tiled(5, 1, 1, 1),
                    win(4, 1, false),
                ],
            },
            false,
        )
        .unwrap();
    assert_eq!(ids(&snap), vec![5, 6, 8, 4, 7, 9]);
}

#[test]
fn activating_an_unknown_workspace_deactivates_outputless_workspaces() {
    let mut reg = Registry::new();
    reg.process_event(
        Event::WorkspacesChanged {
            workspaces: vec![Workspace { id: 1, idx: 0, output: None, is_active: true }],
        },
        false,
    );
    let snap = reg
        .process_event(Event::WindowsChanged { windows: vec![win(10, 1, false)] }, false)
        .unwrap();
    // With workspace 1 active and nothing focused, its first candidate is
    // highlighted.
    assert_eq!(focused_ids(&snap), vec![10]);
    // An unknown workspace id resolves to no output, which matches the
    // output-less workspace 1 and deactivates it: no highlight remains.
    let snap = reg.process_event(Event::WorkspaceActivated { id: 99 }, false).unwrap();
    assert_eq!(focused_ids(&snap), Vec::<u64>::new());
    assert_eq!(ids(&snap), vec![10]);
}

#[test]
fn the_latest_partial_list_wins_before_ready() {
    let mut reg = Registry::new();
    reg.process_event(Event::WindowsChanged { windows: vec![win(1, 1, false)] }, false);
    reg.process_event(Event::WindowsChanged { windows: vec![win(2, 1, false)] }, false);
    let snap = reg
        .process_event(
            Event::WorkspacesChanged { workspaces: vec![wsp(1, 0, "DP-1", true)] },
            false,
        )
        .unwrap();
    assert_eq!(ids(&snap), vec![2]);
}
