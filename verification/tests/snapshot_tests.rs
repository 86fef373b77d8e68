use niri_taskbar::Event;
use niri_taskbar::Registry;
use niri_taskbar::TilePos;
use niri_taskbar::Window;
use niri_taskbar::WindowInfo;
use niri_taskbar::Workspace;

fn win(id: u64, ws: Option<u64>, focused: bool, tile: Option<TilePos>) -> Window {
    Window {
        id,
        app_id: None,
        title: None,
        workspace_id: ws,
        is_focused: focused,
        pid: None,
        tile_pos: tile,
    }
}

fn wsp(id: u64, idx: u8, output: Option<&str>, active: bool) -> Workspace {
    Workspace { id, idx, output: output.map(|s| s.to_string()), is_active: active }
}

fn ids(snapshot: &[WindowInfo]) -> Vec<u64> {
    snapshot.iter().map(|wi| wi.window.id).collect()
}

fn snapshot_of(
    windows: Vec<Window>,
    workspaces: Vec<Workspace>,
    filter: bool,
) -> Vec<WindowInfo> {
    let mut reg = Registry::new();
    reg.process_event(Event::WorkspacesChanged { workspaces }, filter);
    reg.process_event(Event::WindowsChanged { windows }, filter).unwrap()
}

#[test]
fn tiled_window_sorts_before_floating_regardless_of_insertion_order() {
    let workspaces = vec![wsp(1, 0, Some("DP-1"), true)];
    let floating = win(1, Some(1), false, None);
    let tiled = win(2, Some(1), false, Some(TilePos { col: 1, row: 1 }));
    let one = snapshot_of(vec![floating.clone(), tiled.clone()], workspaces.clone(), false);
    let two = snapshot_of(vec![tiled, floating], workspaces, false);
    assert_eq!(ids(&one), vec![2, 1]);
    assert_eq!(ids(&two), vec![2, 1]);
}

#[test]
fn last_focused_window_is_highlighted_when_nothing_is_focused() {
    let mut reg = Registry::new();
    reg.process_event(
        Event::WorkspacesChanged { workspaces: vec![wsp(1, 0, Some("DP-1"), true)] },
        false,
    );
    reg.process_event(
        Event::WindowsChanged { windows: vec![win(10, Some(1), false, None), win(11, Some(1), false, None)] },
        false,
    );
    reg.process_event(Event::WindowFocusChanged { id: Some(11) }, false);
    let snap = reg.process_event(Event::WindowFocusChanged { id: None }, false).unwrap();
    // The registry's own copy of window 11 is unfocused, but the emitted
    // snapshot marks it focused from last_focused_per_workspace.
    let row = snap.iter().find(|wi| wi.window.id == 11).unwrap();
    assert!(row.window.is_focused);
    assert_eq!(snap.iter().filter(|wi| wi.window.is_focused).count(), 1);
}

#[test]
fn no_highlight_override_while_a_window_is_truly_focused() {
    let snap = snapshot_of(
        vec![win(10, Some(1), true, None), win(11, Some(1), false, None)],
        vec![wsp(1, 0, Some("DP-1"), true)],
        false,
    );
    let focused: Vec<u64> =
        snap.iter().filter(|wi| wi.window.is_focused).map(|wi| wi.window.id).collect();
    assert_eq!(focused, vec![10]);
}

#[test]
fn filter_workspace_hides_inactive_workspaces_on_the_same_output() {
    let workspaces = vec![wsp(1, 0, Some("DP-1"), true), wsp(2, 1, Some("DP-1"), false)];
    let windows = vec![win(10, Some(1), false, None), win(20, Some(2), false, None)];
    let filtered = snapshot_of(windows.clone(), workspaces.clone(), true);
    assert_eq!(ids(&filtered), vec![10]);
    let unfiltered = snapshot_of(windows, workspaces, false);
    // Without the filter the same windows appear, idx 0 before idx 1.
    assert_eq!(ids(&unfiltered), vec![10, 20]);
}

#[test]
fn windows_without_resolvable_workspace_are_excluded() {
    let snap = snapshot_of(
        vec![
            win(1, Some(1), false, None),
            win(2, None, false, None),
            win(3, Some(99), false, None),
        ],
        vec![wsp(1, 0, Some("DP-1"), true)],
        false,
    );
    assert_eq!(ids(&snap), vec![1]);
}

#[test]
fn snapshot_rows_carry_the_workspace_output_name() {
    let snap = snapshot_of(
        vec![win(1, Some(1), false, None), win(2, Some(2), false, None)],
        vec![wsp(1, 0, Some("DP-1"), true), wsp(2, 1, None, false)],
        false,
    );
    assert_eq!(snap[0].get_output().as_deref(), Some("DP-1"));
    assert_eq!(snap[1].get_output().as_deref(), None);
}

#[test]
fn workspace_without_output_is_hidden_under_filtering() {
    let snap = snapshot_of(
        vec![win(1, Some(1), false, None)],
        vec![wsp(1, 0, None, true)],
        true,
    );
    assert_eq!(ids(&snap), Vec::<u64>::new());
}

#[test]
fn overview_active_window_beats_last_focused_for_the_highlight() {
    let mut reg = Registry::new();
    reg.process_event(
        Event::WorkspacesChanged { workspaces: vec![wsp(1, 0, Some("DP-1"), true)] },
        false,
    );
    reg.process_event(
        Event::WindowsChanged {
            windows: vec![
                win(10, Some(1), false, None),
                win(11, Some(1), false, None),
                win(12, Some(1), false, None),
            ],
        },
        false,
    );
    reg.process_event(Event::WindowFocusChanged { id: Some(11) }, false);
    reg.process_event(Event::WindowFocusChanged { id: None }, false);
    let snap = reg
        .process_event(
            Event::WorkspaceActiveWindowChanged { workspace_id: 1, active_window_id: Some(12) },
            false,
        )
        .unwrap();
    let focused: Vec<u64> =
        snap.iter().filter(|wi| wi.window.is_focused).map(|wi| wi.window.id).collect();
    assert_eq!(focused, vec![12]);
}
