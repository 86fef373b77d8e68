use niri_taskbar::commands::action_commands;
use niri_taskbar::commands::pick_click_action;
use niri_taskbar::commands::button_width;
use niri_taskbar::commands::check_handled;
use niri_taskbar::commands::plan_reposition;
use niri_taskbar::commands::title_max_chars;
use niri_taskbar::settings::ClickActions;
use niri_taskbar::settings::WindowAction;
use niri_taskbar::Command;
use niri_taskbar::CompositorResponse;
use niri_taskbar::TaskbarError;
use niri_taskbar::TilePos;
use niri_taskbar::Window;

fn plain(id: u64, focused: bool, tile: Option<TilePos>) -> Window {
    Window {
        id,
        app_id: None,
        title: None,
        workspace_id: Some(1),
        is_focused: focused,
        pid: None,
        tile_pos: tile,
    }
}

#[test]
fn one_shot_actions_carry_the_window_id() {
    assert_eq!(action_commands(&WindowAction::FocusWindow, 5), vec![Command::Focus(5)]);
    assert_eq!(action_commands(&WindowAction::CloseWindow, 5), vec![Command::Close(5)]);
    assert_eq!(action_commands(&WindowAction::FullscreenWindow, 5), vec![Command::Fullscreen(5)]);
    assert_eq!(
        action_commands(&WindowAction::ToggleWindowFloating, 5),
        vec![Command::ToggleFloating(5)],
    );
}

#[test]
fn column_actions_focus_the_window_first() {
    assert_eq!(
        action_commands(&WindowAction::MaximizeColumn, 5),
        vec![Command::Focus(5), Command::MaximizeColumn],
    );
    assert_eq!(
        action_commands(&WindowAction::ExpelWindowFromColumn, 5),
        vec![Command::Focus(5), Command::ExpelWindowFromColumn],
    );
    assert_eq!(
        action_commands(&WindowAction::MoveWindowToWorkspaceUp, 5),
        vec![Command::Focus(5), Command::MoveToWorkspaceUp],
    );
}

#[test]
fn menu_and_no_op_send_nothing() {
    assert_eq!(action_commands(&WindowAction::Menu, 5), Vec::<Command>::new());
    assert_eq!(action_commands(&WindowAction::NoOp, 5), Vec::<Command>::new());
}

#[test]
fn zero_delta_or_unknown_window_plans_nothing() {
    let windows = vec![plain(1, false, None)];
    assert_eq!(plan_reposition(&windows, 1, 0), Vec::<Command>::new());
    assert_eq!(plan_reposition(&windows, 99, 3), Vec::<Command>::new());
}

#[test]
fn moving_right_repeats_the_move_per_column() {
    let windows = vec![plain(1, false, Some(TilePos { col: 2, row: 1 }))];
    assert_eq!(
        plan_reposition(&windows, 1, 2),
        vec![Command::Focus(1), Command::MoveColumnRight, Command::MoveColumnRight],
    );
}

#[test]
fn stacked_windows_are_expelled_before_the_move() {
    let windows = vec![plain(1, false, Some(TilePos { col: 2, row: 3 }))];
    assert_eq!(
        plan_reposition(&windows, 1, -1),
        vec![Command::Focus(1), Command::ExpelWindowFromColumn, Command::MoveColumnLeft],
    );
}

#[test]
fn focus_returns_to_the_previously_focused_window() {
    let windows = vec![
        plain(1, false, Some(TilePos { col: 1, row: 1 })),
        plain(2, true, Some(TilePos { col: 2, row: 1 })),
    ];
    assert_eq!(
        plan_reposition(&windows, 1, 1),
        vec![Command::Focus(1), Command::MoveColumnRight, Command::Focus(2)],
    );
    // When the moved window already had the focus nothing is restored.
    assert_eq!(
        plan_reposition(&windows, 2, 1),
        vec![Command::Focus(2), Command::MoveColumnRight],
    );
}

#[test]
fn floating_windows_count_as_unstacked() {
    let windows = vec![plain(1, false, None)];
    assert_eq!(
        plan_reposition(&windows, 1, 1),
        vec![Command::Focus(1), Command::MoveColumnRight],
    );
}

#[test]
fn handled_replies_pass_and_everything_else_is_an_error() {
    assert_eq!(check_handled(Ok(CompositorResponse::Handled)), Ok(()));
    assert_eq!(
        check_handled(Ok(CompositorResponse::Other("Outputs".to_string()))),
        Err(TaskbarError::UnexpectedResponse("Outputs".to_string())),
    );
    assert_eq!(
        check_handled(Err("no such window".to_string())),
        Err(TaskbarError::CompositorReply("no such window".to_string())),
    );
}

#[test]
fn button_width_is_the_maximum_while_everything_fits() {
    assert_eq!(button_width(150, 235, 3, 1200), 235);
}

#[test]
fn button_width_shrinks_to_share_the_cap() {
    // 235 * 6 > 1200, so each button gets 1200 / 6 = 200.
    assert_eq!(button_width(150, 235, 6, 1200), 200);
}

#[test]
fn button_width_never_goes_below_the_minimum_or_one() {
    // 1200 / 20 = 60 would undershoot the minimum of 150.
    assert_eq!(button_width(150, 235, 20, 1200), 150);
    // Degenerate configuration still yields a positive width.
    assert_eq!(button_width(0, 10, 5, 0), 1);
    assert_eq!(button_width(-7, -3, 5, 0), 1);
}

#[test]
fn title_chars_fit_the_room_next_to_the_icon() {
    // (235 - 24 - 6 - 16) / 8 = 23.
    assert_eq!(title_max_chars(235, 24, 6), 23);
    assert_eq!(title_max_chars(10, 24, 6), 0);
}

#[test]
fn primary_clicks_resolve_by_focus_and_double_click_timing() {
    let actions: ClickActions = ClickActions::default();
    assert_eq!(pick_click_action(&actions, false, 50), WindowAction::FocusWindow);
    assert_eq!(pick_click_action(&actions, true, 299), WindowAction::MaximizeWindowToEdges);
    assert_eq!(pick_click_action(&actions, true, 300), WindowAction::MaximizeColumn);
}
