//! What the taskbar asks the compositor to do: the request sequence behind
//! each click action, the plan for repositioning a dragged window, the check
//! of a compositor reply, and the button sizing arithmetic. The transport
//! that carries the requests lives outside this crate.

use vstd::arithmetic::div_mod::lemma_div_nonincreasing;
use vstd::arithmetic::div_mod::lemma_div_pos_is_pos;
use vstd::arithmetic::div_mod::lemma_multiply_divide_lt;
use vstd::prelude::*;

use crate::keyed::klookup;
use crate::model::Window;
use crate::registry::find_first_focused;
use crate::registry::first_focused;
use crate::settings::ClickActions;
use crate::settings::WindowAction;

verus! {

/// One request to the compositor. A request that acts on the focused window
/// carries no id; such an action is aimed by sending a `Focus` first.
#[derive(Clone, Copy, Debug, PartialEq, Eq, Structural)]
pub enum Command {
    Focus(u64),
    Close(u64),
    MaximizeColumn,
    MaximizeToEdges(u64),
    CenterColumn,
    Fullscreen(u64),
    ToggleFloating(u64),
    CenterWindow(u64),
    CenterVisibleColumns,
    ExpandColumnToAvailableWidth,
    ToggleWindowedFullscreen(u64),
    ConsumeWindowIntoColumn,
    ExpelWindowFromColumn,
    ResetWindowHeight,
    SwitchPresetColumnWidth,
    SwitchPresetWindowHeight,
    MoveToWorkspaceDown,
    MoveToWorkspaceUp,
    MoveToMonitorLeft,
    MoveToMonitorRight,
    ToggleColumnTabbedDisplay,
    FocusWorkspacePrevious,
    MoveColumnLeft,
    MoveColumnRight,
}

/// What the compositor answered, as far as the taskbar reads it: the request
/// was handled, or something else came back (named for diagnostics).
#[derive(Clone, Debug, PartialEq, Eq)]
pub enum CompositorResponse {
    Handled,
    Other(String),
}

/// The taskbar's errors around compositor requests.
#[derive(Clone, Debug, PartialEq, Eq)]
pub enum TaskbarError {
    /// A reply of an unexpected kind, named.
    UnexpectedResponse(String),
    /// The compositor answered the request with this error message.
    CompositorReply(String),
}

/// The request sequence a click action stands for: actions on a column or on
/// the focused window first focus the clicked window, one-shot window actions
/// carry the id themselves, and `NoOp` and `Menu` send nothing (the menu is
/// the caller's affair).
pub open spec fn action_commands_spec(action: WindowAction, id: u64) -> Seq<Command> {
    match action {
        WindowAction::NoOp => Seq::empty(),
        WindowAction::Menu => Seq::empty(),
        WindowAction::FocusWindow => seq![Command::Focus(id)],
        WindowAction::CloseWindow => seq![Command::Close(id)],
        WindowAction::FullscreenWindow => seq![Command::Fullscreen(id)],
        WindowAction::ToggleWindowFloating => seq![Command::ToggleFloating(id)],
        WindowAction::CenterWindow => seq![Command::CenterWindow(id)],
        WindowAction::ToggleWindowedFullscreen => seq![Command::ToggleWindowedFullscreen(id)],
        WindowAction::MaximizeColumn => seq![Command::Focus(id), Command::MaximizeColumn],
        WindowAction::MaximizeWindowToEdges => seq![
            Command::Focus(id),
            Command::MaximizeToEdges(id),
        ],
        WindowAction::CenterColumn => seq![Command::Focus(id), Command::CenterColumn],
        WindowAction::CenterVisibleColumns => seq![
            Command::Focus(id),
            Command::CenterVisibleColumns,
        ],
        WindowAction::ExpandColumnToAvailableWidth => seq![
            Command::Focus(id),
            Command::ExpandColumnToAvailableWidth,
        ],
        WindowAction::ConsumeWindowIntoColumn => seq![
            Command::Focus(id),
            Command::ConsumeWindowIntoColumn,
        ],
        WindowAction::ExpelWindowFromColumn => seq![
            Command::Focus(id),
            Command::ExpelWindowFromColumn,
        ],
        WindowAction::ResetWindowHeight => seq![Command::Focus(id), Command::ResetWindowHeight],
        WindowAction::SwitchPresetColumnWidth => seq![
            Command::Focus(id),
            Command::SwitchPresetColumnWidth,
        ],
        WindowAction::SwitchPresetWindowHeight => seq![
            Command::Focus(id),
            Command::SwitchPresetWindowHeight,
        ],
        WindowAction::MoveWindowToWorkspaceDown => seq![
            Command::Focus(id),
            Command::MoveToWorkspaceDown,
        ],
        WindowAction::MoveWindowToWorkspaceUp => seq![
            Command::Focus(id),
            Command::MoveToWorkspaceUp,
        ],
        WindowAction::MoveWindowToMonitorLeft => seq![
            Command::Focus(id),
            Command::MoveToMonitorLeft,
        ],
        WindowAction::MoveWindowToMonitorRight => seq![
            Command::Focus(id),
            Command::MoveToMonitorRight,
        ],
        WindowAction::ToggleColumnTabbedDisplay => seq![
            Command::Focus(id),
            Command::ToggleColumnTabbedDisplay,
        ],
        WindowAction::FocusWorkspacePrevious => seq![
            Command::Focus(id),
            Command::FocusWorkspacePrevious,
        ],
    }
}

/// The requests to send for a click action on window `id`.
pub fn action_commands(action: &WindowAction, id: u64) -> (r: Vec<Command>)
    ensures
        r@ == action_commands_spec(*action, id),
{
    let mut out: Vec<Command> = Vec::new();
    match action {
        WindowAction::NoOp => {},
        WindowAction::Menu => {},
        WindowAction::FocusWindow => {
            out.push(Command::Focus(id));
        },
        WindowAction::CloseWindow => {
            out.push(Command::Close(id));
        },
        WindowAction::FullscreenWindow => {
            out.push(Command::Fullscreen(id));
        },
        WindowAction::ToggleWindowFloating => {
            out.push(Command::ToggleFloating(id));
        },
        WindowAction::CenterWindow => {
            out.push(Command::CenterWindow(id));
        },
        WindowAction::ToggleWindowedFullscreen => {
            out.push(Command::ToggleWindowedFullscreen(id));
        },
        WindowAction::MaximizeColumn => {
            out.push(Command::Focus(id));
            out.push(Command::MaximizeColumn);
        },
        WindowAction::MaximizeWindowToEdges => {
            out.push(Command::Focus(id));
            out.push(Command::MaximizeToEdges(id));
        },
        WindowAction::CenterColumn => {
            out.push(Command::Focus(id));
            out.push(Command::CenterColumn);
        },
        WindowAction::CenterVisibleColumns => {
            out.push(Command::Focus(id));
            out.push(Command::CenterVisibleColumns);
        },
        WindowAction::ExpandColumnToAvailableWidth => {
            out.push(Command::Focus(id));
            out.push(Command::ExpandColumnToAvailableWidth);
        },
        WindowAction::ConsumeWindowIntoColumn => {
            out.push(Command::Focus(id));
            out.push(Command::ConsumeWindowIntoColumn);
        },
        WindowAction::ExpelWindowFromColumn => {
            out.push(Command::Focus(id));
            out.push(Command::ExpelWindowFromColumn);
        },
        WindowAction::ResetWindowHeight => {
            out.push(Command::Focus(id));
            out.push(Command::ResetWindowHeight);
        },
        WindowAction::SwitchPresetColumnWidth => {
            out.push(Command::Focus(id));
            out.push(Command::SwitchPresetColumnWidth);
        },
        WindowAction::SwitchPresetWindowHeight => {
            out.push(Command::Focus(id));
            out.push(Command::SwitchPresetWindowHeight);
        },
        WindowAction::MoveWindowToWorkspaceDown => {
            out.push(Command::Focus(id));
            out.push(Command::MoveToWorkspaceDown);
        },
        WindowAction::MoveWindowToWorkspaceUp => {
            out.push(Command::Focus(id));
            out.push(Command::MoveToWorkspaceUp);
        },
        WindowAction::MoveWindowToMonitorLeft => {
            out.push(Command::Focus(id));
            out.push(Command::MoveToMonitorLeft);
        },
        WindowAction::MoveWindowToMonitorRight => {
            out.push(Command::Focus(id));
            out.push(Command::MoveToMonitorRight);
        },
        WindowAction::ToggleColumnTabbedDisplay => {
            out.push(Command::Focus(id));
            out.push(Command::ToggleColumnTabbedDisplay);
        },
        WindowAction::FocusWorkspacePrevious => {
            out.push(Command::Focus(id));
            out.push(Command::FocusWorkspacePrevious);
        },
    }
    proof {
        assert(out@ =~= action_commands_spec(*action, id));
    }
    out
}

/// Which bound action a primary click triggers: the unfocused binding on an
/// unfocused window; on a focused one the double-click binding when the click
/// came within the double-click window of the last one, else the focused
/// binding.
pub open spec fn click_action_spec(actions: ClickActions, focused: bool, millis_since_last: u64) -> WindowAction {
    if !focused {
        actions.left_click_unfocused
    } else if millis_since_last < 300 {
        actions.double_click
    } else {
        actions.left_click_focused
    }
}

/// Resolve a primary click on a window into the bound action.
pub fn pick_click_action(actions: &ClickActions, focused: bool, millis_since_last: u64) -> (r:
    WindowAction)
    ensures
        r == click_action_spec(*actions, focused, millis_since_last),
{
    if !focused {
        actions.left_click_unfocused
    } else if millis_since_last < 300 {
        actions.double_click
    } else {
        actions.left_click_focused
    }
}

/// The request sequence that moves a window `delta` columns: nothing for a
/// zero delta or an unknown window; else focus it, expel it first when it is
/// stacked below the top of its column, move the column one step at a time,
/// and give focus back to the window that had it.
pub open spec fn reposition_plan(windows: Seq<Window>, window_id: u64, delta: int) -> Seq<
    Command,
> {
    if delta == 0 {
        Seq::empty()
    } else {
        match klookup(windows, window_id) {
            None => Seq::empty(),
            Some(target) => {
                let tile = match target.tile_pos {
                    Some(p) => p.row,
                    None => 1u64,
                };
                let step = if delta < 0 {
                    Command::MoveColumnLeft
                } else {
                    Command::MoveColumnRight
                };
                let count = if delta < 0 {
                    -delta
                } else {
                    delta
                };
                let moves = Seq::new(count as nat, |i: int| step);
                let expel: Seq<Command> = if tile > 1 {
                    seq![Command::ExpelWindowFromColumn]
                } else {
                    Seq::empty()
                };
                let restore: Seq<Command> = match first_focused(windows) {
                    Some(f) => if f.id != window_id {
                        seq![Command::Focus(f.id)]
                    } else {
                        Seq::empty()
                    },
                    None => Seq::empty(),
                };
                seq![Command::Focus(window_id)] + expel + moves + restore
            },
        }
    }
}

/// Plan the requests that move window `window_id` by `delta` columns, given
/// the compositor's current window list.
pub fn plan_reposition(windows: &Vec<Window>, window_id: u64, delta: i32) -> (r: Vec<Command>)
    requires
        delta != i32::MIN,
    ensures
        r@ == reposition_plan(windows@, window_id, delta as int),
{
    let mut out: Vec<Command> = Vec::new();
    if delta == 0 {
        return out;
    }
    let focused_restore: Option<u64> = match find_first_focused(windows) {
        Some(w) => Some(w.id),
        None => None,
    };
    let target_tile: Option<u64> = match crate::keyed::klookup_ref(windows, window_id) {
        Some(w) => Some(
            match w.tile_pos {
                Some(p) => p.row,
                None => 1u64,
            },
        ),
        None => None,
    };
    let tile = match target_tile {
        Some(t) => t,
        None => {
            return out;
        },
    };
    out.push(Command::Focus(window_id));
    if tile > 1 {
        out.push(Command::ExpelWindowFromColumn);
    }
    let step = if delta < 0 {
        Command::MoveColumnLeft
    } else {
        Command::MoveColumnRight
    };
    let count: u32 = if delta < 0 {
        (-delta) as u32
    } else {
        delta as u32
    };
    let ghost base = out@;
    let mut i: u32 = 0;
    while i < count
        invariant
            0 <= i <= count,
            out@ == base + Seq::new(i as nat, |j: int| step),
        decreases count - i,
    {
        let ghost before = out@;
        out.push(step);
        proof {
            assert(out@ =~= base + Seq::new(i as nat + 1, |j: int| step));
        }
        i += 1;
    }
    if let Some(f) = focused_restore {
        if f != window_id {
            out.push(Command::Focus(f));
        }
    }
    proof {
        assert(out@ =~= reposition_plan(windows@, window_id, delta as int));
    }
    out
}

/// Read a reply to a request that should simply be handled: anything else is
/// an error, with the compositor's own message kept.
pub fn check_handled(reply: Result<CompositorResponse, String>) -> (r: Result<(), TaskbarError>)
    ensures
        r == (match reply {
            Ok(CompositorResponse::Handled) => Ok::<(), TaskbarError>(()),
            Ok(CompositorResponse::Other(kind)) => Err(TaskbarError::UnexpectedResponse(kind)),
            Err(msg) => Err(TaskbarError::CompositorReply(msg)),
        }),
{
    match reply {
        Ok(CompositorResponse::Handled) => Ok(()),
        Ok(CompositorResponse::Other(kind)) => Err(TaskbarError::UnexpectedResponse(kind)),
        Err(msg) => Err(TaskbarError::CompositorReply(msg)),
    }
}

/// Integer division truncating toward zero, as the executable widths use it.
pub open spec fn div_trunc(a: int, b: int) -> int {
    if a >= 0 {
        a / b
    } else {
        -((-a) / b)
    }
}

/// The width every button gets: the configured maximum, shrunk so that all
/// `count` buttons fit the taskbar's width cap, but never below the
/// configured minimum, and at least 1.
pub open spec fn button_width_spec(min: int, max: int, count: int, limit: int) -> int {
    let inner = if max * count > limit {
        let q = div_trunc(limit, count);
        let lower = if q >= min {
            q
        } else {
            min
        };
        if lower >= 1 {
            lower
        } else {
            1
        }
    } else {
        max
    };
    if inner >= 1 {
        inner
    } else {
        1
    }
}

/// Truncating division of an `i64` by a positive one.
fn div_trunc_i64(a: i64, b: i64) -> (r: i64)
    requires
        b > 0,
        a > i64::MIN,
    ensures
        r == div_trunc(a as int, b as int),
        a >= 0 ==> 0 <= r <= a,
        a < 0 ==> a <= r <= 0,
{
    if a >= 0 {
        let q = (a as u64) / (b as u64);
        proof {
            lemma_div_nonincreasing(a as int, b as int);
            lemma_div_pos_is_pos(a as int, b as int);
        }
        q as i64
    } else {
        let q = ((-a) as u64) / (b as u64);
        proof {
            lemma_div_nonincreasing(-a as int, b as int);
            lemma_div_pos_is_pos(-a as int, b as int);
        }
        -(q as i64)
    }
}

/// The width every button gets, for `count` buttons under the output's width
/// cap.
pub fn button_width(min_width: i32, max_width: i32, count: i32, total_limit: i32) -> (r: i32)
    requires
        count > 0,
    ensures
        r as int == button_width_spec(
            min_width as int,
            max_width as int,
            count as int,
            total_limit as int,
        ),
{
    let max64 = max_width as i64;
    let count64 = count as i64;
    let limit64 = total_limit as i64;
    proof {
        assert(-0x4000_0000_0000_0000 < max64 * count64 < 0x4000_0000_0000_0000)
            by (nonlinear_arith)
            requires
                -0x8000_0000 <= max64 < 0x8000_0000,
                0 < count64 < 0x8000_0000,
        ;
    }
    let inner: i64 = if max64 * count64 > limit64 {
        let q = div_trunc_i64(limit64, count64);
        let lower = if q >= min_width as i64 {
            q
        } else {
            min_width as i64
        };
        if lower >= 1 {
            lower
        } else {
            1
        }
    } else {
        max64
    };
    let w = if inner >= 1 {
        inner
    } else {
        1
    };
    w as i32
}

/// How many characters the title label may keep at a given button width: the
/// width less the icon, its gap and the button padding, at eight pixels a
/// character, and never negative.
pub open spec fn title_chars_spec(width: int, icon: int, gap: int) -> int {
    let room = width - icon - gap - 16;
    if room >= 0 {
        room / 8
    } else {
        0
    }
}

/// How many characters the title label may keep at a given button width.
pub fn title_max_chars(width: i32, icon_size: i32, icon_spacing: i32) -> (r: i32)
    ensures
        r as int == title_chars_spec(width as int, icon_size as int, icon_spacing as int),
{
    let room: i64 = width as i64 - icon_size as i64 - icon_spacing as i64 - 16;
    if room < 0 {
        0
    } else {
        let q = (room as u64) / 8;
        proof {
            lemma_div_pos_is_pos(room as int, 8);
            lemma_multiply_divide_lt(room as int, 8, 0x8000_0000);
        }
        q as i32
    }
}

} // verus!
