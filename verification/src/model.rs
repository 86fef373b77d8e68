//! Plain data model of the compositor state that the taskbar tracks: windows,
//! workspaces, and a window's position in a scrolling tiled layout.

use vstd::prelude::*;

use crate::keyed::Keyed;

verus! {

/// A window's `(column, row)` coordinate in the scrolling tiled layout.
/// A window without one is floating.
#[derive(Clone, Copy, PartialEq, Eq, Structural, Debug)]
pub struct TilePos {
    pub col: u64,
    pub row: u64,
}

/// One toplevel window as the compositor reports it.
#[derive(Clone, Debug, PartialEq, Eq)]
pub struct Window {
    /// Unique, stable for the window's lifetime.
    pub id: u64,
    pub app_id: Option<String>,
    pub title: Option<String>,
    pub workspace_id: Option<u64>,
    pub is_focused: bool,
    /// Process id of the window's owner, if known.
    pub pid: Option<i64>,
    /// Tiling position; `None` means the window floats.
    pub tile_pos: Option<TilePos>,
}

/// One workspace as the compositor reports it.
#[derive(Clone, Debug, PartialEq, Eq)]
pub struct Workspace {
    /// Unique workspace id.
    pub id: u64,
    /// Ordering key among workspaces.
    pub idx: u8,
    /// Name of the output the workspace sits on, if it is on one.
    pub output: Option<String>,
    /// Whether this workspace is the active one on its output.
    pub is_active: bool,
}

impl Window {
    /// Copy of this window with the given focus flag.
    pub fn with_focus(&self, focused: bool) -> (r: Window)
        ensures
            r == (Window { is_focused: focused, ..*self }),
    {
        Window {
            id: self.id,
            app_id: self.app_id.clone(),
            title: self.title.clone(),
            workspace_id: self.workspace_id,
            is_focused: focused,
            pid: self.pid,
            tile_pos: self.tile_pos,
        }
    }
}

impl Window {
    /// Copy of this window with the given tiling position.
    pub fn with_tile(&self, pos: Option<TilePos>) -> (r: Window)
        ensures
            r == (Window { tile_pos: pos, ..*self }),
    {
        Window {
            id: self.id,
            app_id: self.app_id.clone(),
            title: self.title.clone(),
            workspace_id: self.workspace_id,
            is_focused: self.is_focused,
            pid: self.pid,
            tile_pos: pos,
        }
    }
}

impl Workspace {
    /// Copy of this workspace with the given activity flag.
    pub fn with_active(&self, active: bool) -> (r: Workspace)
        ensures
            r == (Workspace { is_active: active, ..*self }),
    {
        Workspace {
            id: self.id,
            idx: self.idx,
            output: self.output.clone(),
            is_active: active,
        }
    }
}

impl Window {
    /// A copy equal to this window. Verified code uses this instead of
    /// `clone`, whose derived impl carries no specification.
    pub fn duplicate(&self) -> (r: Window)
        ensures
            r == *self,
    {
        Window {
            id: self.id,
            app_id: self.app_id.clone(),
            title: self.title.clone(),
            workspace_id: self.workspace_id,
            is_focused: self.is_focused,
            pid: self.pid,
            tile_pos: self.tile_pos,
        }
    }
}

impl Workspace {
    /// A copy equal to this workspace.
    pub fn duplicate(&self) -> (r: Workspace)
        ensures
            r == *self,
    {
        Workspace {
            id: self.id,
            idx: self.idx,
            output: self.output.clone(),
            is_active: self.is_active,
        }
    }
}

impl Keyed for Window {
    open spec fn key(&self) -> u64 {
        self.id
    }

    fn get_key(&self) -> (k: u64)
        ensures
            k == self.key(),
    {
        self.id
    }
}

impl Keyed for Workspace {
    open spec fn key(&self) -> u64 {
        self.id
    }

    fn get_key(&self) -> (k: u64)
        ensures
            k == self.key(),
    {
        self.id
    }
}

impl Keyed for (u64, u64) {
    open spec fn key(&self) -> u64 {
        self.0
    }

    fn get_key(&self) -> (k: u64)
        ensures
            k == self.key(),
    {
        self.0
    }
}

/// One window of an emitted snapshot: the window plus the name of the output
/// its workspace sits on, with `is_focused` possibly overridden by the
/// highlight heuristic.
#[derive(Clone, Debug, PartialEq, Eq)]
pub struct WindowInfo {
    pub window: Window,
    pub output_name: Option<String>,
}

impl WindowInfo {
    /// Name of the output this window's workspace sits on.
    pub fn get_output(&self) -> (r: &Option<String>)
        ensures
            *r == self.output_name,
    {
        &self.output_name
    }
}

/// Contents equality of two optional strings.
pub fn opt_string_eq(a: &Option<String>, b: &Option<String>) -> (r: bool)
    ensures
        r == crate::registry::opt_string_eqv(*a, *b),
{
    match (a, b) {
        (Option::None, Option::None) => true,
        (Option::Some(x), Option::Some(y)) => x.eq(y),
        _ => false,
    }
}

} // verus!
