//! The window/workspace registry: a state machine that builds authoritative
//! compositor state from possibly-partial initial data and then applies
//! deltas. It starts uninitialized, holds whichever half (windows or
//! workspaces) arrives first, and becomes ready once both have been seen;
//! after that it never reverts to a partial state.

use vstd::pervasive::VecAdditionalExecFns;
use vstd::prelude::*;

use crate::keyed::keys_sorted;
use crate::keyed::kcanon;
use crate::keyed::kcanon_vec;
use crate::keyed::kinsert;
use crate::keyed::kinsert_vec;
use crate::keyed::klookup;
use crate::keyed::klookup_ref;
use crate::keyed::kremove;
use crate::keyed::kremove_vec;
use crate::keyed::lemma_kinsert_contains;
use crate::keyed::lemma_kinsert_sorted;
use crate::keyed::Keyed;
use crate::model::opt_string_eq;
use crate::model::TilePos;
use crate::model::Window;
use crate::model::WindowInfo;
use crate::model::Workspace;
use crate::snapshot::generate_snapshot;
use crate::snapshot::snapshot_spec;

verus! {

/// One compositor event, as the registry consumes it. `Other` stands for
/// every event kind the registry ignores.
pub enum Event {
    WindowsChanged { windows: Vec<Window> },
    WorkspacesChanged { workspaces: Vec<Workspace> },
    WindowClosed { id: u64 },
    WindowOpenedOrChanged { window: Window },
    WindowFocusChanged { id: Option<u64> },
    WorkspaceActivated { id: u64 },
    WorkspaceActiveWindowChanged { workspace_id: u64, active_window_id: Option<u64> },
    WindowLayoutsChanged { changes: Vec<(u64, Option<TilePos>)> },
    Other,
}

/// The mathematical model of the registry's state.
pub enum StateModel {
    Uninitialized,
    /// Only a window list has been seen; it is kept as delivered.
    WindowsOnly(Seq<Window>),
    /// Only a workspace list has been seen; it is kept as delivered.
    WorkspacesOnly(Seq<Workspace>),
    Ready(ReadyModel),
}

/// Model of the ready state: both maps known, plus the two per-workspace
/// memories. Each sequence is a key-sorted map (see `keyed`).
pub struct ReadyModel {
    /// Windows, sorted by window id.
    pub windows: Seq<Window>,
    /// Workspaces, sorted by workspace id.
    pub workspaces: Seq<Workspace>,
    /// Workspace id -> the "overview-active" window id for that workspace.
    pub active_per_workspace: Seq<(u64, u64)>,
    /// Workspace id -> most recently focused window id on that workspace.
    pub last_focused_per_workspace: Seq<(u64, u64)>,
}

/// Well-formedness: in the ready state every map is sorted by key.
pub open spec fn state_wf(m: StateModel) -> bool {
    match m {
        StateModel::Ready(r) => keys_sorted(r.windows) && keys_sorted(r.workspaces)
            && keys_sorted(r.active_per_workspace) && keys_sorted(r.last_focused_per_workspace),
        _ => true,
    }
}

/// Every window refocused: focused exactly where the id matches `id`.
pub open spec fn refocus_seq(s: Seq<Window>, id: Option<u64>) -> Seq<Window> {
    s.map_values(|w: Window| (Window { is_focused: Some(w.id) == id, ..w }))
}

/// The first (lowest-id, for a sorted map) focused window, if any.
pub open spec fn first_focused(s: Seq<Window>) -> Option<Window>
    decreases s.len(),
{
    if s.len() == 0 {
        None
    } else if s[0].is_focused {
        Some(s[0])
    } else {
        first_focused(s.drop_first())
    }
}

/// Remember window `w` as the last focused one on its workspace, if it exists
/// and sits on a known workspace.
pub open spec fn remember_focus(last: Seq<(u64, u64)>, w: Option<Window>) -> Seq<(u64, u64)> {
    match w {
        Some(w) => match w.workspace_id {
            Some(ws_id) => kinsert(last, (ws_id, w.id)),
            None => last,
        },
        None => last,
    }
}

/// Option-of-string equality by contents.
pub open spec fn opt_string_eqv(a: Option<String>, b: Option<String>) -> bool {
    match (a, b) {
        (Option::None, Option::None) => true,
        (Option::Some(x), Option::Some(y)) => x@ == y@,
        _ => false,
    }
}

/// Workspace activation, scoped per output: every workspace on the same
/// output as workspace `id` becomes active exactly if it is workspace `id`;
/// workspaces on other outputs are untouched.
pub open spec fn apply_activation(wss: Seq<Workspace>, id: u64) -> Seq<Workspace> {
    let out = match klookup(wss, id) {
        Some(ws) => ws.output,
        None => None::<String>,
    };
    wss.map_values(
        |ws: Workspace|
            if opt_string_eqv(ws.output, out) {
                Workspace { is_active: ws.id == id, ..ws }
            } else {
                ws
            },
    )
}

/// One layout delta: replace the tiling position of the window with this id;
/// a delta for an unknown window is tolerated and ignored.
pub open spec fn apply_one_layout(s: Seq<Window>, id: u64, pos: Option<TilePos>) -> Seq<Window> {
    match klookup(s, id) {
        Some(w) => kinsert(s, Window { tile_pos: pos, ..w }),
        None => s,
    }
}

/// All layout deltas, applied in order.
pub open spec fn apply_layouts(s: Seq<Window>, changes: Seq<(u64, Option<TilePos>)>) -> Seq<Window>
    decreases changes.len(),
{
    if changes.len() == 0 {
        s
    } else {
        apply_layouts(apply_one_layout(s, changes[0].0, changes[0].1), changes.drop_first())
    }
}

/// The registry's transition function: what one event does to the state.
pub open spec fn spec_step(m: StateModel, e: Event) -> StateModel {
    match e {
        Event::WindowsChanged { windows } => match m {
            StateModel::WorkspacesOnly(wss) => StateModel::Ready(
                ReadyModel {
                    windows: kcanon(windows@),
                    workspaces: kcanon(wss),
                    active_per_workspace: Seq::empty(),
                    last_focused_per_workspace: Seq::empty(),
                },
            ),
            StateModel::Ready(r) => StateModel::Ready(
                ReadyModel { windows: kcanon(windows@), ..r },
            ),
            _ => StateModel::WindowsOnly(windows@),
        },
        Event::WorkspacesChanged { workspaces } => match m {
            StateModel::WindowsOnly(wins) => StateModel::Ready(
                ReadyModel {
                    windows: kcanon(wins),
                    workspaces: kcanon(workspaces@),
                    active_per_workspace: Seq::empty(),
                    last_focused_per_workspace: Seq::empty(),
                },
            ),
            StateModel::Ready(r) => StateModel::Ready(
                ReadyModel { workspaces: kcanon(workspaces@), ..r },
            ),
            _ => StateModel::WorkspacesOnly(workspaces@),
        },
        Event::WindowClosed { id } => match m {
            StateModel::Ready(r) => StateModel::Ready(
                ReadyModel { windows: kremove(r.windows, id), ..r },
            ),
            _ => m,
        },
        Event::WindowOpenedOrChanged { window } => match m {
            StateModel::Ready(r) => {
                let cleared = if window.is_focused {
                    refocus_seq(r.windows, None)
                } else {
                    r.windows
                };
                StateModel::Ready(ReadyModel { windows: kinsert(cleared, window), ..r })
            },
            _ => m,
        },
        Event::WindowFocusChanged { id } => match m {
            StateModel::Ready(r) => {
                let remembered = remember_focus(
                    r.last_focused_per_workspace,
                    first_focused(r.windows),
                );
                let windows = refocus_seq(r.windows, id);
                let last = match id {
                    Some(fid) => match klookup(windows, fid) {
                        Some(w) => match w.workspace_id {
                            Some(ws_id) => kinsert(remembered, (ws_id, fid)),
                            None => remembered,
                        },
                        None => remembered,
                    },
                    None => remembered,
                };
                StateModel::Ready(
                    ReadyModel { windows, last_focused_per_workspace: last, ..r },
                )
            },
            _ => m,
        },
        Event::WorkspaceActivated { id } => match m {
            StateModel::Ready(r) => StateModel::Ready(
                ReadyModel { workspaces: apply_activation(r.workspaces, id), ..r },
            ),
            _ => m,
        },
        Event::WorkspaceActiveWindowChanged { workspace_id, active_window_id } => match m {
            StateModel::Ready(r) => StateModel::Ready(
                ReadyModel {
                    active_per_workspace: match active_window_id {
                        Some(w) => kinsert(r.active_per_workspace, (workspace_id, w)),
                        None => kremove(r.active_per_workspace, workspace_id),
                    },
                    ..r
                },
            ),
            _ => m,
        },
        Event::WindowLayoutsChanged { changes } => match m {
            StateModel::Ready(r) => StateModel::Ready(
                ReadyModel { windows: apply_layouts(r.windows, changes@), ..r },
            ),
            _ => m,
        },
        Event::Other => m,
    }
}

/// At most one window of `s` is focused.
pub open spec fn at_most_one_focused(s: Seq<Window>) -> bool {
    forall|i: int, j: int|
        0 <= i < s.len() && 0 <= j < s.len() && s[i].is_focused && s[j].is_focused ==> i == j
}

/// Replaying an identical window-list or workspace-list event twice in
/// succession leaves the same state, and so the same snapshot, as replaying
/// it once.
pub proof fn lemma_replay_idempotent(m: StateModel, e: Event, filter: bool)
    requires
        e is WindowsChanged || e is WorkspacesChanged,
    ensures
        spec_step(spec_step(m, e), e) == spec_step(m, e),
        spec_step(m, e) is Ready ==> snapshot_spec(
            spec_step(spec_step(m, e), e)->Ready_0,
            filter,
        ) == snapshot_spec(spec_step(m, e)->Ready_0, filter),
{
}

/// Once the registry is ready it stays ready: no event reverts it to a
/// partial state; partial-looking updates only replace the corresponding half
/// of the pair.
pub proof fn lemma_ready_is_permanent(m: StateModel, e: Event)
    requires
        m is Ready,
    ensures
        spec_step(m, e) is Ready,
{
}

/// After a window-opened or focus-changed event the ready state holds at most
/// one focused window. A focus change guarantees this on its own; an opened
/// window relies on the state holding at most one focused window already.
pub proof fn lemma_focus_exclusive(m: StateModel, e: Event)
    requires
        state_wf(m),
        e is WindowOpenedOrChanged || e is WindowFocusChanged,
        e is WindowOpenedOrChanged && m is Ready ==> at_most_one_focused(m->Ready_0.windows),
    ensures
        spec_step(m, e) is Ready ==> at_most_one_focused(spec_step(m, e)->Ready_0.windows),
{
    if m is Ready {
        let r = m->Ready_0;
        match e {
            Event::WindowFocusChanged { id } => {
                let out = spec_step(m, e)->Ready_0.windows;
                assert(out == refocus_seq(r.windows, id));
                assert forall|i: int, j: int|
                    0 <= i < out.len() && 0 <= j < out.len() && out[i].is_focused
                        && out[j].is_focused implies i == j by {
                    assert(out[i].id == r.windows[i].id);
                    assert(out[j].id == r.windows[j].id);
                    assert(Some(r.windows[i].id) == id && Some(r.windows[j].id) == id);
                    if i != j {
                        assert(r.windows[i].key() != r.windows[j].key());
                    }
                }
            },
            Event::WindowOpenedOrChanged { window } => {
                let cleared = if window.is_focused {
                    refocus_seq(r.windows, None)
                } else {
                    r.windows
                };
                let out = kinsert(cleared, window);
                assert(keys_sorted(cleared)) by {
                    if window.is_focused {
                        assert forall|a: int, b: int|
                            0 <= a < b < cleared.len() implies (cleared[a].key()
                            < cleared[b].key()) by {
                            assert(cleared[a].id == r.windows[a].id);
                            assert(cleared[b].id == r.windows[b].id);
                        }
                    }
                }
                lemma_kinsert_sorted(cleared, window);
                lemma_kinsert_contains(cleared, window);
                assert forall|i: int, j: int|
                    0 <= i < out.len() && 0 <= j < out.len() && out[i].is_focused
                        && out[j].is_focused implies i == j by {
                    if i != j {
                        assert(out[i].key() != out[j].key());
                        if window.is_focused {
                            // every stored window was cleared, so both focused
                            // records must be the inserted window itself
                            assert(forall|a: int|
                                0 <= a < cleared.len() ==> !(#[trigger] cleared[a]).is_focused);
                            if out[i] != window {
                                let a = choose|a: int|
                                    0 <= a < cleared.len() && cleared[a] == out[i];
                                assert(false);
                            }
                            if out[j] != window {
                                let a = choose|a: int|
                                    0 <= a < cleared.len() && cleared[a] == out[j];
                                assert(false);
                            }
                            assert(false);
                        } else {
                            // the inserted window is unfocused, so both focused
                            // records were already stored, where at most one
                            // window is focused
                            assert(out[i] != window && out[j] != window);
                            assert(cleared.contains(out[i]));
                            assert(cleared.contains(out[j]));
                            let a = choose|a: int| 0 <= a < cleared.len() && cleared[a] == out[i];
                            let b = choose|b: int| 0 <= b < cleared.len() && cleared[b] == out[j];
                            assert(a == b);
                            assert(false);
                        }
                    }
                }
            },
            _ => {},
        }
    }
}

/// The registry's stored state.
enum TrackerState {
    Uninitialized,
    WindowsOnly(Vec<Window>),
    WorkspacesOnly(Vec<Workspace>),
    Ready(ReadyState),
}

/// Both halves known: the key-sorted maps of the ready state.
pub struct ReadyState {
    pub windows: Vec<Window>,
    pub workspaces: Vec<Workspace>,
    pub active_per_workspace: Vec<(u64, u64)>,
    pub last_focused_per_workspace: Vec<(u64, u64)>,
}

impl View for ReadyState {
    type V = ReadyModel;

    open spec fn view(&self) -> ReadyModel {
        ReadyModel {
            windows: self.windows@,
            workspaces: self.workspaces@,
            active_per_workspace: self.active_per_workspace@,
            last_focused_per_workspace: self.last_focused_per_workspace@,
        }
    }
}

impl View for TrackerState {
    type V = StateModel;

    closed spec fn view(&self) -> StateModel {
        match self {
            TrackerState::Uninitialized => StateModel::Uninitialized,
            TrackerState::WindowsOnly(w) => StateModel::WindowsOnly(w@),
            TrackerState::WorkspacesOnly(w) => StateModel::WorkspacesOnly(w@),
            TrackerState::Ready(r) => StateModel::Ready(r@),
        }
    }
}

/// The registry itself. Created empty at stream start; fed one event at a
/// time through `process_event`.
pub struct Registry {
    state: TrackerState,
}

impl View for Registry {
    type V = StateModel;

    closed spec fn view(&self) -> StateModel {
        self.state@
    }
}

impl Registry {
    /// The registry's invariant: its maps are sorted by key.
    pub open spec fn wf(&self) -> bool {
        state_wf(self@)
    }

    /// A registry that has seen nothing yet.
    pub fn new() -> (r: Registry)
        ensures
            r@ == StateModel::Uninitialized,
            r.wf(),
    {
        Registry { state: TrackerState::Uninitialized }
    }

    /// Apply one event; when both halves of the state are known, return the
    /// snapshot of the state the event leaves behind.
    pub fn process_event(&mut self, event: Event, filter_workspace: bool) -> (r: Option<
        Vec<WindowInfo>,
    >)
        requires
            old(self).wf(),
        ensures
            final(self)@ == spec_step(old(self)@, event),
            final(self).wf(),
            match r {
                Some(snap) => final(self)@ is Ready && snap@ == snapshot_spec(
                    final(self)@->Ready_0,
                    filter_workspace,
                ),
                None => !(final(self)@ is Ready),
            },
    {
        self.apply(event);
        match &self.state {
            TrackerState::Ready(r) => Some(generate_snapshot(r, filter_workspace)),
            _ => None,
        }
    }

    /// Apply one event to the state, without producing a snapshot.
    fn apply(&mut self, event: Event)
        requires
            old(self).wf(),
        ensures
            final(self)@ == spec_step(old(self)@, event),
            final(self).wf(),
    {
        let mut st = TrackerState::Uninitialized;
        core::mem::swap(&mut st, &mut self.state);
        self.state = apply_state(st, event);
    }
}

/// Refocus every window: focused exactly where the id matches `id`.
fn refocus(v: &mut Vec<Window>, id: Option<u64>)
    ensures
        final(v)@ == refocus_seq(old(v)@, id),
        keys_sorted(old(v)@) ==> keys_sorted(final(v)@),
{
    let ghost orig = v@;
    let n = v.len();
    let mut i: usize = 0;
    while i < n
        invariant
            0 <= i <= n,
            n == v@.len(),
            v@.len() == orig.len(),
            forall|j: int| 0 <= j < i ==> v@[j] == refocus_seq(orig, id)[j],
            forall|j: int| i <= j < v@.len() ==> v@[j] == orig[j],
        decreases n - i,
    {
        let focused = match id {
            Option::Some(t) => v[i].id == t,
            Option::None => false,
        };
        let nw = v[i].with_focus(focused);
        v.set(i, nw);
        i += 1;
    }
    proof {
        assert(v@ =~= refocus_seq(orig, id));
        if keys_sorted(orig) {
            assert forall|a: int, b: int|
                0 <= a < b < v@.len() implies (v@[a].key() < v@[b].key()) by {
                assert(v@[a].id == orig[a].id);
                assert(v@[b].id == orig[b].id);
            }
        }
    }
}

/// First (lowest-id) focused window, if any.
pub(crate) fn find_first_focused(v: &Vec<Window>) -> (r: Option<&Window>)
    ensures
        match r {
            Some(w) => first_focused(v@) == Some(*w),
            None => first_focused(v@) is None,
        },
{
    proof {
        assert(v@.skip(0) =~= v@);
    }
    let mut i: usize = 0;
    while i < v.len()
        invariant
            0 <= i <= v@.len(),
            first_focused(v@) == first_focused(v@.skip(i as int)),
        decreases v@.len() - i,
    {
        proof {
            assert(v@.skip(i as int)[0] == v@[i as int]);
        }
        if v[i].is_focused {
            return Some(&v[i]);
        }
        proof {
            assert(v@.skip(i as int).drop_first() =~= v@.skip(i as int + 1));
        }
        i += 1;
    }
    None
}

/// Activate workspace `id` on its own output, deactivating the others there.
fn activate_workspace(v: &mut Vec<Workspace>, id: u64)
    ensures
        final(v)@ == apply_activation(old(v)@, id),
        keys_sorted(old(v)@) ==> keys_sorted(final(v)@),
{
    let ghost orig = v@;
    let out: Option<String> = match klookup_ref(v, id) {
        Some(ws) => ws.output.clone(),
        None => None,
    };
    proof {
        assert(out == (match klookup(orig, id) {
            Some(ws) => ws.output,
            None => None::<String>,
        }));
    }
    let n = v.len();
    let mut i: usize = 0;
    while i < n
        invariant
            0 <= i <= n,
            n == v@.len(),
            v@.len() == orig.len(),
            out == (match klookup(orig, id) {
                Some(ws) => ws.output,
                None => None::<String>,
            }),
            forall|j: int| 0 <= j < i ==> v@[j] == apply_activation(orig, id)[j],
            forall|j: int| i <= j < v@.len() ==> v@[j] == orig[j],
        decreases n - i,
    {
        if opt_string_eq(&v[i].output, &out) {
            let active = v[i].id == id;
            let nw = v[i].with_active(active);
            v.set(i, nw);
        }
        i += 1;
    }
    proof {
        assert(v@ =~= apply_activation(orig, id));
        if keys_sorted(orig) {
            assert forall|a: int, b: int|
                0 <= a < b < v@.len() implies (v@[a].key() < v@[b].key()) by {
                assert(v@[a].id == orig[a].id);
                assert(v@[b].id == orig[b].id);
            }
        }
    }
}

/// Apply the layout deltas in order; deltas for unknown windows are ignored.
fn apply_layout_changes(v: &mut Vec<Window>, changes: &Vec<(u64, Option<TilePos>)>)
    requires
        keys_sorted(old(v)@),
    ensures
        final(v)@ == apply_layouts(old(v)@, changes@),
        keys_sorted(final(v)@),
{
    let ghost orig = v@;
    proof {
        assert(changes@.skip(0) =~= changes@);
    }
    let mut i: usize = 0;
    while i < changes.len()
        invariant
            0 <= i <= changes@.len(),
            keys_sorted(v@),
            apply_layouts(v@, changes@.skip(i as int)) == apply_layouts(orig, changes@),
        decreases changes@.len() - i,
    {
        proof {
            assert(changes@.skip(i as int)[0] == changes@[i as int]);
            assert(changes@.skip(i as int).drop_first() =~= changes@.skip(i as int + 1));
        }
        let (id, pos) = changes[i];
        let nw: Option<Window> = match klookup_ref(v, id) {
            Some(w) => Some(w.with_tile(pos)),
            None => None,
        };
        if let Some(w) = nw {
            kinsert_vec(v, w);
        }
        i += 1;
    }
    proof {
        assert(changes@.skip(changes@.len() as int) =~= Seq::<(u64, Option<TilePos>)>::empty());
    }
}

/// Move the state one event forward.
fn apply_state(st: TrackerState, event: Event) -> (r: TrackerState)
    requires
        state_wf(st@),
    ensures
        r@ == spec_step(st@, event),
        state_wf(r@),
{
    match event {
        Event::WindowsChanged { windows } => match st {
            TrackerState::WorkspacesOnly(wss) => TrackerState::Ready(
                ReadyState {
                    windows: kcanon_vec(windows),
                    workspaces: kcanon_vec(wss),
                    active_per_workspace: Vec::new(),
                    last_focused_per_workspace: Vec::new(),
                },
            ),
            TrackerState::Ready(r) => TrackerState::Ready(
                ReadyState { windows: kcanon_vec(windows), ..r },
            ),
            _ => TrackerState::WindowsOnly(windows),
        },
        Event::WorkspacesChanged { workspaces } => match st {
            TrackerState::WindowsOnly(wins) => TrackerState::Ready(
                ReadyState {
                    windows: kcanon_vec(wins),
                    workspaces: kcanon_vec(workspaces),
                    active_per_workspace: Vec::new(),
                    last_focused_per_workspace: Vec::new(),
                },
            ),
            TrackerState::Ready(r) => TrackerState::Ready(
                ReadyState { workspaces: kcanon_vec(workspaces), ..r },
            ),
            _ => TrackerState::WorkspacesOnly(workspaces),
        },
        Event::WindowClosed { id } => match st {
            TrackerState::Ready(mut r) => {
                kremove_vec(&mut r.windows, id);
                TrackerState::Ready(r)
            },
            other => other,
        },
        Event::WindowOpenedOrChanged { window } => match st {
            TrackerState::Ready(mut r) => {
                if window.is_focused {
                    refocus(&mut r.windows, None);
                }
                kinsert_vec(&mut r.windows, window);
                TrackerState::Ready(r)
            },
            other => other,
        },
        Event::WindowFocusChanged { id } => match st {
            TrackerState::Ready(mut r) => {
                let prev: Option<(u64, Option<u64>)> = match find_first_focused(&r.windows) {
                    Some(w) => Some((w.id, w.workspace_id)),
                    None => None,
                };
                if let Some((old_id, ws_opt)) = prev {
                    if let Some(ws_id) = ws_opt {
                        kinsert_vec(&mut r.last_focused_per_workspace, (ws_id, old_id));
                    }
                }
                refocus(&mut r.windows, id);
                if let Some(fid) = id {
                    let ws_opt: Option<u64> = match klookup_ref(&r.windows, fid) {
                        Some(w) => w.workspace_id,
                        None => None,
                    };
                    if let Some(ws_id) = ws_opt {
                        kinsert_vec(&mut r.last_focused_per_workspace, (ws_id, fid));
                    }
                }
                TrackerState::Ready(r)
            },
            other => other,
        },
        Event::WorkspaceActivated { id } => match st {
            TrackerState::Ready(mut r) => {
                activate_workspace(&mut r.workspaces, id);
                TrackerState::Ready(r)
            },
            other => other,
        },
        Event::WorkspaceActiveWindowChanged { workspace_id, active_window_id } => match st {
            TrackerState::Ready(mut r) => {
                match active_window_id {
                    Some(w) => kinsert_vec(&mut r.active_per_workspace, (workspace_id, w)),
                    None => kremove_vec(&mut r.active_per_workspace, workspace_id),
                }
                TrackerState::Ready(r)
            },
            other => other,
        },
        Event::WindowLayoutsChanged { changes } => match st {
            TrackerState::Ready(mut r) => {
                apply_layout_changes(&mut r.windows, &changes);
                TrackerState::Ready(r)
            },
            other => other,
        },
        Event::Other => st,
    }
}

} // verus!
