//! The snapshot generator: a pure function over the registry's ready state
//! that yields the ordered, filtered list of windows the taskbar shows, with
//! at most one window highlighted as focused.

use vstd::prelude::*;

use crate::keyed::keys_sorted;
use crate::keyed::klookup;
use crate::keyed::klookup_ref;
use crate::keyed::Keyed;
use crate::model::opt_string_eq;
use crate::model::Window;
use crate::model::WindowInfo;
use crate::model::Workspace;
use crate::registry::opt_string_eqv;
use crate::registry::ReadyModel;
use crate::registry::ReadyState;

verus! {

/// A window paired with its (resolved) workspace; the unit the generator
/// filters, sorts and emits.
pub struct Candidate {
    pub win: Window,
    pub ws: Workspace,
}

/// Whether `ws` is the active workspace for its own output: it is active, it
/// has an output, and no active workspace with the same output has a greater
/// id (of several active workspaces on one output the greatest id wins).
pub open spec fn active_for_its_output(wss: Seq<Workspace>, ws: Workspace) -> bool {
    match ws.output {
        Some(o) => ws.is_active && (forall|j: int|
            0 <= j < wss.len() && wss[j].is_active && opt_string_eqv(
                wss[j].output,
                Some(o),
            ) ==> wss[j].id <= ws.id),
        None => false,
    }
}

/// Whether window `w` appears in the snapshot: it must sit on a known
/// workspace, and with workspace filtering on, that workspace must be the
/// active one for its output.
pub open spec fn window_kept(wss: Seq<Workspace>, w: Window, filter: bool) -> bool {
    match w.workspace_id {
        Some(ws_id) => match klookup(wss, ws_id) {
            Some(ws) => !filter || active_for_its_output(wss, ws),
            None => false,
        },
        None => false,
    }
}

/// The candidate a kept window becomes (its workspace resolved).
pub open spec fn cand_of(wss: Seq<Workspace>, w: Window) -> Candidate {
    Candidate {
        win: w,
        ws: match w.workspace_id {
            Some(ws_id) => match klookup(wss, ws_id) {
                Some(ws) => ws,
                None => Workspace { id: 0, idx: 0, output: None, is_active: false },
            },
            None => Workspace { id: 0, idx: 0, output: None, is_active: false },
        },
    }
}

/// The kept windows, in window order, paired with their workspaces.
pub open spec fn candidates(windows: Seq<Window>, wss: Seq<Workspace>, filter: bool) -> Seq<
    Candidate,
>
    decreases windows.len(),
{
    if windows.len() == 0 {
        Seq::empty()
    } else {
        let rest = candidates(windows.drop_last(), wss, filter);
        if window_kept(wss, windows.last(), filter) {
            rest.push(cand_of(wss, windows.last()))
        } else {
            rest
        }
    }
}

/// Floating windows sort after tiled ones.
pub open spec fn float_rank(w: Window) -> int {
    if w.tile_pos is None {
        1
    } else {
        0
    }
}

/// Sort column of a window; floating windows count as column 0.
pub open spec fn pos_col(w: Window) -> u64 {
    match w.tile_pos {
        Some(p) => p.col,
        None => 0,
    }
}

/// Sort row of a window; floating windows count as row 0.
pub open spec fn pos_row(w: Window) -> u64 {
    match w.tile_pos {
        Some(p) => p.row,
        None => 0,
    }
}

/// The snapshot order, strictly: workspace index, then tiled before floating,
/// then tiling position, then window id.
pub open spec fn cand_lt(a: Candidate, b: Candidate) -> bool {
    a.ws.idx < b.ws.idx || (a.ws.idx == b.ws.idx && (float_rank(a.win) < float_rank(b.win) || (
    float_rank(a.win) == float_rank(b.win) && (pos_col(a.win) < pos_col(b.win) || (pos_col(a.win)
        == pos_col(b.win) && (pos_row(a.win) < pos_row(b.win) || (pos_row(a.win) == pos_row(b.win)
        && a.win.id < b.win.id)))))))
}

/// Equality of every sort key, the window id included.
pub open spec fn cand_keys_eq(a: Candidate, b: Candidate) -> bool {
    a.ws.idx == b.ws.idx && float_rank(a.win) == float_rank(b.win) && pos_col(a.win) == pos_col(
        b.win,
    ) && pos_row(a.win) == pos_row(b.win) && a.win.id == b.win.id
}

/// The snapshot order, non-strictly.
pub open spec fn cand_le(a: Candidate, b: Candidate) -> bool {
    cand_lt(a, b) || cand_keys_eq(a, b)
}

/// A sequence sorted in snapshot order.
pub open spec fn cands_sorted(s: Seq<Candidate>) -> bool {
    forall|i: int, j: int| 0 <= i < j < s.len() ==> cand_le(s[i], s[j])
}

/// `c` inserted before the first candidate it sorts strictly below.
pub open spec fn sort_insert(s: Seq<Candidate>, c: Candidate) -> Seq<Candidate>
    decreases s.len(),
{
    if s.len() == 0 {
        seq![c]
    } else if cand_lt(c, s[0]) {
        seq![c] + s
    } else {
        seq![s[0]] + sort_insert(s.drop_first(), c)
    }
}

/// Insertion sort of the candidates into snapshot order.
pub open spec fn sort_cands(s: Seq<Candidate>) -> Seq<Candidate>
    decreases s.len(),
{
    if s.len() == 0 {
        s
    } else {
        sort_insert(sort_cands(s.drop_last()), s.last())
    }
}

/// Whether any candidate is genuinely focused.
pub open spec fn any_focused(s: Seq<Candidate>) -> bool {
    exists|i: int| 0 <= i < s.len() && s[i].win.is_focused
}

/// The first workspace (lowest id, for a sorted map) that is active anywhere.
pub open spec fn first_active_workspace(wss: Seq<Workspace>) -> Option<Workspace>
    decreases wss.len(),
{
    if wss.len() == 0 {
        None
    } else if wss[0].is_active {
        Some(wss[0])
    } else {
        first_active_workspace(wss.drop_first())
    }
}

/// The id of the first candidate (in the given order) on workspace `ws_id`.
pub open spec fn first_cand_in_ws(s: Seq<Candidate>, ws_id: u64) -> Option<u64>
    decreases s.len(),
{
    if s.len() == 0 {
        None
    } else if s[0].ws.id == ws_id {
        Some(s[0].win.id)
    } else {
        first_cand_in_ws(s.drop_first(), ws_id)
    }
}

/// Which window to highlight: none while a candidate is genuinely focused;
/// otherwise, for the first active workspace, the first of: its
/// overview-active window, its last focused window, its first candidate.
pub open spec fn highlight_window(
    sorted: Seq<Candidate>,
    wss: Seq<Workspace>,
    active_map: Seq<(u64, u64)>,
    last_map: Seq<(u64, u64)>,
) -> Option<u64> {
    if any_focused(sorted) {
        None
    } else {
        match first_active_workspace(wss) {
            None => None,
            Some(aws) => match klookup(active_map, aws.id) {
                Some(p) => Some(p.1),
                None => match klookup(last_map, aws.id) {
                    Some(p) => Some(p.1),
                    None => first_cand_in_ws(sorted, aws.id),
                },
            },
        }
    }
}

/// The emitted snapshot rows: each candidate with its output name resolved,
/// the highlighted window's focus flag overridden to true.
pub open spec fn emit(sorted: Seq<Candidate>, hl: Option<u64>) -> Seq<WindowInfo> {
    sorted.map_values(
        |c: Candidate|
            (WindowInfo {
                window: Window {
                    is_focused: c.win.is_focused || hl == Some(c.win.id),
                    ..c.win
                },
                output_name: c.ws.output,
            }),
    )
}

/// The whole snapshot of a ready state.
pub open spec fn snapshot_spec(r: ReadyModel, filter: bool) -> Seq<WindowInfo> {
    let sorted = sort_cands(candidates(r.windows, r.workspaces, filter));
    emit(
        sorted,
        highlight_window(sorted, r.workspaces, r.active_per_workspace, r.last_focused_per_workspace),
    )
}

/// The snapshot order is total: two candidates compare one way or the other,
/// or agree on every sort key.
pub proof fn lemma_cand_order_total(a: Candidate, b: Candidate)
    ensures
        cand_lt(a, b) || cand_lt(b, a) || cand_keys_eq(a, b),
{
}

/// The snapshot order is transitive.
pub proof fn lemma_cand_order_trans(a: Candidate, b: Candidate, c: Candidate)
    requires
        cand_le(a, b),
        cand_le(b, c),
    ensures
        cand_le(a, c),
{
}

/// Every candidate of `sort_insert(s, c)` is `c` or a candidate of `s`.
pub proof fn lemma_sort_insert_contains(s: Seq<Candidate>, c: Candidate)
    ensures
        forall|i: int|
            0 <= i < sort_insert(s, c).len() ==> sort_insert(s, c)[i] == c || s.contains(
                #[trigger] sort_insert(s, c)[i],
            ),
    decreases s.len(),
{
    if s.len() == 0 {
    } else if cand_lt(c, s[0]) {
    } else {
        lemma_sort_insert_contains(s.drop_first(), c);
        let rest = sort_insert(s.drop_first(), c);
        assert forall|i: int| 0 <= i < sort_insert(s, c).len() implies sort_insert(s, c)[i] == c
            || s.contains(#[trigger] sort_insert(s, c)[i]) by {
            if i >= 1 {
                assert(sort_insert(s, c)[i] == rest[i - 1]);
                if rest[i - 1] != c {
                    assert(s.drop_first().contains(rest[i - 1]));
                    let j = choose|j: int|
                        0 <= j < s.drop_first().len() && s.drop_first()[j] == rest[i - 1];
                    assert(s[j + 1] == rest[i - 1]);
                }
            }
        }
    }
}

/// Inserting keeps the candidates in snapshot order.
pub proof fn lemma_sort_insert_sorted(s: Seq<Candidate>, c: Candidate)
    requires
        cands_sorted(s),
    ensures
        cands_sorted(sort_insert(s, c)),
    decreases s.len(),
{
    if s.len() == 0 {
    } else if cand_lt(c, s[0]) {
        assert forall|i: int, j: int|
            0 <= i < j < sort_insert(s, c).len() implies cand_le(
            sort_insert(s, c)[i],
            sort_insert(s, c)[j],
        ) by {
            assert(sort_insert(s, c)[j] == s[j - 1]);
            if i >= 1 {
                assert(sort_insert(s, c)[i] == s[i - 1]);
                assert(cand_le(s[i - 1], s[j - 1]));
            } else {
                assert(cand_le(c, s[0]));
                if j >= 2 {
                    assert(cand_le(s[0], s[j - 1]));
                    lemma_cand_order_trans(c, s[0], s[j - 1]);
                }
            }
        }
    } else {
        assert(cands_sorted(s.drop_first()));
        lemma_sort_insert_sorted(s.drop_first(), c);
        lemma_sort_insert_contains(s.drop_first(), c);
        let rest = sort_insert(s.drop_first(), c);
        assert forall|i: int, j: int|
            0 <= i < j < sort_insert(s, c).len() implies cand_le(
            sort_insert(s, c)[i],
            sort_insert(s, c)[j],
        ) by {
            if i == 0 {
                assert(sort_insert(s, c)[j] == rest[j - 1]);
                if rest[j - 1] == c {
                    lemma_cand_order_total(c, s[0]);
                    assert(cand_le(s[0], c));
                } else {
                    assert(s.drop_first().contains(rest[j - 1]));
                    let m = choose|m: int|
                        0 <= m < s.drop_first().len() && s.drop_first()[m] == rest[j - 1];
                    assert(s[m + 1] == rest[j - 1]);
                    assert(cand_le(s[0], s[m + 1]));
                }
            } else {
                assert(sort_insert(s, c)[i] == rest[i - 1]);
                assert(sort_insert(s, c)[j] == rest[j - 1]);
                assert(cand_le(rest[i - 1], rest[j - 1]));
            }
        }
    }
}

/// The sorted candidates are in snapshot order.
pub proof fn lemma_sort_cands_sorted(s: Seq<Candidate>)
    ensures
        cands_sorted(sort_cands(s)),
    decreases s.len(),
{
    if s.len() > 0 {
        lemma_sort_cands_sorted(s.drop_last());
        lemma_sort_insert_sorted(sort_cands(s.drop_last()), s.last());
    }
}

/// Of two sorted candidates on the same workspace, a tiled one always stands
/// before a floating one, wherever the two stood in the input.
pub proof fn lemma_tiled_before_floating(s: Seq<Candidate>, i: int, j: int)
    requires
        0 <= i < sort_cands(s).len(),
        0 <= j < sort_cands(s).len(),
        sort_cands(s)[i].ws == sort_cands(s)[j].ws,
        sort_cands(s)[i].win.tile_pos is Some,
        sort_cands(s)[j].win.tile_pos is None,
    ensures
        i < j,
{
    lemma_sort_cands_sorted(s);
    if j < i {
        assert(cand_le(sort_cands(s)[j], sort_cands(s)[i]));
        assert(false);
    }
}

/// With no candidate focused, the active workspace's overview slot empty and
/// `x` remembered as its last focused window, the snapshot marks `x` focused
/// wherever it appears, though the stored window itself is not focused.
pub proof fn lemma_last_focused_highlight(r: ReadyModel, filter: bool, aws: Workspace, x: u64, i: int)
    requires
        first_active_workspace(r.workspaces) == Some(aws),
        klookup(r.active_per_workspace, aws.id) is None,
        klookup(r.last_focused_per_workspace, aws.id) == Some((aws.id, x)),
        !any_focused(sort_cands(candidates(r.windows, r.workspaces, filter))),
        0 <= i < sort_cands(candidates(r.windows, r.workspaces, filter)).len(),
        sort_cands(candidates(r.windows, r.workspaces, filter))[i].win.id == x,
    ensures
        highlight_window(
            sort_cands(candidates(r.windows, r.workspaces, filter)),
            r.workspaces,
            r.active_per_workspace,
            r.last_focused_per_workspace,
        ) == Some(x),
        snapshot_spec(r, filter)[i].window.is_focused,
{
}

/// No two candidates carry the same window id.
pub open spec fn distinct_window_ids(s: Seq<Candidate>) -> bool {
    forall|i: int, j: int|
        0 <= i < s.len() && 0 <= j < s.len() && i != j ==> s[i].win.id != s[j].win.id
}

/// Every candidate's window is one of the given windows.
proof fn lemma_candidates_members(windows: Seq<Window>, wss: Seq<Workspace>, filter: bool)
    ensures
        forall|i: int|
            0 <= i < candidates(windows, wss, filter).len() ==> exists|k: int|
                0 <= k < windows.len() && (#[trigger] candidates(windows, wss, filter)[i]).win
                    == windows[k],
    decreases windows.len(),
{
    if windows.len() > 0 {
        lemma_candidates_members(windows.drop_last(), wss, filter);
        let rest = candidates(windows.drop_last(), wss, filter);
        assert forall|i: int| 0 <= i < candidates(windows, wss, filter).len() implies exists|k: int|
            0 <= k < windows.len() && (#[trigger] candidates(windows, wss, filter)[i]).win
                == windows[k] by {
            if i < rest.len() {
                assert(candidates(windows, wss, filter)[i] == rest[i]);
                let k = choose|k: int|
                    0 <= k < windows.drop_last().len() && rest[i].win == windows.drop_last()[k];
                assert(windows[k] == windows.drop_last()[k]);
                assert(0 <= k < windows.len() && candidates(windows, wss, filter)[i].win
                    == windows[k]);
            } else {
                assert(candidates(windows, wss, filter)[i].win == windows.last());
                assert(0 <= windows.len() - 1 < windows.len() && candidates(
                    windows,
                    wss,
                    filter,
                )[i].win == windows[windows.len() - 1]);
            }
        }
    }
}

/// Candidates built from an id-sorted window map carry strictly increasing,
/// and so distinct, window ids.
proof fn lemma_candidates_distinct(windows: Seq<Window>, wss: Seq<Workspace>, filter: bool)
    requires
        keys_sorted(windows),
    ensures
        distinct_window_ids(candidates(windows, wss, filter)),
        forall|i: int, j: int|
            0 <= i < j < candidates(windows, wss, filter).len() ==> candidates(
                windows,
                wss,
                filter,
            )[i].win.id < candidates(windows, wss, filter)[j].win.id,
    decreases windows.len(),
{
    if windows.len() > 0 {
        assert(keys_sorted(windows.drop_last()));
        lemma_candidates_distinct(windows.drop_last(), wss, filter);
        lemma_candidates_members(windows.drop_last(), wss, filter);
        let rest = candidates(windows.drop_last(), wss, filter);
        assert forall|i: int, j: int|
            0 <= i < j < candidates(windows, wss, filter).len() implies (candidates(
            windows,
            wss,
            filter,
        )[i].win.id < candidates(windows, wss, filter)[j].win.id) by {
            assert(candidates(windows, wss, filter)[i] == rest[i]);
            if j == candidates(windows, wss, filter).len() - 1 && j >= rest.len() {
                assert(candidates(windows, wss, filter)[j].win == windows.last());
                let k = choose|k: int|
                    0 <= k < windows.drop_last().len() && rest[i].win == windows.drop_last()[k];
                assert(windows[k] == windows.drop_last()[k]);
                assert(windows[k].key() < windows.last().key());
            } else {
                assert(candidates(windows, wss, filter)[j] == rest[j]);
            }
        }
    }
}

/// Inserting a candidate with a fresh window id keeps the ids distinct.
proof fn lemma_sort_insert_distinct(s: Seq<Candidate>, c: Candidate)
    requires
        distinct_window_ids(s),
        forall|k: int| 0 <= k < s.len() ==> (#[trigger] s[k]).win.id != c.win.id,
    ensures
        distinct_window_ids(sort_insert(s, c)),
    decreases s.len(),
{
    if s.len() == 0 {
    } else if cand_lt(c, s[0]) {
        assert forall|i: int, j: int|
            0 <= i < sort_insert(s, c).len() && 0 <= j < sort_insert(s, c).len() && i
                != j implies (sort_insert(s, c)[i].win.id != sort_insert(s, c)[j].win.id) by {
            if i >= 1 {
                assert(sort_insert(s, c)[i] == s[i - 1]);
            }
            if j >= 1 {
                assert(sort_insert(s, c)[j] == s[j - 1]);
            }
        }
    } else {
        assert(distinct_window_ids(s.drop_first()));
        lemma_sort_insert_distinct(s.drop_first(), c);
        lemma_sort_insert_contains(s.drop_first(), c);
        let rest = sort_insert(s.drop_first(), c);
        assert forall|i: int, j: int|
            0 <= i < sort_insert(s, c).len() && 0 <= j < sort_insert(s, c).len() && i
                != j implies (sort_insert(s, c)[i].win.id != sort_insert(s, c)[j].win.id) by {
            if i >= 1 && j >= 1 {
                assert(sort_insert(s, c)[i] == rest[i - 1]);
                assert(sort_insert(s, c)[j] == rest[j - 1]);
            } else {
                let other = if i == 0 {
                    j
                } else {
                    i
                };
                assert(sort_insert(s, c)[other] == rest[other - 1]);
                if rest[other - 1] != c {
                    assert(s.drop_first().contains(rest[other - 1]));
                    let m = choose|m: int|
                        0 <= m < s.drop_first().len() && s.drop_first()[m] == rest[other - 1];
                    assert(s[m + 1] == rest[other - 1]);
                }
            }
        }
    }
}

/// Every candidate of the sorted sequence is a candidate of the input.
proof fn lemma_sort_cands_contains(s: Seq<Candidate>)
    ensures
        forall|i: int|
            0 <= i < sort_cands(s).len() ==> s.contains(#[trigger] sort_cands(s)[i]),
    decreases s.len(),
{
    if s.len() > 0 {
        lemma_sort_cands_contains(s.drop_last());
        lemma_sort_insert_contains(sort_cands(s.drop_last()), s.last());
        let prev = sort_cands(s.drop_last());
        assert forall|i: int| 0 <= i < sort_cands(s).len() implies s.contains(
            #[trigger] sort_cands(s)[i],
        ) by {
            if sort_cands(s)[i] == s.last() {
                assert(s[s.len() - 1] == s.last());
            } else {
                assert(prev.contains(sort_cands(s)[i]));
                let m = choose|m: int| 0 <= m < prev.len() && prev[m] == sort_cands(s)[i];
                assert(s.drop_last().contains(prev[m]));
                let k = choose|k: int|
                    0 <= k < s.drop_last().len() && s.drop_last()[k] == prev[m];
                assert(s[k] == prev[m]);
            }
        }
    }
}

/// Sorting keeps the window ids distinct.
proof fn lemma_sort_cands_distinct(s: Seq<Candidate>)
    requires
        distinct_window_ids(s),
    ensures
        distinct_window_ids(sort_cands(s)),
    decreases s.len(),
{
    if s.len() > 0 {
        assert(distinct_window_ids(s.drop_last()));
        lemma_sort_cands_distinct(s.drop_last());
        lemma_sort_cands_contains(s.drop_last());
        let prev = sort_cands(s.drop_last());
        assert forall|k: int| 0 <= k < prev.len() implies (#[trigger] prev[k]).win.id
            != s.last().win.id by {
            assert(s.drop_last().contains(prev[k]));
            let m = choose|m: int| 0 <= m < s.drop_last().len() && s.drop_last()[m] == prev[k];
            assert(s[m] == prev[k]);
            assert(s[m].win.id != s[s.len() - 1].win.id);
        }
        lemma_sort_insert_distinct(prev, s.last());
    }
}

/// The highlight heuristic never overrides two windows at once: of any two
/// snapshot rows shown focused whose stored windows are not focused, the two
/// rows are one.
pub proof fn lemma_single_override(r: ReadyModel, filter: bool, i: int, j: int)
    requires
        keys_sorted(r.windows),
        0 <= i < snapshot_spec(r, filter).len(),
        0 <= j < snapshot_spec(r, filter).len(),
        snapshot_spec(r, filter)[i].window.is_focused,
        !sort_cands(candidates(r.windows, r.workspaces, filter))[i].win.is_focused,
        snapshot_spec(r, filter)[j].window.is_focused,
        !sort_cands(candidates(r.windows, r.workspaces, filter))[j].win.is_focused,
    ensures
        i == j,
{
    let sorted = sort_cands(candidates(r.windows, r.workspaces, filter));
    let hl = highlight_window(
        sorted,
        r.workspaces,
        r.active_per_workspace,
        r.last_focused_per_workspace,
    );
    assert(hl == Some(sorted[i].win.id));
    assert(hl == Some(sorted[j].win.id));
    lemma_candidates_distinct(r.windows, r.workspaces, filter);
    lemma_sort_cands_distinct(candidates(r.windows, r.workspaces, filter));
    if i != j {
        assert(sorted[i].win.id != sorted[j].win.id);
    }
}

/// Whether `ws` is the active workspace for its own output, by scan.
fn is_output_active_winner(wss: &Vec<Workspace>, ws: &Workspace) -> (r: bool)
    ensures
        r == active_for_its_output(wss@, *ws),
{
    if ws.output.is_none() {
        return false;
    }
    if !ws.is_active {
        return false;
    }
    let mut j: usize = 0;
    while j < wss.len()
        invariant
            0 <= j <= wss@.len(),
            ws.output is Some,
            ws.is_active,
            forall|m: int|
                0 <= m < j ==> !(wss@[m].is_active && opt_string_eqv(wss@[m].output, ws.output)
                    && wss@[m].id > ws.id),
        decreases wss@.len() - j,
    {
        if wss[j].is_active && wss[j].id > ws.id && opt_string_eq(&wss[j].output, &ws.output) {
            return false;
        }
        j += 1;
    }
    true
}

/// Pair each kept window with its workspace.
fn build_candidates(windows: &Vec<Window>, wss: &Vec<Workspace>, filter: bool) -> (out: Vec<
    Candidate,
>)
    ensures
        out@ == candidates(windows@, wss@, filter),
{
    proof {
        assert(windows@.take(0) =~= Seq::<Window>::empty());
    }
    let mut out: Vec<Candidate> = Vec::new();
    let mut i: usize = 0;
    while i < windows.len()
        invariant
            0 <= i <= windows@.len(),
            out@ == candidates(windows@.take(i as int), wss@, filter),
        decreases windows@.len() - i,
    {
        proof {
            assert(windows@.take(i as int + 1).drop_last() =~= windows@.take(i as int));
            assert(windows@.take(i as int + 1).last() == windows@[i as int]);
        }
        let c: Option<Candidate> = match windows[i].workspace_id {
            Some(ws_id) => match klookup_ref(wss, ws_id) {
                Some(ws) => {
                    if !filter || is_output_active_winner(wss, ws) {
                        Some(Candidate { win: windows[i].duplicate(), ws: ws.duplicate() })
                    } else {
                        None
                    }
                },
                None => None,
            },
            None => None,
        };
        if let Some(c) = c {
            out.push(c);
        }
        i += 1;
    }
    proof {
        assert(windows@.take(windows@.len() as int) =~= windows@);
    }
    out
}

/// Executable form of the strict snapshot order.
fn cand_before(a: &Candidate, b: &Candidate) -> (r: bool)
    ensures
        r == cand_lt(*a, *b),
{
    if a.ws.idx != b.ws.idx {
        return a.ws.idx < b.ws.idx;
    }
    let a_floating = a.win.tile_pos.is_none();
    let b_floating = b.win.tile_pos.is_none();
    if a_floating != b_floating {
        return b_floating;
    }
    let (a_col, a_row) = match a.win.tile_pos {
        Some(p) => (p.col, p.row),
        None => (0u64, 0u64),
    };
    let (b_col, b_row) = match b.win.tile_pos {
        Some(p) => (p.col, p.row),
        None => (0u64, 0u64),
    };
    if a_col != b_col {
        return a_col < b_col;
    }
    if a_row != b_row {
        return a_row < b_row;
    }
    a.win.id < b.win.id
}

/// Where `sort_insert` puts its candidate: before the first one it sorts
/// strictly below.
proof fn lemma_sort_insert_split(s: Seq<Candidate>, c: Candidate, i: int)
    requires
        0 <= i <= s.len(),
        forall|j: int| 0 <= j < i ==> !cand_lt(c, s[j]),
        i < s.len() ==> cand_lt(c, s[i]),
    ensures
        sort_insert(s, c) == s.insert(i, c),
    decreases i,
{
    if i == 0 {
        if s.len() == 0 {
            assert(sort_insert(s, c) =~= s.insert(0, c));
        } else {
            assert(sort_insert(s, c) =~= s.insert(0, c));
        }
    } else {
        lemma_sort_insert_split(s.drop_first(), c, i - 1);
        assert(sort_insert(s, c) == seq![s[0]] + sort_insert(s.drop_first(), c));
        assert(seq![s[0]] + s.drop_first().insert(i - 1, c) =~= s.insert(i, c));
    }
}

/// Insert one candidate into an already sorted vector.
fn sort_insert_vec(v: &mut Vec<Candidate>, c: Candidate)
    ensures
        final(v)@ == sort_insert(old(v)@, c),
{
    let mut i: usize = 0;
    while i < v.len() && !cand_before(&c, &v[i])
        invariant
            0 <= i <= v@.len(),
            v@ == old(v)@,
            forall|j: int| 0 <= j < i ==> !cand_lt(c, v@[j]),
        decreases v@.len() - i,
    {
        i += 1;
    }
    proof {
        lemma_sort_insert_split(v@, c, i as int);
    }
    v.insert(i, c);
}

/// Insertion sort of the candidates into snapshot order.
fn sort_candidates(cands: Vec<Candidate>) -> (r: Vec<Candidate>)
    ensures
        r@ == sort_cands(cands@),
{
    let ghost full = cands@;
    let mut rest = cands;
    let mut acc: Vec<Candidate> = Vec::new();
    proof {
        assert(full.skip(0) =~= full);
        assert(full.take(0) =~= Seq::<Candidate>::empty());
    }
    let ghost mut k: int = 0;
    while rest.len() > 0
        invariant
            0 <= k <= full.len(),
            rest@ == full.skip(k),
            acc@ == sort_cands(full.take(k)),
        decreases rest@.len(),
    {
        let ghost prev = rest@;
        let c = rest.remove(0);
        proof {
            assert(prev[0] == full[k]);
            assert(rest@ =~= full.skip(k + 1));
            assert(full.take(k + 1).drop_last() =~= full.take(k));
            assert(full.take(k + 1).last() == full[k]);
        }
        sort_insert_vec(&mut acc, c);
        proof {
            k = k + 1;
        }
    }
    proof {
        assert(full.take(k) =~= full);
    }
    acc
}

/// Whether any candidate is genuinely focused, by scan.
fn has_any_focused(v: &Vec<Candidate>) -> (r: bool)
    ensures
        r == any_focused(v@),
{
    let mut i: usize = 0;
    while i < v.len()
        invariant
            0 <= i <= v@.len(),
            forall|j: int| 0 <= j < i ==> !v@[j].win.is_focused,
        decreases v@.len() - i,
    {
        if v[i].win.is_focused {
            return true;
        }
        i += 1;
    }
    proof {
        if any_focused(v@) {
            let w = choose|w: int| 0 <= w < v@.len() && v@[w].win.is_focused;
            assert(false);
        }
    }
    false
}

/// First active workspace, by scan.
fn find_first_active_ws(v: &Vec<Workspace>) -> (r: Option<&Workspace>)
    ensures
        match r {
            Some(ws) => first_active_workspace(v@) == Some(*ws),
            None => first_active_workspace(v@) is None,
        },
{
    proof {
        assert(v@.skip(0) =~= v@);
    }
    let mut i: usize = 0;
    while i < v.len()
        invariant
            0 <= i <= v@.len(),
            first_active_workspace(v@) == first_active_workspace(v@.skip(i as int)),
        decreases v@.len() - i,
    {
        proof {
            assert(v@.skip(i as int)[0] == v@[i as int]);
        }
        if v[i].is_active {
            return Some(&v[i]);
        }
        proof {
            assert(v@.skip(i as int).drop_first() =~= v@.skip(i as int + 1));
        }
        i += 1;
    }
    None
}

/// First candidate on workspace `ws_id`, by scan.
fn find_first_cand_in_ws(v: &Vec<Candidate>, ws_id: u64) -> (r: Option<u64>)
    ensures
        r == first_cand_in_ws(v@, ws_id),
{
    proof {
        assert(v@.skip(0) =~= v@);
    }
    let mut i: usize = 0;
    while i < v.len()
        invariant
            0 <= i <= v@.len(),
            first_cand_in_ws(v@, ws_id) == first_cand_in_ws(v@.skip(i as int), ws_id),
        decreases v@.len() - i,
    {
        proof {
            assert(v@.skip(i as int)[0] == v@[i as int]);
        }
        if v[i].ws.id == ws_id {
            return Some(v[i].win.id);
        }
        proof {
            assert(v@.skip(i as int).drop_first() =~= v@.skip(i as int + 1));
        }
        i += 1;
    }
    None
}

/// Resolve the highlight window for the sorted candidates.
fn compute_highlight(
    sorted: &Vec<Candidate>,
    wss: &Vec<Workspace>,
    active_map: &Vec<(u64, u64)>,
    last_map: &Vec<(u64, u64)>,
) -> (r: Option<u64>)
    ensures
        r == highlight_window(sorted@, wss@, active_map@, last_map@),
{
    if has_any_focused(sorted) {
        return None;
    }
    let aws_id: Option<u64> = match find_first_active_ws(wss) {
        Some(ws) => Some(ws.id),
        None => None,
    };
    match aws_id {
        None => None,
        Some(id) => {
            if let Some(p) = klookup_ref(active_map, id) {
                return Some(p.1);
            }
            if let Some(p) = klookup_ref(last_map, id) {
                return Some(p.1);
            }
            find_first_cand_in_ws(sorted, id)
        },
    }
}

/// Turn the sorted candidates into snapshot rows, overriding the highlighted
/// window's focus flag.
fn emit_rows(sorted: Vec<Candidate>, hl: Option<u64>) -> (out: Vec<WindowInfo>)
    ensures
        out@ == emit(sorted@, hl),
{
    let ghost full = sorted@;
    let mut rest = sorted;
    let mut out: Vec<WindowInfo> = Vec::new();
    proof {
        assert(full.skip(0) =~= full);
    }
    let ghost mut k: int = 0;
    while rest.len() > 0
        invariant
            0 <= k <= full.len(),
            rest@ == full.skip(k),
            out@.len() == k,
            forall|j: int| 0 <= j < k ==> out@[j] == emit(full, hl)[j],
        decreases rest@.len(),
    {
        let ghost prev = rest@;
        let c = rest.remove(0);
        proof {
            assert(prev[0] == full[k]);
            assert(rest@ =~= full.skip(k + 1));
        }
        let focused = c.win.is_focused || match hl {
            Some(h) => h == c.win.id,
            None => false,
        };
        out.push(WindowInfo { window: c.win.with_focus(focused), output_name: c.ws.output });
        proof {
            k = k + 1;
        }
    }
    proof {
        assert(out@ =~= emit(full, hl));
    }
    out
}

/// The snapshot of a ready state: its kept windows in display order, each
/// with its output name, at most one highlighted as focused.
pub fn generate_snapshot(r: &ReadyState, filter_workspace: bool) -> (out: Vec<WindowInfo>)
    ensures
        out@ == snapshot_spec(r@, filter_workspace),
{
    let cands = build_candidates(&r.windows, &r.workspaces, filter_workspace);
    let sorted = sort_candidates(cands);
    let hl = compute_highlight(
        &sorted,
        &r.workspaces,
        &r.active_per_workspace,
        &r.last_focused_per_workspace,
    );
    emit_rows(sorted, hl)
}

} // verus!
