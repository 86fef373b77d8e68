//! The notification matcher: given the latest snapshot and a notification's
//! originating process id (resolved to its ancestry chain) or desktop-entry
//! identifier, decide which windows to flag urgent. Process matches win over
//! desktop-entry matches; exact app-id matches suppress fuzzy ones.

use vstd::prelude::*;

use crate::model::WindowInfo;
use crate::text::last_segment_of;
use crate::text::lower_of;
use crate::text::lowercase;
use crate::text::split_suffix;

verus! {

/// The window owning process `pid`, if any: the last snapshot entry with that
/// process id wins, as process ids are expected unique per live window.
pub open spec fn pid_window(snap: Seq<WindowInfo>, pid: i64) -> Option<WindowInfo>
    decreases snap.len(),
{
    if snap.len() == 0 {
        None
    } else if snap.last().window.pid == Some(pid) {
        Some(snap.last())
    } else {
        pid_window(snap.drop_last(), pid)
    }
}

/// The ids flagged by walking an ancestry chain: for every process id of the
/// chain, in order, the id of its window, where that window exists and is not
/// already focused.
pub open spec fn ancestry_matches(snap: Seq<WindowInfo>, chain: Seq<i64>) -> Seq<u64>
    decreases chain.len(),
{
    if chain.len() == 0 {
        Seq::empty()
    } else {
        let head = match pid_window(snap, chain[0]) {
            Some(wi) => if !wi.window.is_focused {
                seq![wi.window.id]
            } else {
                Seq::empty()
            },
            None => Seq::empty(),
        };
        head + ancestry_matches(snap, chain.drop_first())
    }
}

/// A window whose app id equals the entry, byte for byte.
pub open spec fn exact_match(wi: WindowInfo, entry: Seq<char>) -> bool {
    match wi.window.app_id {
        Some(a) => a@ == entry,
        None => false,
    }
}

/// A window that matches the entry only loosely: same app id up to case, or
/// same last dot-delimited segment up to case. A dot-free string's last
/// segment is the string itself.
pub open spec fn fuzzy_match(wi: WindowInfo, entry: Seq<char>) -> bool {
    match wi.window.app_id {
        Some(a) => a@ != entry && (lower_of(a@) == lower_of(entry) || lower_of(
            last_segment_of(a@),
        ) == lower_of(last_segment_of(entry))),
        None => false,
    }
}

/// Ids of the windows matching the entry exactly, in snapshot order.
pub open spec fn exact_ids(snap: Seq<WindowInfo>, entry: Seq<char>) -> Seq<u64>
    decreases snap.len(),
{
    if snap.len() == 0 {
        Seq::empty()
    } else {
        let rest = exact_ids(snap.drop_last(), entry);
        if exact_match(snap.last(), entry) {
            rest.push(snap.last().window.id)
        } else {
            rest
        }
    }
}

/// Ids of the windows matching the entry fuzzily, in snapshot order.
pub open spec fn fuzzy_ids(snap: Seq<WindowInfo>, entry: Seq<char>) -> Seq<u64>
    decreases snap.len(),
{
    if snap.len() == 0 {
        Seq::empty()
    } else {
        let rest = fuzzy_ids(snap.drop_last(), entry);
        if fuzzy_match(snap.last(), entry) {
            rest.push(snap.last().window.id)
        } else {
            rest
        }
    }
}

/// The ids a desktop entry flags: every exact match when there is one (exact
/// matches suppress fuzzy ones), else the fuzzy matches when fuzzy matching
/// is enabled, else nothing.
pub open spec fn desktop_entry_ids(snap: Seq<WindowInfo>, entry: Seq<char>, fuzzy: bool) -> Seq<
    u64,
> {
    if exact_ids(snap, entry).len() > 0 {
        exact_ids(snap, entry)
    } else if fuzzy {
        fuzzy_ids(snap, entry)
    } else {
        Seq::empty()
    }
}

/// The entry after the configured rename table: the table's value for it, or
/// the entry itself when the table has none.
pub open spec fn rename_lookup(map: Seq<(String, String)>, k: Seq<char>) -> Option<Seq<char>>
    decreases map.len(),
{
    if map.len() == 0 {
        None
    } else if map[0].0@ == k {
        Some(map[0].1@)
    } else {
        rename_lookup(map.drop_first(), k)
    }
}

/// Everything a notification flags: the ancestry matches when a process id
/// was given and anything matched; otherwise the desktop-entry matches, when
/// desktop-entry matching is enabled and an entry was given, after the rename
/// table is applied.
pub open spec fn notification_ids(
    snap: Seq<WindowInfo>,
    chain: Option<Vec<i64>>,
    entry: Option<String>,
    use_desktop_entry: bool,
    use_fuzzy: bool,
    app_map: Seq<(String, String)>,
) -> Seq<u64> {
    let pid_matches = match chain {
        Some(c) => ancestry_matches(snap, c@),
        None => Seq::empty(),
    };
    if pid_matches.len() > 0 {
        pid_matches
    } else if !use_desktop_entry {
        Seq::empty()
    } else {
        match entry {
            None => Seq::empty(),
            Some(e) => {
                let mapped = match rename_lookup(app_map, e@) {
                    Some(v) => v,
                    None => e@,
                };
                desktop_entry_ids(snap, mapped, use_fuzzy)
            },
        }
    }
}

/// The window owning process `pid`, by scan from the back.
fn pid_lookup<'a>(snap: &'a Vec<WindowInfo>, pid: i64) -> (r: Option<&'a WindowInfo>)
    ensures
        match r {
            Some(wi) => pid_window(snap@, pid) == Some(*wi),
            None => pid_window(snap@, pid) is None,
        },
{
    proof {
        assert(snap@.take(snap@.len() as int) =~= snap@);
    }
    let mut i: usize = snap.len();
    while i > 0
        invariant
            0 <= i <= snap@.len(),
            pid_window(snap@, pid) == pid_window(snap@.take(i as int), pid),
        decreases i,
    {
        i -= 1;
        proof {
            assert(snap@.take(i as int + 1).last() == snap@[i as int]);
            assert(snap@.take(i as int + 1).drop_last() =~= snap@.take(i as int));
        }
        let matches = match snap[i].window.pid {
            Some(p) => p == pid,
            None => false,
        };
        if matches {
            return Some(&snap[i]);
        }
    }
    None
}

/// The ids an ancestry chain flags, in chain order.
pub fn match_ancestry(snap: &Vec<WindowInfo>, chain: &Vec<i64>) -> (r: Vec<u64>)
    ensures
        r@ == ancestry_matches(snap@, chain@),
{
    proof {
        assert(chain@.skip(0) =~= chain@);
    }
    let mut out: Vec<u64> = Vec::new();
    let mut i: usize = 0;
    while i < chain.len()
        invariant
            0 <= i <= chain@.len(),
            out@ + ancestry_matches(snap@, chain@.skip(i as int)) == ancestry_matches(
                snap@,
                chain@,
            ),
        decreases chain@.len() - i,
    {
        proof {
            assert(chain@.skip(i as int)[0] == chain@[i as int]);
            assert(chain@.skip(i as int).drop_first() =~= chain@.skip(i as int + 1));
        }
        let ghost before = out@;
        if let Some(wi) = pid_lookup(snap, chain[i]) {
            if !wi.window.is_focused {
                let id = wi.window.id;
                out.push(id);
            }
        }
        proof {
            assert(out@ + ancestry_matches(snap@, chain@.skip(i as int + 1)) =~= before
                + ancestry_matches(snap@, chain@.skip(i as int)));
        }
        i += 1;
    }
    proof {
        assert(ancestry_matches(snap@, chain@.skip(chain@.len() as int)) =~= Seq::<u64>::empty());
        assert(out@ =~= out@ + ancestry_matches(snap@, chain@.skip(chain@.len() as int)));
    }
    out
}

/// The ids a (renamed) desktop entry flags.
pub fn match_desktop_entry(snap: &Vec<WindowInfo>, entry: &String, fuzzy: bool) -> (r: Vec<u64>)
    ensures
        r@ == desktop_entry_ids(snap@, entry@, fuzzy),
{
    let entry_lower = lowercase(entry.as_str());
    let entry_segment = split_suffix(entry.as_str());
    let entry_segment_lower = lowercase(entry_segment.as_str());
    let mut exact: Vec<u64> = Vec::new();
    let mut fuzzy_found: Vec<u64> = Vec::new();
    proof {
        assert(snap@.take(0) =~= Seq::<WindowInfo>::empty());
    }
    let mut i: usize = 0;
    while i < snap.len()
        invariant
            0 <= i <= snap@.len(),
            entry_lower@ == lower_of(entry@),
            entry_segment_lower@ == lower_of(last_segment_of(entry@)),
            exact@ == exact_ids(snap@.take(i as int), entry@),
            fuzzy ==> fuzzy_found@ == fuzzy_ids(snap@.take(i as int), entry@),
        decreases snap@.len() - i,
    {
        proof {
            assert(snap@.take(i as int + 1).last() == snap@[i as int]);
            assert(snap@.take(i as int + 1).drop_last() =~= snap@.take(i as int));
        }
        if let Some(app_id) = &snap[i].window.app_id {
            if app_id.eq(entry) {
                let id = snap[i].window.id;
                exact.push(id);
            } else if fuzzy {
                let app_lower = lowercase(app_id.as_str());
                if app_lower.eq(&entry_lower) {
                    let id = snap[i].window.id;
                    fuzzy_found.push(id);
                } else {
                    let segment = split_suffix(app_id.as_str());
                    let segment_lower = lowercase(segment.as_str());
                    if segment_lower.eq(&entry_segment_lower) {
                        let id = snap[i].window.id;
                        fuzzy_found.push(id);
                    }
                }
            }
        }
        i += 1;
    }
    proof {
        assert(snap@.take(snap@.len() as int) =~= snap@);
    }
    if exact.len() > 0 {
        exact
    } else if fuzzy {
        fuzzy_found
    } else {
        Vec::new()
    }
}

/// Everything a notification flags. The ancestry chain is the notification's
/// process id followed by its ancestors, in the order the process-ancestry
/// collaborator reported them; `None` when the notification carried no
/// process id.
pub fn match_notification(
    snap: &Vec<WindowInfo>,
    chain: &Option<Vec<i64>>,
    entry: &Option<String>,
    use_desktop_entry: bool,
    use_fuzzy: bool,
    app_map: &Vec<(String, String)>,
) -> (r: Vec<u64>)
    ensures
        r@ == notification_ids(snap@, *chain, *entry, use_desktop_entry, use_fuzzy, app_map@),
{
    if let Some(c) = chain {
        let pid_matches = match_ancestry(snap, c);
        if pid_matches.len() > 0 {
            return pid_matches;
        }
    }
    if !use_desktop_entry {
        return Vec::new();
    }
    match entry {
        None => Vec::new(),
        Some(e) => {
            let mapped: &String = match rename_get(app_map, e) {
                Some(v) => v,
                None => e,
            };
            match_desktop_entry(snap, mapped, use_fuzzy)
        },
    }
}

/// Look the entry up in the rename table, by scan.
fn rename_get<'a>(map: &'a Vec<(String, String)>, k: &String) -> (r: Option<&'a String>)
    ensures
        match r {
            Some(v) => rename_lookup(map@, k@) == Some(v@),
            None => rename_lookup(map@, k@) is None,
        },
{
    proof {
        assert(map@.skip(0) =~= map@);
    }
    let mut i: usize = 0;
    while i < map.len()
        invariant
            0 <= i <= map@.len(),
            rename_lookup(map@, k@) == rename_lookup(map@.skip(i as int), k@),
        decreases map@.len() - i,
    {
        proof {
            assert(map@.skip(i as int)[0] == map@[i as int]);
        }
        if map[i].0.eq(k) {
            return Some(&map[i].1);
        }
        proof {
            assert(map@.skip(i as int).drop_first() =~= map@.skip(i as int + 1));
        }
        i += 1;
    }
    None
}

/// An exact app-id match suppresses every fuzzy match: when some window
/// matches the entry exactly, the flagged set is the exact matches alone,
/// even with fuzzy matching enabled.
pub proof fn lemma_exact_suppresses_fuzzy(snap: Seq<WindowInfo>, entry: Seq<char>, i: int)
    requires
        0 <= i < snap.len(),
        exact_match(snap[i], entry),
    ensures
        desktop_entry_ids(snap, entry, true) == exact_ids(snap, entry),
        desktop_entry_ids(snap, entry, false) == exact_ids(snap, entry),
{
    lemma_exact_ids_nonempty(snap, entry, i);
}

/// A sequence holding an exact match yields a nonempty exact id list.
proof fn lemma_exact_ids_nonempty(snap: Seq<WindowInfo>, entry: Seq<char>, i: int)
    requires
        0 <= i < snap.len(),
        exact_match(snap[i], entry),
    ensures
        exact_ids(snap, entry).len() > 0,
    decreases snap.len(),
{
    if i == snap.len() - 1 {
    } else {
        assert(snap.drop_last()[i] == snap[i]);
        lemma_exact_ids_nonempty(snap.drop_last(), entry, i);
    }
}

} // verus!
