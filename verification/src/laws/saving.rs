//! Saving a workspace: what the snapshot says of its windows.

use std::collections::HashSet;

use vstd::prelude::*;
use vstd::string::*;

use crate::bridge::proto::{Op, Window, Workspace};
use crate::laws::layout::{
    after_ops, law_restored_windows_stand_as_saved, law_toggled_exactly_where_states_differ,
    Standing,
};
use crate::order::{comes_first, is_stable_order};
use crate::seqs::lemma_first_index_is_first;
use crate::snapshot::load::layout_ops;
use crate::snapshot::save::{
    are_entries_of, attach_hooks, build_snapshot, by_id, by_idx, by_name, focused_id, hook_sources,
    is_entry_of, is_saved_window, is_sorted_by_place, law_focused_entry, law_saved_windows,
    law_sorting_keeps_windows, place, places, resolve_target, saved_windows, target_windows,
    LiveState, Target, TargetError,
};
use crate::snapshot::schema::{HookData, Snapshot, Timestamp, WindowEntry};
use crate::text::{opt_str_view, opt_view, parsed_u8};

verus! {

/// The column that a window counts as: the last of all where it has none.
pub open spec fn column_of(w: Window) -> u32 {
    match w.column_index {
        Some(c) => c,
        None => u32::MAX,
    }
}

/// The tile that a window counts as: the last of all where it has none.
pub open spec fn tile_of(w: Window) -> u32 {
    match w.position_in_column {
        Some(t) => t,
        None => u32::MAX,
    }
}

proof fn lemma_saved_order(v: Seq<Window>, ws: Seq<Window>, i: int, j: int)
    requires
        is_sorted_by_place(v, ws),
        0 <= i < j < ws.len(),
    ensures
        column_of(ws[i]) <= column_of(ws[j]),
        column_of(ws[i]) == column_of(ws[j]) ==> tile_of(ws[i]) <= tile_of(ws[j]),
        column_of(ws[i]) == column_of(ws[j]) && tile_of(ws[i]) == tile_of(ws[j]) ==> ws[i].id
            <= ws[j].id,
{
    let order = choose|order: Seq<usize>| #[trigger]
        is_stable_order(places(v), order) && ws == order.map_values(|i: usize| v[i as int]);
    assert(comes_first(places(v), order[i] as int, order[j] as int));
    assert(places(v)[order[i] as int] == place(ws[i]));
    assert(places(v)[order[j] as int] == place(ws[j]));
}

proof fn lemma_save(
    name: &str,
    target: Target,
    live: &LiveState,
    protected: &HashSet<u64>,
    saved_at: Timestamp,
    snap: Snapshot,
) -> (ws: Seq<Window>)
    requires
        call_ensures(build_snapshot, (name, target, live, protected, saved_at), snap),
    ensures
        is_sorted_by_place(saved_windows(live.windows@, target.id, protected@), ws),
        are_entries_of(snap.windows@, ws),
        snap.workspace.focused_save_id == focused_id(ws),
{
    choose|ws: Seq<Window>| #[trigger]
        is_sorted_by_place(saved_windows(live.windows@, target.id, protected@), ws)
            && are_entries_of(snap.windows@, ws) && snap.workspace.focused_save_id == focused_id(ws)
}

/// A snapshot holds one entry for each window on the workspace that is not
/// protected. The entry says of its window what the bridge reported: nothing
/// is mixed up, and nothing is left out. The entries are numbered from one, by
/// column, tile and id.
pub proof fn law_snapshot_describes_the_workspace(
    name: &str,
    target: Target,
    live: &LiveState,
    protected: &HashSet<u64>,
    saved_at: Timestamp,
    snap: Snapshot,
)
    requires
        call_ensures(build_snapshot, (name, target, live, protected, saved_at), snap),
    ensures
        snap.version == 1,
        snap.name@ == name@,
        snap.saved_at == saved_at,
        snap.workspace.index == target.idx,
        snap.workspace.name == target.name,
        snap.workspace.output == target.output,
        snap.windows@.len() == live.windows@.filter(
            |w: Window| w.workspace_id == Some(target.id) && !protected@.contains(w.id),
        ).len(),
        exists|ws: Seq<Window>| #[trigger]
            ws.len() == snap.windows@.len() && (forall|w: Window| #[trigger]
                ws.contains(w) <==> live.windows@.contains(w) && w.workspace_id == Some(target.id)
                    && !protected@.contains(w.id)) && (forall|i: int|
                0 <= i < ws.len() ==> {
                    let e = #[trigger] snap.windows@[i];
                    &&& e.save_id == i + 1
                    &&& e.app_id == ws[i].app_id
                    &&& e.title == ws[i].title
                    &&& e.column_index == ws[i].column_index
                    &&& e.position_in_column == ws[i].position_in_column
                    &&& e.is_floating == ws[i].is_floating
                    &&& e.is_focused == ws[i].is_focused
                    &&& e.width == ws[i].width
                    &&& e.height == ws[i].height
                    &&& e.floating == ws[i].floating_position
                    &&& e.hook is None
                }) && (forall|i: int, j: int|
                0 <= i < j < ws.len() ==> {
                    let (a, b) = (#[trigger] ws[i], #[trigger] ws[j]);
                    ||| column_of(a) < column_of(b)
                    ||| column_of(a) == column_of(b) && tile_of(a) < tile_of(b)
                    ||| column_of(a) == column_of(b) && tile_of(a) == tile_of(b) && a.id <= b.id
                }),
{
    let ws = lemma_save(name, target, live, protected, saved_at, snap);
    let v = saved_windows(live.windows@, target.id, protected@);
    law_sorting_keeps_windows(v, ws);
    law_saved_windows(live.windows@, target.id, protected@, ws);
    let p = |w: Window| w.workspace_id == Some(target.id) && !protected@.contains(w.id);
    assert(p =~= |w: Window| is_saved_window(target.id, protected@, w));
    assert forall|i: int| 0 <= i < ws.len() implies is_entry_of(
        #[trigger] snap.windows@[i],
        ws[i],
        i + 1,
    ) by {
    }
    assert forall|i: int, j: int| 0 <= i < j < ws.len() implies {
        let (a, b) = (#[trigger] ws[i], #[trigger] ws[j]);
        ||| column_of(a) < column_of(b)
        ||| column_of(a) == column_of(b) && tile_of(a) < tile_of(b)
        ||| column_of(a) == column_of(b) && tile_of(a) == tile_of(b) && a.id <= b.id
    } by {
        lemma_saved_order(v, ws, i, j);
    }
    assert(ws.len() == snap.windows@.len());
}

/// The snapshot remembers which of its entries had the focus: one that had
/// it, the last of several, and none exactly where none had it.
pub proof fn law_snapshot_remembers_the_focus(
    name: &str,
    target: Target,
    live: &LiveState,
    protected: &HashSet<u64>,
    saved_at: Timestamp,
    snap: Snapshot,
)
    requires
        call_ensures(build_snapshot, (name, target, live, protected, saved_at), snap),
        snap.windows@.len() <= u64::MAX,
    ensures
        snap.workspace.focused_save_id matches Some(id) ==> exists|i: int|
            0 <= i < snap.windows@.len() && (#[trigger] snap.windows@[i]).save_id == id
                && snap.windows@[i].is_focused && forall|j: int|
                i < j < snap.windows@.len() ==> !(#[trigger] snap.windows@[j]).is_focused,
        snap.workspace.focused_save_id is None ==> forall|i: int|
            0 <= i < snap.windows@.len() ==> !(#[trigger] snap.windows@[i]).is_focused,
{
    let ws = lemma_save(name, target, live, protected, saved_at, snap);
    lemma_last_focused(ws);
    law_focused_entry(ws);
    assert forall|i: int| 0 <= i < ws.len() implies (#[trigger] snap.windows@[i]).is_focused
        == ws[i].is_focused && snap.windows@[i].save_id == i + 1 by {
        assert(is_entry_of(snap.windows@[i], ws[i], i + 1));
    }
    if let Some(id) = snap.workspace.focused_save_id {
        assert(snap.windows@[id - 1].save_id == id);
        assert forall|j: int| id - 1 < j < snap.windows@.len() implies !(
        #[trigger] snap.windows@[j]).is_focused by {
            assert(!ws[j].is_focused);
        }
    } else {
        assert forall|i: int| 0 <= i < snap.windows@.len() implies !(
        #[trigger] snap.windows@[i]).is_focused by {
            assert(!ws[i].is_focused);
        }
    }
}

proof fn lemma_last_focused(ws: Seq<Window>)
    requires
        ws.len() <= u64::MAX,
    ensures
        focused_id(ws) matches Some(id) ==> forall|j: int|
            id <= j < ws.len() ==> !(#[trigger] ws[j]).is_focused,
    decreases ws.len(),
{
    if ws.len() > 0 && !ws.last().is_focused {
        let front = ws.drop_last();
        lemma_last_focused(front);
        if let Some(id) = focused_id(ws) {
            assert forall|j: int| id <= j < ws.len() implies !(#[trigger] ws[j]).is_focused by {
                if j < front.len() {
                    assert(!front[j].is_focused);
                }
            }
        }
    }
}

/// Saving a workspace and restoring it on the windows that were saved asks
/// for nothing but what is so already: no window is toggled, and each is given
/// the size and, where it floats, the position that it has.
pub proof fn law_saving_and_restoring_changes_nothing(
    name: &str,
    target: Target,
    live: &LiveState,
    protected: &HashSet<u64>,
    saved_at: Timestamp,
    snap: Snapshot,
)
    requires
        call_ensures(build_snapshot, (name, target, live, protected, saved_at), snap),
        forall|i: int, j: int|
            0 <= i < j < live.windows@.len() ==> (#[trigger] live.windows@[i]).id != (
            #[trigger] live.windows@[j]).id,
    ensures
        exists|ws: Seq<Window>| #[trigger]
            ws.len() == snap.windows@.len() && (forall|w: Window| #[trigger]
                ws.contains(w) <==> live.windows@.contains(w) && w.workspace_id == Some(target.id)
                    && !protected@.contains(w.id)) && (forall|
                pairs: &Vec<(&WindowEntry, &Window)>,
                focused: Option<u64>,
                r: Vec<Op>,
                k: int,
                before: Standing,
            |
                {
                    &&& #[trigger] call_ensures(layout_ops, (pairs, focused, target.id), r)
                    &&& pairs@.len() == ws.len()
                    &&& forall|i: int|
                        0 <= i < ws.len() ==> *(#[trigger] pairs@[i]).0 == snap.windows@[i]
                            && *pairs@[i].1 == ws[i]
                    &&& 0 <= k < ws.len()
                    &&& before.workspace == ws[k].workspace_id
                    &&& before.floating == ws[k].is_floating
                    &&& before.size == (ws[k].width, ws[k].height)
                    &&& before.position == ws[k].floating_position
                } ==> {
                    &&& !r@.contains(Op::WindowToggleFloating { id: ws[k].id })
                    &&& #[trigger] after_ops(before, r@, ws[k].id) == before
                }),
{
    let ws = lemma_save(name, target, live, protected, saved_at, snap);
    let v = saved_windows(live.windows@, target.id, protected@);
    law_sorting_keeps_windows(v, ws);
    law_saved_windows(live.windows@, target.id, protected@, ws);
    crate::snapshot::save::lemma_sorted_ids(live.windows@, target.id, protected@, ws);
    assert forall|
        pairs: &Vec<(&WindowEntry, &Window)>,
        focused: Option<u64>,
        r: Vec<Op>,
        k: int,
        before: Standing,
    |
        {
            &&& #[trigger] call_ensures(layout_ops, (pairs, focused, target.id), r)
            &&& pairs@.len() == ws.len()
            &&& forall|i: int|
                0 <= i < ws.len() ==> *(#[trigger] pairs@[i]).0 == snap.windows@[i] && *pairs@[i].1
                    == ws[i]
            &&& 0 <= k < ws.len()
            &&& before.workspace == ws[k].workspace_id
            &&& before.floating == ws[k].is_floating
            &&& before.size == (ws[k].width, ws[k].height)
            &&& before.position == ws[k].floating_position
        } implies {
        &&& !r@.contains(Op::WindowToggleFloating { id: ws[k].id })
        &&& #[trigger] after_ops(before, r@, ws[k].id) == before
    } by {
        assert forall|i: int, j: int| 0 <= i < j < pairs@.len() implies (#[trigger] pairs@[i]).1.id
            != (#[trigger] pairs@[j]).1.id by {
            assert(ws[i].id != ws[j].id);
        }
        law_restored_windows_stand_as_saved(pairs, focused, target.id, r, before, k);
        law_toggled_exactly_where_states_differ(pairs, focused, target.id, r, ws[k].id);
        assert(is_entry_of(snap.windows@[k], ws[k], k + 1));
        assert(*pairs@[k].1 == ws[k]);
        assert(ws.contains(ws[k]));
        if r@.contains(Op::WindowToggleFloating { id: ws[k].id }) {
            let m = choose|m: int|
                0 <= m < pairs@.len() && (#[trigger] pairs@[m]).1.id == ws[k].id
                    && pairs@[m].0.is_floating != pairs@[m].1.is_floating;
            assert(is_entry_of(snap.windows@[m], ws[m], m + 1));
        }
    }
    assert(ws.len() == snap.windows@.len());
}

// -------------------------------------------------------------------- targets

/// The target says of a workspace what the bridge reported of it.
pub open spec fn describes(t: Target, w: Workspace) -> bool {
    t.id == w.id && t.idx == w.idx && t.name == w.name && t.output == w.output
}

/// Where the user names no workspace, the one with the focus is saved; where
/// there is none, or it is not known, nothing is.
pub proof fn law_focused_workspace_is_saved(
    live: &LiveState,
    requested: Option<&str>,
    r: Result<Target, TargetError>,
)
    requires
        call_ensures(resolve_target, (live, requested), r),
        requested is None,
    ensures
        r is Ok <==> exists|i: int|
            0 <= i < live.workspaces@.len() && Some((#[trigger] live.workspaces@[i]).id)
                == live.focused_workspace_id,
        r matches Ok(t) ==> Some(t.id) == live.focused_workspace_id && exists|i: int|
            0 <= i < live.workspaces@.len() && describes(t, #[trigger] live.workspaces@[i]),
{
    if let Some(id) = live.focused_workspace_id {
        lemma_first_index_is_first(live.workspaces@, |w: Workspace| w.id == id);
        if let Some(i) = by_id(live.workspaces@, id) {
            assert(live.workspaces@[i].id == id);
        } else {
            assert forall|i: int| 0 <= i < live.workspaces@.len() implies Some(
                (#[trigger] live.workspaces@[i]).id,
            ) != live.focused_workspace_id by {
                let p = |w: Workspace| w.id == id;
                assert(!p(live.workspaces@[i]));
            }
        }
    }
}

/// Where the user names a workspace, it is the first one with that index, or,
/// where the name is no number, with that name; there being none is an error.
pub proof fn law_named_workspace_is_saved(
    live: &LiveState,
    requested: Option<&str>,
    r: Result<Target, TargetError>,
)
    requires
        call_ensures(resolve_target, (live, requested), r),
        requested is Some,
    ensures
        parsed_u8(requested->0@) matches Some(idx) ==> {
            &&& r is Ok <==> exists|i: int|
                0 <= i < live.workspaces@.len() && (#[trigger] live.workspaces@[i]).idx == idx
            &&& r matches Ok(t) ==> t.idx == idx && exists|i: int|
                0 <= i < live.workspaces@.len() && describes(t, #[trigger] live.workspaces@[i])
                    && forall|j: int| 0 <= j < i ==> (#[trigger] live.workspaces@[j]).idx != idx
        },
        parsed_u8(requested->0@) is None ==> {
            &&& r is Ok <==> exists|i: int|
                0 <= i < live.workspaces@.len() && opt_view(
                    (#[trigger] live.workspaces@[i]).name,
                ) == Some(requested->0@)
            &&& r matches Ok(t) ==> opt_view(t.name) == Some(requested->0@) && exists|i: int|
                0 <= i < live.workspaces@.len() && describes(t, #[trigger] live.workspaces@[i])
                    && forall|j: int|
                    0 <= j < i ==> opt_view((#[trigger] live.workspaces@[j]).name) != Some(
                        requested->0@,
                    )
        },
{
    let v = live.workspaces@;
    let name = requested->0@;
    assert(opt_str_view(requested) == Some(name));
    if let Some(idx) = parsed_u8(name) {
        let p = |w: Workspace| w.idx == idx;
        lemma_first_index_is_first(v, p);
        if let Some(i) = by_idx(v, idx) {
            assert(p(v[i]));
            assert forall|j: int| 0 <= j < i implies (#[trigger] v[j]).idx != idx by {
                assert(!p(v[j]));
            }
            assert(describes(r->Ok_0, v[i]));
        } else {
            assert forall|i: int| 0 <= i < v.len() implies (#[trigger] v[i]).idx != idx by {
                assert(!p(v[i]));
            }
        }
    } else {
        let p = |w: Workspace| opt_view(w.name) == Some(name);
        lemma_first_index_is_first(v, p);
        if let Some(i) = by_name(v, name) {
            assert(p(v[i]));
            assert forall|j: int| 0 <= j < i implies opt_view((#[trigger] v[j]).name) != Some(
                name,
            ) by {
                assert(!p(v[j]));
            }
            assert(describes(r->Ok_0, v[i]));
        } else {
            assert forall|i: int| 0 <= i < v.len() implies opt_view((#[trigger] v[i]).name) != Some(
                name,
            ) by {
                assert(!p(v[i]));
            }
        }
    }
}

// ---------------------------------------------------------------------- hooks

/// What was captured of a window goes to the entry of that window and to no
/// other, and nothing else of the snapshot changes.
pub proof fn law_captures_go_to_their_entries(captured: Vec<Option<HookData>>, i: int)
    ensures
        forall|snap: &mut Snapshot, r: ()| #[trigger]
            call_ensures(attach_hooks, (snap, captured), r) && captured@.len()
                == snap.windows@.len() && 0 <= i < snap.windows@.len() ==> {
                &&& final(snap).windows@.len() == snap.windows@.len()
                &&& final(snap).name == snap.name
                &&& final(snap).workspace == snap.workspace
                &&& final(snap).windows@[i].hook == captured@[i]
                &&& final(snap).windows@[i].save_id == snap.windows@[i].save_id
                &&& final(snap).windows@[i].app_id == snap.windows@[i].app_id
                &&& final(snap).windows@[i].title == snap.windows@[i].title
                &&& final(snap).windows@[i].column_index == snap.windows@[i].column_index
                &&& final(snap).windows@[i].position_in_column
                    == snap.windows@[i].position_in_column
                &&& final(snap).windows@[i].is_floating == snap.windows@[i].is_floating
                &&& final(snap).windows@[i].is_focused == snap.windows@[i].is_focused
                &&& final(snap).windows@[i].width == snap.windows@[i].width
                &&& final(snap).windows@[i].height == snap.windows@[i].height
                &&& final(snap).windows@[i].floating == snap.windows@[i].floating
            },
{
}

/// Each entry of a snapshot gets what is captured of the very window that it
/// was made of.
pub proof fn law_entries_are_captured_from_their_windows(
    live: &LiveState,
    name: &str,
    target: Target,
    protected: &HashSet<u64>,
    saved_at: Timestamp,
    snap: Snapshot,
    all: &Vec<Window>,
    ws: Vec<Window>,
    r: Vec<Option<usize>>,
    k: int,
)
    requires
        forall|i: int, j: int|
            0 <= i < j < live.windows@.len() ==> (#[trigger] live.windows@[i]).id != (
            #[trigger] live.windows@[j]).id,
        all@ == live.windows@,
        call_ensures(build_snapshot, (name, target, live, protected, saved_at), snap),
        call_ensures(target_windows, (all, target.id, protected), ws),
        call_ensures(hook_sources, (&snap.windows, &ws), r),
        0 <= k < snap.windows@.len(),
    ensures
        r@.len() == snap.windows@.len(),
        r@[k] matches Some(i) && i < ws@.len() && snap.windows@[k].app_id == ws@[i as int].app_id
            && snap.windows@[k].title == ws@[i as int].title && snap.windows@[k].width
            == ws@[i as int].width && snap.windows@[k].height == ws@[i as int].height
            && snap.windows@[k].column_index == ws@[i as int].column_index
            && snap.windows@[k].is_floating == ws@[i as int].is_floating,
        forall|m: int| 0 <= m < snap.windows@.len() && m != k ==> #[trigger] r@[m] != r@[k],
{
    let made = lemma_save(name, target, live, protected, saved_at, snap);
    crate::snapshot::save::law_saving_is_deterministic(
        live.windows@,
        all@,
        target.id,
        protected@,
        made,
        ws@,
    );
    assert(are_entries_of(snap.windows@, ws@));
    assert(is_entry_of(snap.windows@[k], ws@[k], k + 1));
    assert(ws.len() == ws@.len());
}

/// A workspace that cannot be saved is told apart: by the number or the name
/// that was asked for, or by the focus.
pub proof fn law_missing_workspace_is_told_apart(
    live: LiveState,
    requested: Option<&str>,
    r: Result<Target, TargetError>,
)
    requires
        call_ensures(resolve_target, (&live, requested), r),
        r is Err,
    ensures
        requested is None ==> match live.focused_workspace_id {
            None => r->Err_0 is NoFocus,
            Some(id) => r->Err_0 == TargetError::NotCached(id),
        },
        requested matches Some(name) ==> match parsed_u8(name@) {
            Some(idx) => r->Err_0 == TargetError::NoIdx(idx),
            None => r->Err_0 matches TargetError::NoName(s) && s@ == name@,
        },
{
}

} // verus!
