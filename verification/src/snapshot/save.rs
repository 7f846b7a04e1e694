//! Saving a workspace: which workspace, which of its windows, in what order.
//!
//! Pinned and scratchpad windows belong to no workspace and are left out.
//! The windows are put in order by column, tile and id, so that the same set
//! of windows is always saved the same way.

use std::collections::HashSet;

use vstd::prelude::*;
use vstd::string::*;

use crate::bridge::proto::{Window, Workspace};
use crate::order::{
    comes_first, is_stable_order, lemma_order_is_complete, lemma_order_is_injective, stable_order,
    PlaceKey, SortKey,
};
use crate::seqs::{
    first_index, lemma_filter_none, lemma_filter_take, lemma_first_index, lemma_no_first_index,
};
use crate::snapshot::load::{
    find_partners, is_match, law_saved_windows_find_themselves, partners, same_position,
};
use crate::snapshot::schema::{HookData, Snapshot, Timestamp, WindowEntry, WorkspaceMeta, SCHEMA_VERSION};
use crate::text::{
    debug_text, decimal, decimal_string, opt_is, opt_str_view, opt_view, parse_u8, parsed_u8,
    quoted,
};

verus! {

broadcast use vstd::std_specs::hash::group_hash_axioms;

/// What the bridge answered about the whole state.
#[derive(Debug)]
pub struct LiveState {
    pub windows: Vec<Window>,
    pub workspaces: Vec<Workspace>,
    pub focused_window_id: Option<u64>,
    pub focused_workspace_id: Option<u64>,
}

/// The workspace that is saved.
#[derive(Debug)]
pub struct Target {
    pub id: u64,
    pub idx: u8,
    pub name: Option<String>,
    pub output: Option<String>,
}

/// Why no workspace could be chosen.
#[derive(Debug)]
pub enum TargetError {
    NoFocus,
    NotCached(u64),
    NoIdx(u8),
    NoName(String),
    /// The workspace that the snapshot was taken of is not there.
    SavedIdxAbsent(u8),
}

impl TargetError {
    /// The text that the user is told.
    pub open spec fn text(&self) -> Seq<char> {
        match self {
            TargetError::NoFocus =>
                "no workspace is currently focused; pass --workspace explicitly"@,
            TargetError::NotCached(id) => "focused workspace id "@ + decimal(*id as nat)
                + " not in cache"@,
            TargetError::NoIdx(idx) => "no workspace with idx "@ + decimal(*idx as nat),
            TargetError::NoName(name) => "no workspace named "@ + debug_text(name@),
            TargetError::SavedIdxAbsent(idx) => "workspace idx "@ + decimal(*idx as nat)
                + " from snapshot not present on this niri"@,
        }
    }

    /// The text that the user is told.
    pub fn message(&self) -> (r: String)
        ensures
            r@ == self.text(),
    {
        match self {
            TargetError::NoFocus =>
                "no workspace is currently focused; pass --workspace explicitly".to_owned(),
            TargetError::NotCached(id) => {
                let mut s = "focused workspace id ".to_owned();
                s.append(decimal_string(*id).as_str());
                s.append(" not in cache");
                s
            },
            TargetError::NoIdx(idx) => {
                let mut s = "no workspace with idx ".to_owned();
                s.append(decimal_string(*idx as u64).as_str());
                s
            },
            TargetError::NoName(name) => {
                let mut s = "no workspace named ".to_owned();
                s.append(quoted(name.as_str()).as_str());
                s
            },
            TargetError::SavedIdxAbsent(idx) => {
                let mut s = "workspace idx ".to_owned();
                s.append(decimal_string(*idx as u64).as_str());
                s.append(" from snapshot not present on this niri");
                s
            },
        }
    }
}

/// The first workspace with an id.
pub open spec fn by_id(v: Seq<Workspace>, id: u64) -> Option<int> {
    first_index(v, |w: Workspace| w.id == id)
}

/// The first workspace with an index.
pub open spec fn by_idx(v: Seq<Workspace>, idx: u8) -> Option<int> {
    first_index(v, |w: Workspace| w.idx == idx)
}

/// The first workspace with a name.
pub open spec fn by_name(v: Seq<Workspace>, name: Seq<char>) -> Option<int> {
    first_index(v, |w: Workspace| opt_view(w.name) == Some(name))
}

fn find_id(v: &Vec<Workspace>, id: u64) -> (r: Option<usize>)
    ensures
        match r {
            Some(i) => by_id(v@, id) == Some(i as int) && i < v@.len(),
            None => by_id(v@, id) is None,
        },
{
    let ghost p = |w: Workspace| w.id == id;
    let mut i: usize = 0;
    while i < v.len()
        invariant
            i <= v@.len(),
            p == (|w: Workspace| w.id == id),
            forall|j: int| 0 <= j < i ==> !p(#[trigger] v@[j]),
        decreases v@.len() - i,
    {
        if v[i].id == id {
            proof {
                lemma_first_index(v@, p, i as int);
            }
            return Some(i);
        }
        i += 1;
    }
    proof {
        lemma_no_first_index(v@, p);
    }
    None
}

/// The first workspace with an index.
pub fn find_idx(v: &Vec<Workspace>, idx: u8) -> (r: Option<usize>)
    ensures
        match r {
            Some(i) => by_idx(v@, idx) == Some(i as int) && i < v@.len(),
            None => by_idx(v@, idx) is None,
        },
{
    let ghost p = |w: Workspace| w.idx == idx;
    let mut i: usize = 0;
    while i < v.len()
        invariant
            i <= v@.len(),
            p == (|w: Workspace| w.idx == idx),
            forall|j: int| 0 <= j < i ==> !p(#[trigger] v@[j]),
        decreases v@.len() - i,
    {
        if v[i].idx == idx {
            proof {
                lemma_first_index(v@, p, i as int);
            }
            return Some(i);
        }
        i += 1;
    }
    proof {
        lemma_no_first_index(v@, p);
    }
    None
}

/// The first workspace with a name.
pub fn find_name(v: &Vec<Workspace>, name: &str) -> (r: Option<usize>)
    ensures
        match r {
            Some(i) => by_name(v@, name@) == Some(i as int) && i < v@.len(),
            None => by_name(v@, name@) is None,
        },
{
    let ghost p = |w: Workspace| opt_view(w.name) == Some(name@);
    let mut i: usize = 0;
    while i < v.len()
        invariant
            i <= v@.len(),
            p == (|w: Workspace| opt_view(w.name) == Some(name@)),
            forall|j: int| 0 <= j < i ==> !p(#[trigger] v@[j]),
        decreases v@.len() - i,
    {
        if opt_is(&v[i].name, name) {
            proof {
                lemma_first_index(v@, p, i as int);
            }
            return Some(i);
        }
        i += 1;
    }
    proof {
        lemma_no_first_index(v@, p);
    }
    None
}

/// The workspace that a user names: by its index where the name is a number,
/// and by its name otherwise.
pub open spec fn named_workspace(v: Seq<Workspace>, name: Seq<char>) -> Option<int> {
    match parsed_u8(name) {
        Some(idx) => by_idx(v, idx),
        None => by_name(v, name),
    }
}

/// The error for a workspace that a user named and that is not there.
pub open spec fn is_unknown_workspace(e: TargetError, name: Seq<char>) -> bool {
    match parsed_u8(name) {
        Some(idx) => e == TargetError::NoIdx(idx),
        None => e matches TargetError::NoName(s) && s@ == name,
    }
}

/// The workspace that a user names.
pub fn find_named(v: &Vec<Workspace>, name: &str) -> (r: Result<usize, TargetError>)
    ensures
        match r {
            Ok(i) => named_workspace(v@, name@) == Some(i as int) && i < v@.len(),
            Err(e) => named_workspace(v@, name@) is None && is_unknown_workspace(e, name@),
        },
{
    match parse_u8(name) {
        Some(idx) => match find_idx(v, idx) {
            Some(i) => Ok(i),
            None => Err(TargetError::NoIdx(idx)),
        },
        None => match find_name(v, name) {
            Some(i) => Ok(i),
            None => Err(TargetError::NoName(name.to_owned())),
        },
    }
}

/// The target is the workspace.
pub open spec fn is_target(t: Target, w: Workspace) -> bool {
    t.id == w.id && t.idx == w.idx && t.name == w.name && t.output == w.output
}

/// The workspace to save: the one that the user names, or else the one that
/// has the focus.
pub fn resolve_target(live: &LiveState, requested: Option<&str>) -> (r: Result<Target, TargetError>)
    ensures
        match opt_str_view(requested) {
            Some(name) => match named_workspace(live.workspaces@, name) {
                Some(i) => r matches Ok(t) && is_target(t, live.workspaces@[i]),
                None => r matches Err(e) && is_unknown_workspace(e, name),
            },
            None => match live.focused_workspace_id {
                None => r == Err::<Target, TargetError>(TargetError::NoFocus),
                Some(id) => match by_id(live.workspaces@, id) {
                    Some(i) => r matches Ok(t) && is_target(t, live.workspaces@[i]),
                    None => r == Err::<Target, TargetError>(TargetError::NotCached(id)),
                },
            },
        },
{
    let found = match requested {
        None => match live.focused_workspace_id {
            None => Err(TargetError::NoFocus),
            Some(id) => match find_id(&live.workspaces, id) {
                Some(i) => Ok(i),
                None => Err(TargetError::NotCached(id)),
            },
        },
        Some(name) => find_named(&live.workspaces, name),
    };
    match found {
        Ok(i) => {
            let w = &live.workspaces[i];
            Ok(
                Target {
                    id: w.id,
                    idx: w.idx,
                    name: w.name.clone(),
                    output: w.output.clone(),
                },
            )
        },
        Err(e) => Err(e),
    }
}

// ----------------------------------------------------------------- selection

/// The window is on the workspace and is not protected.
pub open spec fn is_saved_window(id: u64, protected: Set<u64>, w: Window) -> bool {
    w.workspace_id == Some(id) && !protected.contains(w.id)
}

/// The windows of a workspace that are saved, as the bridge listed them.
pub open spec fn saved_windows(all: Seq<Window>, id: u64, protected: Set<u64>) -> Seq<Window> {
    all.filter(|w: Window| is_saved_window(id, protected, w))
}

/// Where a window stands: what is not in a column comes last.
pub open spec fn place(w: Window) -> PlaceKey {
    PlaceKey {
        column: match w.column_index {
            Some(c) => c,
            None => u32::MAX,
        },
        tile: match w.position_in_column {
            Some(t) => t,
            None => u32::MAX,
        },
        id: w.id,
    }
}

fn place_of(w: &Window) -> (r: PlaceKey)
    ensures
        r == place(*w),
{
    PlaceKey {
        column: match w.column_index {
            Some(c) => c,
            None => u32::MAX,
        },
        tile: match w.position_in_column {
            Some(t) => t,
            None => u32::MAX,
        },
        id: w.id,
    }
}

/// Where each of a list of windows stands.
pub open spec fn places(v: Seq<Window>) -> Seq<PlaceKey> {
    v.map_values(|w: Window| place(w))
}

/// `r` is `v` put in order by where the windows stand.
pub open spec fn is_sorted_by_place(v: Seq<Window>, r: Seq<Window>) -> bool {
    exists|order: Seq<usize>| #[trigger]
        is_stable_order(places(v), order) && r == order.map_values(|i: usize| v[i as int])
}

/// The windows of a workspace that are saved, in the order in which they are.
pub fn target_windows(all: &Vec<Window>, id: u64, protected: &HashSet<u64>) -> (r: Vec<Window>)
    ensures
        is_sorted_by_place(saved_windows(all@, id, protected@), r@),
{
    let ghost p = |w: Window| is_saved_window(id, protected@, w);
    let mut picked: Vec<Window> = Vec::new();
    let mut keys: Vec<PlaceKey> = Vec::new();
    let mut i: usize = 0;
    proof {
        lemma_filter_none(all@, p);
        assert(keys@ =~= places(picked@));
    }
    while i < all.len()
        invariant
            i <= all@.len(),
            p == (|w: Window| is_saved_window(id, protected@, w)),
            picked@ == all@.take(i as int).filter(p),
            keys@ == places(picked@),
        decreases all@.len() - i,
    {
        let w = &all[i];
        proof {
            lemma_filter_take(all@, p, i as int);
        }
        if w.workspace_id == Some(id) && !protected.contains(&w.id) {
            picked.push(w.clone());
            keys.push(place_of(w));
            assert(keys@ =~= places(picked@));
        }
        i += 1;
    }
    assert(all@.take(all@.len() as int) =~= all@);
    let order = stable_order(&keys);
    let mut r: Vec<Window> = Vec::new();
    let mut k: usize = 0;
    while k < order.len()
        invariant
            k <= order@.len(),
            is_stable_order(keys@, order@),
            keys@.len() == picked@.len(),
            r@ == order@.take(k as int).map_values(|i: usize| picked@[i as int]),
        decreases order@.len() - k,
    {
        r.push(picked[order[k]].clone());
        k += 1;
        assert(order@.take(k as int).map_values(|i: usize| picked@[i as int]) =~= order@.take(
            k - 1,
        ).map_values(|i: usize| picked@[i as int]).push(picked@[order@[k - 1] as int]));
    }
    assert(order@.take(order@.len() as int) =~= order@);
    r
}

/// The entry that a window is saved as.
pub open spec fn is_entry_of(e: WindowEntry, w: Window, save_id: int) -> bool {
    &&& e.save_id == save_id
    &&& e.app_id == w.app_id
    &&& e.title == w.title
    &&& e.column_index == w.column_index
    &&& e.position_in_column == w.position_in_column
    &&& e.is_floating == w.is_floating
    &&& e.is_focused == w.is_focused
    &&& e.width == w.width
    &&& e.height == w.height
    &&& e.floating == w.floating_position
    &&& e.hook is None
}

/// The entries are those of the windows, numbered from one.
pub open spec fn are_entries_of(entries: Seq<WindowEntry>, ws: Seq<Window>) -> bool {
    &&& entries.len() == ws.len()
    &&& forall|i: int| 0 <= i < ws.len() ==> is_entry_of(#[trigger] entries[i], ws[i], i + 1)
}

/// The save id of the focused window among the entries: of several, the last.
pub open spec fn focused_id(ws: Seq<Window>) -> Option<u64>
    decreases ws.len(),
{
    if ws.len() == 0 {
        None
    } else if ws.last().is_focused {
        Some(ws.len() as u64)
    } else {
        focused_id(ws.drop_last())
    }
}

/// What a workspace is saved as. The time is given by the caller.
pub fn build_snapshot(
    name: &str,
    target: Target,
    live: &LiveState,
    protected_ids: &HashSet<u64>,
    saved_at: Timestamp,
) -> (r: Snapshot)
    ensures
        r.version == SCHEMA_VERSION,
        r.name@ == name@,
        r.saved_at == saved_at,
        r.workspace.index == target.idx,
        r.workspace.name == target.name,
        r.workspace.output == target.output,
        exists|ws: Seq<Window>| #[trigger]
            is_sorted_by_place(saved_windows(live.windows@, target.id, protected_ids@), ws)
                && are_entries_of(r.windows@, ws) && r.workspace.focused_save_id == focused_id(ws),
{
    let ws = target_windows(&live.windows, target.id, protected_ids);
    let mut entries: Vec<WindowEntry> = Vec::new();
    let mut focused_save_id: Option<u64> = None;
    let mut i: usize = 0;
    while i < ws.len()
        invariant
            i <= ws@.len(),
            are_entries_of(entries@, ws@.take(i as int)),
            focused_save_id == focused_id(ws@.take(i as int)),
        decreases ws@.len() - i,
    {
        let w = &ws[i];
        let save_id: u64 = i as u64 + 1;
        if w.is_focused {
            focused_save_id = Some(save_id);
        }
        entries.push(
            WindowEntry {
                save_id,
                app_id: w.app_id.clone(),
                title: w.title.clone(),
                column_index: w.column_index,
                position_in_column: w.position_in_column,
                is_floating: w.is_floating,
                is_focused: w.is_focused,
                width: w.width,
                height: w.height,
                floating: w.floating_position,
                hook: None,
            },
        );
        i += 1;
        assert(ws@.take(i as int).drop_last() =~= ws@.take(i - 1));
    }
    assert(ws@.take(ws@.len() as int) =~= ws@);
    Snapshot {
        version: SCHEMA_VERSION,
        name: name.to_owned(),
        saved_at,
        workspace: WorkspaceMeta {
            index: target.idx,
            name: target.name,
            output: target.output,
            focused_save_id,
        },
        windows: entries,
    }
}

/// The live window that each entry of a snapshot was made of, by position in
/// the list of windows that were saved.
pub fn hook_sources(entries: &Vec<WindowEntry>, ws: &Vec<Window>) -> (r: Vec<Option<usize>>)
    ensures
        r@.len() == entries@.len(),
        forall|k: int|
            0 <= k < entries@.len() ==> same_position(
                #[trigger] r@[k],
                partners(entries@, ws@)[k],
            ),
        are_entries_of(entries@, ws@) ==> forall|k: int|
            0 <= k < entries@.len() ==> #[trigger] r@[k] == Some(k as usize),
{
    let r = find_partners(entries.as_slice(), ws.as_slice());
    proof {
        if are_entries_of(entries@, ws@) {
            assert forall|i: int| 0 <= i < entries@.len() implies is_match(
                #[trigger] entries@[i],
                ws@[i],
            ) by {
                assert(is_entry_of(entries@[i], ws@[i], i + 1));
            }
            law_saved_windows_find_themselves(entries@, ws@);
            assert forall|k: int| 0 <= k < entries@.len() implies #[trigger] r@[k] == Some(
                k as usize,
            ) by {
                assert(partners(entries@, ws@)[k] == Some(k));
                assert(same_position(r@[k], partners(entries@, ws@)[k]));
            }
        }
    }
    r
}

/// The entry with another record.
pub open spec fn with_hook(e: WindowEntry, hook: Option<HookData>) -> WindowEntry {
    WindowEntry { hook, ..e }
}

/// Puts what was captured into the entries of a snapshot.
pub fn attach_hooks(snap: &mut Snapshot, captured: Vec<Option<HookData>>)
    requires
        captured@.len() == old(snap).windows@.len(),
    ensures
        final(snap).version == old(snap).version,
        final(snap).name == old(snap).name,
        final(snap).saved_at == old(snap).saved_at,
        final(snap).workspace == old(snap).workspace,
        final(snap).windows@ == old(snap).windows@.map(
            |i: int, e: WindowEntry| with_hook(e, captured@[i]),
        ),
{
    let ghost all = captured@;
    let ghost entries = snap.windows@;
    let mut captured = captured;
    let mut i: usize = snap.windows.len();
    while i > 0
        invariant
            snap.version == old(snap).version,
            snap.name == old(snap).name,
            snap.saved_at == old(snap).saved_at,
            snap.workspace == old(snap).workspace,
            entries == old(snap).windows@,
            all.len() == entries.len(),
            i <= entries.len(),
            captured@ == all.take(i as int),
            snap.windows@.len() == entries.len(),
            forall|k: int| 0 <= k < i ==> #[trigger] snap.windows@[k] == entries[k],
            forall|k: int|
                i <= k < entries.len() ==> #[trigger] snap.windows@[k] == with_hook(
                    entries[k],
                    all[k],
                ),
        decreases i,
    {
        i -= 1;
        match captured.pop() {
            Some(hook) => {
                assert(hook == all[i as int]);
                let e = &mut snap.windows[i];
                e.hook = hook;
            },
            None => {},
        }
        assert(captured@ =~= all.take(i as int));
    }
    assert(snap.windows@ =~= entries.map(|i: int, e: WindowEntry| with_hook(e, all[i])));
}

/// What the user is told after a workspace was saved.
pub fn save_summary(name: &str, windows: usize, index: u8) -> (r: String)
    ensures
        r@ == "saved snapshot "@ + name@ + " ("@ + decimal(windows as nat)
            + " windows from workspace idx "@ + decimal(index as nat) + ")"@,
{
    let mut s = "saved snapshot ".to_owned();
    s.append(name);
    s.append(" (");
    s.append(decimal_string(windows as u64).as_str());
    s.append(" windows from workspace idx ");
    s.append(decimal_string(index as u64).as_str());
    s.append(")");
    s
}

// ------------------------------------------------------------------------ laws

/// No two windows have one id.
pub open spec fn distinct_ids(v: Seq<Window>) -> bool {
    forall|i: int, j: int| 0 <= i < j < v.len() ==> (#[trigger] v[i]).id != (#[trigger] v[j]).id
}

/// Putting windows in order keeps them all and adds none.
pub proof fn law_sorting_keeps_windows(v: Seq<Window>, ws: Seq<Window>)
    requires
        is_sorted_by_place(v, ws),
    ensures
        ws.len() == v.len(),
        forall|w: Window| #[trigger] ws.contains(w) <==> v.contains(w),
{
    let order = choose|order: Seq<usize>| #[trigger]
        is_stable_order(places(v), order) && ws == order.map_values(|i: usize| v[i as int]);
    assert forall|w: Window| #[trigger] ws.contains(w) == v.contains(w) by {
        if ws.contains(w) {
            let i = choose|i: int| 0 <= i < ws.len() && ws[i] == w;
            assert(v[order[i] as int] == w);
        }
        if v.contains(w) {
            let k = choose|k: int| 0 <= k < v.len() && v[k] == w;
            lemma_order_is_complete(places(v), order, k);
            let i = choose|i: int| 0 <= i < order.len() && #[trigger] order[i] == k;
            assert(ws[i] == w);
        }
    }
}

/// What is saved of a workspace: every window on it that is not protected,
/// and nothing else.
pub proof fn law_saved_windows(all: Seq<Window>, id: u64, protected: Set<u64>, ws: Seq<Window>)
    requires
        is_sorted_by_place(saved_windows(all, id, protected), ws),
    ensures
        forall|w: Window| #[trigger]
            ws.contains(w) <==> all.contains(w) && w.workspace_id == Some(id) && !protected.contains(
                w.id,
            ),
{
    law_sorting_keeps_windows(saved_windows(all, id, protected), ws);
    assert forall|w: Window| #[trigger]
        ws.contains(w) == (all.contains(w) && is_saved_window(id, protected, w)) by {
        lemma_filter_membership(all, id, protected, w);
    }
}

proof fn lemma_filter_membership(all: Seq<Window>, id: u64, protected: Set<u64>, w: Window)
    ensures
        saved_windows(all, id, protected).contains(w) == (all.contains(w) && is_saved_window(
            id,
            protected,
            w,
        )),
{
    let p = |w: Window| is_saved_window(id, protected, w);
    let kept = all.filter(p);
    if kept.contains(w) {
        let k = choose|k: int| 0 <= k < kept.len() && kept[k] == w;
        all.lemma_filter_pred(p, k);
        all.lemma_filter_contains_rev(p, w);
    }
    if all.contains(w) && p(w) {
        let k = choose|k: int| 0 <= k < all.len() && all[k] == w;
        all.lemma_filter_contains(p, k);
    }
}

/// The windows come strictly one after the other.
spec fn strictly_placed(v: Seq<Window>) -> bool {
    forall|i: int, j: int|
        0 <= i < j < v.len() ==> place(#[trigger] v[i]).before(place(#[trigger] v[j]))
}

proof fn lemma_distinct_after_filter(all: Seq<Window>, p: spec_fn(Window) -> bool)
    requires
        distinct_ids(all),
    ensures
        distinct_ids(all.filter(p)),
    decreases all.len(),
{
    reveal(Seq::filter);
    if all.len() > 0 {
        let front = all.drop_last();
        assert(distinct_ids(front)) by {
            assert forall|i: int, j: int| 0 <= i < j < front.len() implies (#[trigger] front[i]).id
                != (#[trigger] front[j]).id by {
                assert(all[i].id != all[j].id);
            }
        }
        lemma_distinct_after_filter(front, p);
        let kept = front.filter(p);
        if p(all.last()) {
            let now = kept.push(all.last());
            assert forall|i: int, j: int| 0 <= i < j < now.len() implies (#[trigger] now[i]).id != (
            #[trigger] now[j]).id by {
                if j == kept.len() {
                    assert(kept.contains(kept[i]));
                    front.lemma_filter_contains_rev(p, kept[i]);
                    let k = choose|k: int| 0 <= k < front.len() && front[k] == kept[i];
                    assert(all[k].id != all[all.len() - 1].id);
                } else {
                    assert(kept[i].id != kept[j].id);
                }
            }
        }
    }
}

proof fn lemma_sorted_strictly(v: Seq<Window>, ws: Seq<Window>)
    requires
        distinct_ids(v),
        is_sorted_by_place(v, ws),
    ensures
        strictly_placed(ws),
{
    let order = choose|order: Seq<usize>| #[trigger]
        is_stable_order(places(v), order) && ws == order.map_values(|i: usize| v[i as int]);
    lemma_order_is_injective(places(v), order);
    assert forall|i: int, j: int| 0 <= i < j < ws.len() implies place(#[trigger] ws[i]).before(
        place(#[trigger] ws[j]),
    ) by {
        let a = order[i] as int;
        let b = order[j] as int;
        assert(comes_first(places(v), a, b));
        assert(order[i] != order[j]);
        if a < b {
            assert(v[a].id != v[b].id);
        } else {
            assert(v[b].id != v[a].id);
        }
    }
}

/// Windows with different ids have different ids in the saved order too.
pub proof fn lemma_sorted_ids(all: Seq<Window>, id: u64, protected: Set<u64>, ws: Seq<Window>)
    requires
        distinct_ids(all),
        is_sorted_by_place(saved_windows(all, id, protected), ws),
    ensures
        distinct_ids(ws),
{
    let v = saved_windows(all, id, protected);
    lemma_distinct_after_filter(all, |w: Window| is_saved_window(id, protected, w));
    let order = choose|order: Seq<usize>| #[trigger]
        is_stable_order(places(v), order) && ws == order.map_values(|i: usize| v[i as int]);
    lemma_order_is_injective(places(v), order);
    assert forall|i: int, j: int| 0 <= i < j < ws.len() implies (#[trigger] ws[i]).id != (
    #[trigger] ws[j]).id by {
        let a = order[i] as int;
        let b = order[j] as int;
        assert(order[i] != order[j]);
        if a < b {
            assert(v[a].id != v[b].id);
        } else {
            assert(v[b].id != v[a].id);
        }
    }
}

proof fn lemma_same_strict_row(a: Seq<Window>, b: Seq<Window>)
    requires
        strictly_placed(a),
        strictly_placed(b),
        forall|w: Window| #[trigger] a.contains(w) <==> b.contains(w),
    ensures
        a == b,
    decreases a.len(),
{
    if a.len() == 0 {
        if b.len() > 0 {
            assert(b.contains(b[0]));
            assert(a.contains(b[0]));
        }
        assert(a =~= b);
    } else {
        assert(a.contains(a.last()));
        let k = choose|k: int| 0 <= k < b.len() && b[k] == a.last();
        assert(b.contains(b.last()));
        assert(a.contains(b.last()));
        let m = choose|m: int| 0 <= m < a.len() && a[m] == b.last();
        if k < b.len() - 1 {
            assert(place(b[k]).before(place(b[b.len() - 1])));
            if m < a.len() - 1 {
                assert(place(a[m]).before(place(a[a.len() - 1])));
            }
            PlaceKey::before_is_asymmetric(place(a.last()), place(b.last()));
            assert(false);
        }
        let x = a.drop_last();
        let y = b.drop_last();
        assert forall|w: Window| #[trigger] x.contains(w) == y.contains(w) by {
            if x.contains(w) {
                let i = choose|i: int| 0 <= i < x.len() && x[i] == w;
                assert(a[i] == w);
                assert(a.contains(w));
                let j = choose|j: int| 0 <= j < b.len() && b[j] == w;
                if j == b.len() - 1 {
                    assert(place(a[i]).before(place(a[a.len() - 1])));
                    PlaceKey::before_is_asymmetric(place(w), place(w));
                } else {
                    assert(y[j] == w);
                }
            }
            if y.contains(w) {
                let j = choose|j: int| 0 <= j < y.len() && y[j] == w;
                assert(b[j] == w);
                assert(b.contains(w));
                assert(a.contains(w));
                let i = choose|i: int| 0 <= i < a.len() && a[i] == w;
                if i == a.len() - 1 {
                    assert(place(b[j]).before(place(b[b.len() - 1])));
                    PlaceKey::before_is_asymmetric(place(w), place(w));
                } else {
                    assert(x[i] == w);
                }
            }
        }
        assert forall|i: int, j: int| 0 <= i < j < x.len() implies place(#[trigger] x[i]).before(
            place(#[trigger] x[j]),
        ) by {
            assert(place(a[i]).before(place(a[j])));
        }
        assert forall|i: int, j: int| 0 <= i < j < y.len() implies place(#[trigger] y[i]).before(
            place(#[trigger] y[j]),
        ) by {
            assert(place(b[i]).before(place(b[j])));
        }
        lemma_same_strict_row(x, y);
        assert(a =~= x.push(a.last()));
        assert(b =~= y.push(b.last()));
    }
}

/// The same windows are always saved in the same order, however the bridge
/// listed them.
pub proof fn law_saving_is_deterministic(
    one: Seq<Window>,
    other: Seq<Window>,
    id: u64,
    protected: Set<u64>,
    from_one: Seq<Window>,
    from_other: Seq<Window>,
)
    requires
        distinct_ids(one),
        distinct_ids(other),
        forall|w: Window| #[trigger] one.contains(w) <==> other.contains(w),
        is_sorted_by_place(saved_windows(one, id, protected), from_one),
        is_sorted_by_place(saved_windows(other, id, protected), from_other),
    ensures
        from_one == from_other,
{
    let p = |w: Window| is_saved_window(id, protected, w);
    lemma_distinct_after_filter(one, p);
    lemma_distinct_after_filter(other, p);
    lemma_sorted_strictly(saved_windows(one, id, protected), from_one);
    lemma_sorted_strictly(saved_windows(other, id, protected), from_other);
    law_saved_windows(one, id, protected, from_one);
    law_saved_windows(other, id, protected, from_other);
    assert forall|w: Window| #[trigger] from_one.contains(w) == from_other.contains(w) by {
        assert(one.contains(w) == other.contains(w));
    }
    lemma_same_strict_row(from_one, from_other);
}

/// The focused save id is that of an entry that has the focus, and there is
/// one wherever an entry has it.
pub proof fn law_focused_entry(ws: Seq<Window>)
    requires
        ws.len() <= u64::MAX,
    ensures
        focused_id(ws) matches Some(k) ==> 1 <= k <= ws.len() && ws[k - 1].is_focused,
        focused_id(ws) is None <==> forall|i: int| 0 <= i < ws.len() ==> !(#[trigger] ws[i]).is_focused,
    decreases ws.len(),
{
    if ws.len() > 0 {
        let front = ws.drop_last();
        law_focused_entry(front);
        if !ws.last().is_focused {
            if focused_id(front) is None {
                assert forall|i: int| 0 <= i < ws.len() implies !(#[trigger] ws[i]).is_focused by {
                    if i < front.len() {
                        assert(!front[i].is_focused);
                    }
                }
            } else {
                let k = focused_id(front)->0;
                assert(ws[k - 1].is_focused);
            }
        } else {
            assert(ws[ws.len() - 1].is_focused);
        }
    }
}

} // verus!
