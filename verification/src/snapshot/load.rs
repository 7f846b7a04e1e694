//! Restoring a snapshot: which windows stand for the saved ones, and what is
//! done to them.
//!
//! By default every saved window is started again and found by its
//! activation token; otherwise windows that run already are taken by
//! application and title. The order of the steps matters, because the
//! compositor redistributes sizes when windows come and go:
//!
//!   place, reconcile floating, order columns, size, position floating, focus
//!
//! Sizes come late so that they are not undone, and a floating position
//! comes after the size so that it is not clamped against an old one.

use std::collections::HashSet;

use vstd::prelude::*;
use vstd::string::*;

use crate::bridge::proto::{lemma_window_fields, window_view, Op, Window, Workspace, WorkspaceRef};
use crate::bridge::state::{lists_windows, windows_view};
use crate::json::{as_id, as_text, field, items_view, lemma_items, Json, JsonView};
use crate::seqs::{
    first_index, lemma_filter_none, lemma_filter_take, lemma_first_index,
    lemma_first_index_is_first, lemma_no_first_index,
};
use crate::snapshot::hooks::{
    dispatch, fits, hook_for, hook_view, is_argv, just, law_built_argv_is_not_empty,
    law_recorded_window_can_be_started, AppHook, Facts, GenericHook, Hook, HookError, HookView,
    Outcome,
};
use crate::snapshot::save::{
    by_idx, find_idx, find_named, is_unknown_workspace, named_workspace, TargetError,
};
use crate::snapshot::schema::{HookData, WindowEntry};
use crate::text::{decimal, decimal_string, opt_eq, opt_str_view, opt_view};

verus! {

broadcast use vstd::std_specs::hash::group_hash_axioms;

// --------------------------------------------------------- protected windows

/// The window id that an element of a list names: the element itself, or the
/// id of the record that it is.
pub open spec fn listed_id(j: JsonView) -> Option<u64> {
    match as_id(j) {
        Some(id) => Some(id),
        None => as_id(field(j, "id"@)),
    }
}

/// The window ids that a list names; anything but a list names none.
pub open spec fn listed_ids(j: JsonView) -> Set<u64> {
    match j {
        JsonView::Arr(items) => Set::new(
            |id: u64|
                exists|i: int| 0 <= i < items.len() && listed_id(#[trigger] items[i]) == Some(id),
        ),
        _ => Set::empty(),
    }
}

fn element_id(j: &Json) -> (r: Option<u64>)
    ensures
        r == listed_id(j@),
{
    match j.as_u64() {
        Some(id) => Some(id),
        None => match j.get("id") {
            Some(v) => v.as_u64(),
            None => None,
        },
    }
}

/// Adds the window ids that an answer lists.
pub fn add_listed_ids(ids: &mut HashSet<u64>, answer: &Json)
    ensures
        final(ids)@ == old(ids)@.union(listed_ids(answer@)),
{
    match answer.as_array() {
        Some(items) => {
            let ghost all = items_view(items@);
            proof {
                lemma_items(items@);
            }
            let mut i: usize = 0;
            assert(ids@ =~= old(ids)@.union(listed_ids(JsonView::Arr(all.take(0)))));
            while i < items.len()
                invariant
                    i <= items@.len(),
                    all == items_view(items@),
                    all.len() == items@.len(),
                    forall|k: int| 0 <= k < items@.len() ==> #[trigger] all[k] == items@[k]@,
                    ids@ == old(ids)@.union(listed_ids(JsonView::Arr(all.take(i as int)))),
                decreases items@.len() - i,
            {
                let ghost before = ids@;
                assert(all[i as int] == items@[i as int]@);
                match element_id(&items[i]) {
                    Some(id) => {
                        ids.insert(id);
                    },
                    None => {},
                }
                i += 1;
                proof {
                    let more = all.take(i as int);
                    let fewer = all.take(i - 1);
                    assert forall|id: u64| #[trigger]
                        ids@.contains(id) == old(ids)@.union(
                            listed_ids(JsonView::Arr(more)),
                        ).contains(id) by {
                        if listed_ids(JsonView::Arr(fewer)).contains(id) {
                            let k = choose|k: int|
                                0 <= k < fewer.len() && listed_id(#[trigger] fewer[k]) == Some(id);
                            assert(more[k] == fewer[k]);
                        }
                        assert(more[i - 1] == all[i - 1]);
                        if listed_ids(JsonView::Arr(more)).contains(id) {
                            let k = choose|k: int|
                                0 <= k < more.len() && listed_id(#[trigger] more[k]) == Some(id);
                            if k < i - 1 {
                                assert(fewer[k] == more[k]);
                            }
                        }
                    }
                    assert(ids@ =~= old(ids)@.union(listed_ids(JsonView::Arr(more))));
                }
            }
            assert(all.take(all.len() as int) =~= all);
        },
        None => {
            assert(ids@ =~= old(ids)@.union(Set::<u64>::empty()));
        },
    }
}

/// What a client reads out of the bridge's list of pinned windows is exactly
/// the windows that are pinned and cached.
pub proof fn law_pinned_windows_are_protected(v: Seq<Window>, pinned: Map<u64, Window>)
    requires
        lists_windows(v, pinned),
        forall|id: u64| #[trigger] pinned.contains_key(id) ==> pinned[id].id == id,
    ensures
        listed_ids(windows_view(v)) == pinned.dom(),
{
    let ids = choose|ids: Seq<u64>| #[trigger]
        crate::bridge::state::enumerates(ids, pinned.dom()) && v == ids.map_values(
            |id: u64| pinned[id],
        );
    let items = v.map_values(|w: Window| window_view(w));
    assert forall|i: int| 0 <= i < items.len() implies listed_id(#[trigger] items[i]) == Some(ids[i]) by {
        assert(ids.to_set().contains(ids[i]));
        assert(items[i] == window_view(v[i]));
        lemma_window_fields(v[i]);
    }
    assert forall|id: u64| #[trigger]
        listed_ids(windows_view(v)).contains(id) == pinned.dom().contains(id) by {
        if pinned.dom().contains(id) {
            assert(ids.to_set().contains(id));
            let i = choose|i: int| 0 <= i < ids.len() && ids[i] == id;
            assert(listed_id(items[i]) == Some(id));
        }
        if listed_ids(windows_view(v)).contains(id) {
            let i = choose|i: int| 0 <= i < items.len() && listed_id(#[trigger] items[i]) == Some(id);
            assert(ids.to_set().contains(ids[i]));
        }
    }
    assert(listed_ids(windows_view(v)) =~= pinned.dom());
}

/// The window is on the workspace, and nothing keeps it from being closed.
pub open spec fn is_cleared(
    target_id: u64,
    pinned: Set<u64>,
    scratch: Set<u64>,
    matched: Set<u64>,
    w: Window,
) -> bool {
    &&& w.workspace_id == Some(target_id)
    &&& !pinned.contains(w.id)
    &&& !scratch.contains(w.id)
    &&& !matched.contains(w.id)
}

/// The windows that are closed before a snapshot is restored: all on the
/// workspace that are not pinned, not in the scratchpad and not about to be
/// placed.
pub fn compute_clear_set(
    live: &[Window],
    target_id: u64,
    pinned: &HashSet<u64>,
    scratch: &HashSet<u64>,
    matched: &HashSet<u64>,
) -> (r: Vec<u64>)
    ensures
        r@ == live@.filter(
            |w: Window| is_cleared(target_id, pinned@, scratch@, matched@, w),
        ).map_values(|w: Window| w.id),
{
    let ghost p = |w: Window| is_cleared(target_id, pinned@, scratch@, matched@, w);
    let mut r: Vec<u64> = Vec::new();
    let mut i: usize = 0;
    proof {
        lemma_filter_none(live@, p);
    }
    while i < live.len()
        invariant
            i <= live@.len(),
            p == (|w: Window| is_cleared(target_id, pinned@, scratch@, matched@, w)),
            r@ == live@.take(i as int).filter(p).map_values(|w: Window| w.id),
        decreases live@.len() - i,
    {
        let w = &live[i];
        proof {
            lemma_filter_take(live@, p, i as int);
        }
        if w.workspace_id == Some(target_id) && !pinned.contains(&w.id) && !scratch.contains(&w.id)
            && !matched.contains(&w.id) {
            r.push(w.id);
        }
        i += 1;
    }
    r
}

// ------------------------------------------------------------------ matching

/// The saved and the live window have one application and one title.
pub open spec fn is_match(s: WindowEntry, w: Window) -> bool {
    opt_view(s.app_id) == opt_view(w.app_id) && opt_view(s.title) == opt_view(w.title)
}

/// The positions of a list.
pub open spec fn positions(n: nat) -> Seq<int> {
    Seq::new(n, |i: int| i)
}

/// The first live window that matches a saved one and that no earlier saved
/// window has taken.
pub open spec fn first_free(
    live: Seq<Window>,
    taken: Seq<Option<int>>,
    s: WindowEntry,
) -> Option<int> {
    first_index(
        positions(live.len()),
        |i: int| !taken.contains(Some(i)) && is_match(s, live[i]),
    )
}

/// The live window that each saved one takes, in the order of the saved ones.
pub open spec fn partners(saved: Seq<WindowEntry>, live: Seq<Window>) -> Seq<Option<int>>
    decreases saved.len(),
{
    if saved.len() == 0 {
        Seq::empty()
    } else {
        let earlier = partners(saved.drop_last(), live);
        earlier.push(first_free(live, earlier, saved.last()))
    }
}

/// A position, as the library counts, is the one of the model.
pub open spec fn same_position(a: Option<usize>, b: Option<int>) -> bool {
    match (a, b) {
        (Some(i), Some(j)) => i == j,
        (None, None) => true,
        _ => false,
    }
}

/// Finds the live window that each saved one takes.
pub fn find_partners(saved: &[WindowEntry], live: &[Window]) -> (r: Vec<Option<usize>>)
    ensures
        r@.len() == saved@.len(),
        forall|k: int|
            0 <= k < saved@.len() ==> same_position(#[trigger] r@[k], partners(saved@, live@)[k]),
        forall|k: int| 0 <= k < saved@.len() ==> ((#[trigger] r@[k]) matches Some(i) ==> i < live@.len()),
{
    let mut used: Vec<bool> = Vec::new();
    let mut n: usize = 0;
    while n < live.len()
        invariant
            n <= live@.len(),
            used@.len() == n,
            forall|i: int| 0 <= i < n ==> !(#[trigger] used@[i]),
        decreases live@.len() - n,
    {
        used.push(false);
        n += 1;
    }
    let mut r: Vec<Option<usize>> = Vec::new();
    let mut k: usize = 0;
    proof {
        assert(saved@.take(0).len() == 0);
        assert(partners(saved@.take(0), live@) =~= Seq::empty());
    }
    while k < saved.len()
        invariant
            k <= saved@.len(),
            used@.len() == live@.len(),
            r@.len() == k,
            partners(saved@.take(k as int), live@).len() == k,
            forall|m: int|
                0 <= m < k ==> same_position(
                    #[trigger] r@[m],
                    partners(saved@.take(k as int), live@)[m],
                ),
            forall|m: int| 0 <= m < k ==> ((#[trigger] r@[m]) matches Some(i) ==> i < live@.len()),
            forall|i: int|
                0 <= i < live@.len() ==> #[trigger] used@[i] == partners(
                    saved@.take(k as int),
                    live@,
                ).contains(Some(i)),
        decreases saved@.len() - k,
    {
        let ghost earlier = partners(saved@.take(k as int), live@);
        let ghost s = saved@[k as int];
        let ghost free = |i: int| !earlier.contains(Some(i)) && is_match(s, live@[i]);
        let mut i: usize = 0;
        let mut found: Option<usize> = None;
        while i < live.len() && found.is_none()
            invariant
                i <= live@.len(),
                k < saved@.len(),
                s == saved@[k as int],
                used@.len() == live@.len(),
                free == (|i: int| !earlier.contains(Some(i)) && is_match(s, live@[i])),
                forall|i: int| 0 <= i < live@.len() ==> #[trigger] used@[i] == earlier.contains(Some(i)),
                found is None ==> forall|j: int| 0 <= j < i ==> !free(#[trigger] positions(live@.len())[j]),
                found matches Some(f) ==> f < live@.len() && free(f as int) && forall|j: int|
                    0 <= j < f ==> !free(#[trigger] positions(live@.len())[j]),
            decreases live@.len() - i,
        {
            let w = &live[i];
            if !used[i] && opt_eq(&saved[k].app_id, &w.app_id) && opt_eq(&saved[k].title, &w.title) {
                found = Some(i);
            }
            i += 1;
        }
        proof {
            match found {
                Some(f) => {
                    lemma_first_index(positions(live@.len()), free, f as int);
                },
                None => {
                    lemma_no_first_index(positions(live@.len()), free);
                },
            }
            assert(saved@.take(k + 1).drop_last() =~= saved@.take(k as int));
            assert(partners(saved@.take(k + 1), live@) == earlier.push(first_free(live@, earlier, s)));
            assert(same_position(found, first_free(live@, earlier, s)));
        }
        let ghost used_before = used@;
        match found {
            Some(f) => {
                used.set(f, true);
            },
            None => {},
        }
        r.push(found);
        k += 1;
        proof {
            let now = partners(saved@.take(k as int), live@);
            assert forall|i: int| 0 <= i < live@.len() implies #[trigger] used@[i] == now.contains(
                Some(i),
            ) by {
                if earlier.contains(Some(i)) {
                    let m = choose|m: int| 0 <= m < earlier.len() && earlier[m] == Some(i);
                    assert(now[m] == Some(i));
                }
                if now.contains(Some(i)) {
                    let m = choose|m: int| 0 <= m < now.len() && now[m] == Some(i);
                    if m < earlier.len() {
                        assert(earlier[m] == Some(i));
                    }
                }
                assert(used_before[i] == earlier.contains(Some(i)));
                if found == Some(i as usize) {
                    assert(now[k - 1] == Some(i));
                }
            }
            assert forall|m: int| 0 <= m < k implies same_position(#[trigger] r@[m], now[m]) by {
                if m < k - 1 {
                    assert(now[m] == earlier[m]);
                }
            }
        }
    }
    assert(saved@.take(saved@.len() as int) =~= saved@);
    r
}

/// The pairs of saved and live windows, in the order of the saved ones. What
/// finds no partner is left out.
pub open spec fn pair_list(saved: Seq<WindowEntry>, live: Seq<Window>) -> Seq<(WindowEntry, Window)>
    decreases saved.len(),
{
    if saved.len() == 0 {
        Seq::empty()
    } else {
        let earlier = pair_list(saved.drop_last(), live);
        match partners(saved, live).last() {
            Some(i) => earlier.push((saved.last(), live[i])),
            None => earlier,
        }
    }
}

/// The references point to these pairs.
pub open spec fn are_pairs(r: Seq<(&WindowEntry, &Window)>, pairs: Seq<(WindowEntry, Window)>) -> bool {
    &&& r.len() == pairs.len()
    &&& forall|i: int| 0 <= i < r.len() ==> *(#[trigger] r[i]).0 == pairs[i].0 && *r[i].1 == pairs[i].1
}

/// What earlier saved windows take does not depend on later ones.
pub proof fn lemma_partners_prefix(saved: Seq<WindowEntry>, live: Seq<Window>, n: int)
    requires
        0 <= n <= saved.len(),
    ensures
        partners(saved, live).len() == saved.len(),
        partners(saved.take(n), live) == partners(saved, live).take(n),
    decreases saved.len(),
{
    if n == saved.len() {
        assert(saved.take(n) =~= saved);
        if saved.len() > 0 {
            lemma_partners_prefix(saved.drop_last(), live, saved.len() - 1);
        }
        assert(partners(saved, live).take(n) =~= partners(saved, live));
    } else {
        lemma_partners_prefix(saved.drop_last(), live, n);
        assert(saved.drop_last().take(n) =~= saved.take(n));
        assert(partners(saved, live).take(n) =~= partners(saved.drop_last(), live).take(n));
    }
}

/// Pairs saved with live windows by application and title: each saved window
/// takes the first live one that matches and that is not taken yet.
pub fn match_pairs<'s, 'l>(saved: &'s [WindowEntry], live: &'l [Window]) -> (r: Vec<
    (&'s WindowEntry, &'l Window),
>)
    ensures
        are_pairs(r@, pair_list(saved@, live@)),
{
    let found = find_partners(saved, live);
    let mut r: Vec<(&'s WindowEntry, &'l Window)> = Vec::new();
    let mut k: usize = 0;
    assert(pair_list(saved@.take(0), live@) =~= Seq::empty());
    while k < saved.len()
        invariant
            k <= saved@.len(),
            found@.len() == saved@.len(),
            forall|m: int|
                0 <= m < saved@.len() ==> same_position(
                    #[trigger] found@[m],
                    partners(saved@, live@)[m],
                ),
            forall|m: int|
                0 <= m < saved@.len() ==> ((#[trigger] found@[m]) matches Some(i) ==> i < live@.len()),
            are_pairs(r@, pair_list(saved@.take(k as int), live@)),
        decreases saved@.len() - k,
    {
        proof {
            lemma_partners_prefix(saved@, live@, k + 1);
            assert(saved@.take(k + 1).drop_last() =~= saved@.take(k as int));
            assert(partners(saved@.take(k + 1), live@).last() == partners(saved@, live@)[k as int]);
            assert(same_position(found@[k as int], partners(saved@, live@)[k as int]));
        }
        match found[k] {
            Some(i) => {
                r.push((&saved[k], &live[i]));
            },
            None => {},
        }
        k += 1;
    }
    assert(saved@.take(saved@.len() as int) =~= saved@);
    r
}

/// A saved window takes a live one that matches it; no two take the same; and
/// one that takes none finds every match taken by an earlier one.
pub proof fn law_matching(saved: Seq<WindowEntry>, live: Seq<Window>)
    ensures
        partners(saved, live).len() == saved.len(),
        forall|k: int|
            0 <= k < saved.len() ==> ((#[trigger] partners(saved, live)[k]) matches Some(i) ==> 0 <= i
                < live.len() && is_match(saved[k], live[i])),
        forall|a: int, b: int|
            0 <= a < b < saved.len() && (#[trigger] partners(saved, live)[a]) is Some ==> partners(
                saved,
                live,
            )[a] != #[trigger] partners(saved, live)[b],
        forall|k: int, i: int|
            0 <= k < saved.len() && 0 <= i < live.len() && partners(saved, live)[k] is None
                && #[trigger] is_match(saved[k], live[i]) ==> partners(saved, live).take(k).contains(
                Some(i),
            ),
    decreases saved.len(),
{
    if saved.len() > 0 {
        let front = saved.drop_last();
        let earlier = partners(front, live);
        let all = partners(saved, live);
        let s = saved.last();
        let free = |i: int| !earlier.contains(Some(i)) && is_match(s, live[i]);
        law_matching(front, live);
        lemma_first_index_is_first(positions(live.len()), free);
        assert forall|k: int| 0 <= k < saved.len() implies ((#[trigger] all[k]) matches Some(i) ==> 0
            <= i < live.len() && is_match(saved[k], live[i])) by {
            if k < front.len() {
                assert(all[k] == earlier[k]);
                assert(saved[k] == front[k]);
            }
        }
        assert forall|a: int, b: int|
            0 <= a < b < saved.len() && (#[trigger] all[a]) is Some implies all[a]
            != #[trigger] all[b] by {
            assert(all[a] == earlier[a]);
            if b < front.len() {
                assert(all[b] == earlier[b]);
            } else if all[a] == all[b] {
                let i = all[b]->0;
                assert(free(positions(live.len())[i]));
                assert(earlier.contains(Some(i)));
            }
        }
        assert forall|k: int, i: int|
            0 <= k < saved.len() && 0 <= i < live.len() && all[k] is None && #[trigger] is_match(
                saved[k],
                live[i],
            ) implies all.take(k).contains(Some(i)) by {
            if k < front.len() {
                assert(all[k] == earlier[k]);
                assert(is_match(front[k], live[i]));
                assert(earlier.take(k) =~= all.take(k));
            } else {
                assert(!free(positions(live.len())[i]));
                assert(all.take(k) =~= earlier);
            }
        }
    }
}

/// Where the saved windows match the live ones position by position, each
/// takes the one at its own position.
pub proof fn law_saved_windows_find_themselves(saved: Seq<WindowEntry>, live: Seq<Window>)
    requires
        saved.len() == live.len(),
        forall|i: int| 0 <= i < saved.len() ==> is_match(#[trigger] saved[i], live[i]),
    ensures
        partners(saved, live) == Seq::new(saved.len(), |i: int| Some(i)),
{
    lemma_identity(saved, live, saved.len() as int);
    assert(saved.take(saved.len() as int) =~= saved);
    assert(partners(saved, live) =~= Seq::new(saved.len(), |i: int| Some(i)));
}

proof fn lemma_identity(saved: Seq<WindowEntry>, live: Seq<Window>, n: int)
    requires
        0 <= n <= saved.len(),
        saved.len() == live.len(),
        forall|i: int| 0 <= i < saved.len() ==> is_match(#[trigger] saved[i], live[i]),
    ensures
        partners(saved.take(n), live).len() == n,
        forall|k: int| 0 <= k < n ==> #[trigger] partners(saved.take(n), live)[k] == Some(k),
    decreases n,
{
    if n > 0 {
        lemma_identity(saved, live, n - 1);
        let earlier = partners(saved.take(n - 1), live);
        let s = saved[n - 1];
        let free = |i: int| !earlier.contains(Some(i)) && is_match(s, live[i]);
        assert(saved.take(n).drop_last() =~= saved.take(n - 1));
        assert forall|j: int| 0 <= j < n - 1 implies !free(#[trigger] positions(live.len())[j]) by {
            assert(earlier[j] == Some(j));
        }
        assert(!earlier.contains(Some(n - 1)));
        lemma_first_index(positions(live.len()), free, n - 1);
    }
}

// -------------------------------------------------------------------- layout

/// A pair stands in a column: it is tiled and its column is known.
pub open spec fn in_column(p: (WindowEntry, Window), column: u32) -> bool {
    !p.0.is_floating && p.0.column_index == Some(column)
}

/// The window that moves a column: the first of it.
pub open spec fn column_mover(pairs: Seq<(WindowEntry, Window)>, column: u32) -> Option<int> {
    first_index(pairs, |p: (WindowEntry, Window)| in_column(p, column))
}

/// `columns` is every column that a pair stands in, each once, the greatest
/// first.
pub open spec fn are_columns(columns: Seq<u32>, pairs: Seq<(WindowEntry, Window)>) -> bool {
    &&& forall|i: int, j: int| 0 <= i < j < columns.len() ==> (#[trigger] columns[i]) > (#[trigger] columns[j])
    &&& forall|i: int| 0 <= i < columns.len() ==> column_mover(pairs, #[trigger] columns[i]) is Some
    &&& forall|k: int, column: u32|
        0 <= k < pairs.len() && #[trigger] in_column(pairs[k], column) ==> columns.contains(column)
}

/// Every window is moved to the workspace.
pub open spec fn place_ops(pairs: Seq<(WindowEntry, Window)>, target_id: u64) -> Seq<Op> {
    pairs.map_values(
        |p: (WindowEntry, Window)|
            Op::WindowMoveToWorkspace {
                id: p.1.id,
                workspace: WorkspaceRef::Id { id: target_id },
            },
    )
}

/// A window floats where it did not, or the other way round.
pub open spec fn floating_differs(p: (WindowEntry, Window)) -> bool {
    p.0.is_floating != p.1.is_floating
}

/// Windows that float and should not, or should and do not, are toggled.
pub open spec fn toggle_ops(pairs: Seq<(WindowEntry, Window)>) -> Seq<Op> {
    pairs.filter(|p: (WindowEntry, Window)| floating_differs(p)).map_values(
        |p: (WindowEntry, Window)| Op::WindowToggleFloating { id: p.1.id },
    )
}

/// Each column is moved to the front, the last one first: so the columns end
/// up in their order, whatever a move does to the others.
pub open spec fn column_ops(columns: Seq<u32>, pairs: Seq<(WindowEntry, Window)>) -> Seq<Op> {
    columns.map_values(
        |c: u32|
            Op::WindowMoveColumnToIndex { id: pairs[column_mover(pairs, c)->0].1.id, index: 0 },
    )
}

/// Every window is sized.
pub open spec fn size_ops(pairs: Seq<(WindowEntry, Window)>) -> Seq<Op> {
    pairs.map_values(
        |p: (WindowEntry, Window)|
            Op::WindowSetSize { id: p.1.id, w: p.0.width, h: p.0.height },
    )
}

/// A saved window floats at a known position.
pub open spec fn has_position(p: (WindowEntry, Window)) -> bool {
    p.0.is_floating && p.0.floating is Some
}

/// Floating windows are put at their positions.
pub open spec fn position_ops(pairs: Seq<(WindowEntry, Window)>) -> Seq<Op> {
    pairs.filter(|p: (WindowEntry, Window)| has_position(p)).map_values(
        |p: (WindowEntry, Window)|
            Op::WindowSetFloatingPosition {
                id: p.1.id,
                x: p.0.floating->0.x,
                y: p.0.floating->0.y,
            },
    )
}

/// The first pair with the save id that had the focus.
pub open spec fn focused_pair(pairs: Seq<(WindowEntry, Window)>, focused: Option<u64>) -> Option<int> {
    match focused {
        Some(save_id) => first_index(pairs, |p: (WindowEntry, Window)| p.0.save_id == save_id),
        None => None,
    }
}

/// The window that had the focus gets it.
pub open spec fn focus_ops(pairs: Seq<(WindowEntry, Window)>, focused: Option<u64>) -> Seq<Op> {
    match focused_pair(pairs, focused) {
        Some(i) => seq![Op::WindowFocus { id: pairs[i].1.id }],
        None => seq![],
    }
}

/// All steps of restoring a layout, in order.
pub open spec fn is_layout(
    ops: Seq<Op>,
    columns: Seq<u32>,
    pairs: Seq<(WindowEntry, Window)>,
    focused: Option<u64>,
    target_id: u64,
) -> bool {
    ops == place_ops(pairs, target_id) + toggle_ops(pairs) + column_ops(columns, pairs) + size_ops(
        pairs,
    ) + position_ops(pairs) + focus_ops(pairs, focused)
}

/// The values of the pairs.
pub open spec fn pair_values(r: Seq<(&WindowEntry, &Window)>) -> Seq<(WindowEntry, Window)> {
    r.map_values(|p: (&WindowEntry, &Window)| (*p.0, *p.1))
}

/// The columns that pairs stand in, the greatest first, each with the id of
/// the window that moves it.
fn column_movers(pairs: &Vec<(&WindowEntry, &Window)>) -> (r: Vec<(u32, u64)>)
    ensures
        are_columns(r@.map_values(|m: (u32, u64)| m.0), pair_values(pairs@)),
        forall|i: int|
            0 <= i < r@.len() ==> (#[trigger] r@[i]).1 == pair_values(pairs@)[column_mover(
                pair_values(pairs@),
                r@[i].0,
            )->0].1.id,
{
    let ghost all = pair_values(pairs@);
    let mut r: Vec<(u32, u64)> = Vec::new();
    let mut k: usize = 0;
    while k < pairs.len()
        invariant
            k <= pairs@.len(),
            all == pair_values(pairs@),
            forall|i: int, j: int| 0 <= i < j < r@.len() ==> (#[trigger] r@[i]).0 > (#[trigger] r@[j]).0,
            forall|i: int|
                0 <= i < r@.len() ==> {
                    &&& column_mover(all, (#[trigger] r@[i]).0) matches Some(m)
                    &&& 0 <= m < k
                    &&& r@[i].1 == all[m].1.id
                },
            forall|m: int, column: u32|
                0 <= m < k && #[trigger] in_column(all[m], column) ==> exists|i: int|
                    0 <= i < r@.len() && (#[trigger] r@[i]).0 == column,
        decreases pairs@.len() - k,
    {
        let saved = pairs[k].0;
        let live = pairs[k].1;
        assert(all[k as int] == (*saved, *live));
        let ghost before = r@;
        if !saved.is_floating {
            match saved.column_index {
                Some(column) => {
                    let mut p: usize = 0;
                    while p < r.len() && r[p].0 > column
                        invariant
                            p <= r@.len(),
                            r@ == before,
                            forall|i: int| 0 <= i < p ==> (#[trigger] r@[i]).0 > column,
                        decreases r@.len() - p,
                    {
                        p += 1;
                    }
                    let known = p < r.len() && r[p].0 == column;
                    if !known {
                        proof {
                            let q = |x: (WindowEntry, Window)| in_column(x, column);
                            assert forall|m: int| 0 <= m < k implies !q(#[trigger] all[m]) by {
                                if in_column(all[m], column) {
                                    let i = choose|i: int|
                                        0 <= i < before.len() && (#[trigger] before[i]).0 == column;
                                    if i < p {
                                        assert(before[i].0 > column);
                                    } else if i > p {
                                        assert(before[p as int].0 > before[i].0);
                                    }
                                }
                            }
                            lemma_first_index(all, q, k as int);
                        }
                        r.insert(p, (column, live.id));
                        proof {
                            assert forall|i: int, j: int| 0 <= i < j < r@.len() implies (
                            #[trigger] r@[i]).0 > (#[trigger] r@[j]).0 by {
                                let a = if i < p {
                                    i
                                } else {
                                    i - 1
                                };
                                let b = if j < p {
                                    j
                                } else {
                                    j - 1
                                };
                                if i == p {
                                    assert(r@[j] == before[j - 1]);
                                    if j - 1 > p {
                                        assert(before[p as int].0 > before[j - 1].0);
                                    }
                                } else if j == p {
                                    assert(r@[i] == before[i]);
                                    assert(before[i].0 > column);
                                } else {
                                    assert(r@[i] == before[a]);
                                    assert(r@[j] == before[b]);
                                }
                            }
                            assert forall|i: int| 0 <= i < r@.len() implies {
                                &&& column_mover(all, (#[trigger] r@[i]).0) matches Some(m)
                                &&& 0 <= m < k + 1
                                &&& r@[i].1 == all[m].1.id
                            } by {
                                if i < p {
                                    assert(r@[i] == before[i]);
                                } else if i > p {
                                    assert(r@[i] == before[i - 1]);
                                }
                            }
                            assert forall|i: int| 0 <= i < before.len() implies exists|j: int|
                                0 <= j < r@.len() && (#[trigger] r@[j]).0 == (#[trigger] before[i]).0 by {
                                if i < p {
                                    assert(r@[i] == before[i]);
                                } else {
                                    assert(r@[i + 1] == before[i]);
                                }
                            }
                        }
                        assert(r@[p as int].0 == column);
                    } else {
                        assert(r@[p as int].0 == column);
                    }
                },
                None => {},
            }
        }
        k += 1;
        proof {
            assert forall|m: int, column: u32|
                0 <= m < k && #[trigger] in_column(all[m], column) implies exists|i: int|
                0 <= i < r@.len() && (#[trigger] r@[i]).0 == column by {
                if m < k - 1 {
                    let i = choose|i: int|
                        0 <= i < before.len() && (#[trigger] before[i]).0 == column;
                    assert(before[i].0 == column);
                }
            }
        }
    }
    proof {
        let columns = r@.map_values(|m: (u32, u64)| m.0);
        assert forall|m: int, column: u32|
            0 <= m < all.len() && #[trigger] in_column(all[m], column) implies columns.contains(
            column,
        ) by {
            let i = choose|i: int| 0 <= i < r@.len() && (#[trigger] r@[i]).0 == column;
            assert(columns[i] == column);
        }
    }
    r
}

/// Moves every window to the workspace.
fn place(pairs: &Vec<(&WindowEntry, &Window)>, target_id: u64) -> (r: Vec<Op>)
    ensures
        r@ == place_ops(pair_values(pairs@), target_id),
{
    let ghost all = pair_values(pairs@);
    let mut ops: Vec<Op> = Vec::new();
    let mut i: usize = 0;
    assert(ops@ =~= place_ops(all.take(0), target_id));
    while i < pairs.len()
        invariant
            i <= pairs@.len(),
            all == pair_values(pairs@),
            ops@ == place_ops(all.take(i as int), target_id),
        decreases pairs@.len() - i,
    {
        let saved = pairs[i].0;
        let live = pairs[i].1;
        assert(all[i as int] == (*saved, *live));
        ops.push(
            Op::WindowMoveToWorkspace {
                id: live.id,
                workspace: WorkspaceRef::Id { id: target_id },
            },
        );
        i += 1;
        assert(ops@ =~= place_ops(all.take(i as int), target_id));
    }
    assert(all.take(all.len() as int) =~= all);
    ops
}

/// Toggles the windows of which the floating state differs.
fn toggles(pairs: &Vec<(&WindowEntry, &Window)>) -> (r: Vec<Op>)
    ensures
        r@ == toggle_ops(pair_values(pairs@)),
{
    let ghost all = pair_values(pairs@);
    let ghost p = |x: (WindowEntry, Window)| floating_differs(x);
    let mut ops: Vec<Op> = Vec::new();
    let mut i: usize = 0;
    proof {
        lemma_filter_none(all, p);
    }
    assert(ops@ =~= toggle_ops(all.take(0)));
    while i < pairs.len()
        invariant
            i <= pairs@.len(),
            all == pair_values(pairs@),
            p == (|x: (WindowEntry, Window)| floating_differs(x)),
            ops@ == toggle_ops(all.take(i as int)),
        decreases pairs@.len() - i,
    {
        let saved = pairs[i].0;
        let live = pairs[i].1;
        assert(all[i as int] == (*saved, *live));
        proof {
            lemma_filter_take(all, p, i as int);
        }
        if saved.is_floating != live.is_floating {
            ops.push(Op::WindowToggleFloating { id: live.id });
        }
        i += 1;
        assert(ops@ =~= toggle_ops(all.take(i as int)));
    }
    assert(all.take(all.len() as int) =~= all);
    ops
}

/// Sizes every window.
fn sizes(pairs: &Vec<(&WindowEntry, &Window)>) -> (r: Vec<Op>)
    ensures
        r@ == size_ops(pair_values(pairs@)),
{
    let ghost all = pair_values(pairs@);
    let mut ops: Vec<Op> = Vec::new();
    let mut i: usize = 0;
    assert(ops@ =~= size_ops(all.take(0)));
    while i < pairs.len()
        invariant
            i <= pairs@.len(),
            all == pair_values(pairs@),
            ops@ == size_ops(all.take(i as int)),
        decreases pairs@.len() - i,
    {
        let saved = pairs[i].0;
        let live = pairs[i].1;
        assert(all[i as int] == (*saved, *live));
        ops.push(Op::WindowSetSize { id: live.id, w: saved.width, h: saved.height });
        i += 1;
        assert(ops@ =~= size_ops(all.take(i as int)));
    }
    assert(all.take(all.len() as int) =~= all);
    ops
}

/// Puts floating windows at their positions.
fn positions_floating(pairs: &Vec<(&WindowEntry, &Window)>) -> (r: Vec<Op>)
    ensures
        r@ == position_ops(pair_values(pairs@)),
{
    let ghost all = pair_values(pairs@);
    let ghost p = |x: (WindowEntry, Window)| has_position(x);
    let mut ops: Vec<Op> = Vec::new();
    let mut i: usize = 0;
    proof {
        lemma_filter_none(all, p);
    }
    assert(ops@ =~= position_ops(all.take(0)));
    while i < pairs.len()
        invariant
            i <= pairs@.len(),
            all == pair_values(pairs@),
            p == (|x: (WindowEntry, Window)| has_position(x)),
            ops@ == position_ops(all.take(i as int)),
        decreases pairs@.len() - i,
    {
        let saved = pairs[i].0;
        let live = pairs[i].1;
        assert(all[i as int] == (*saved, *live));
        proof {
            lemma_filter_take(all, p, i as int);
        }
        if saved.is_floating {
            match saved.floating {
                Some(at) => {
                    ops.push(Op::WindowSetFloatingPosition { id: live.id, x: at.x, y: at.y });
                },
                None => {},
            }
        }
        i += 1;
        assert(ops@ =~= position_ops(all.take(i as int)));
    }
    assert(all.take(all.len() as int) =~= all);
    ops
}

/// Gives the focus to the window that had it.
fn focus(pairs: &Vec<(&WindowEntry, &Window)>, focused: Option<u64>) -> (r: Vec<Op>)
    ensures
        r@ == focus_ops(pair_values(pairs@), focused),
{
    let ghost all = pair_values(pairs@);
    let mut ops: Vec<Op> = Vec::new();
    match focused {
        Some(save_id) => {
            let ghost p = |x: (WindowEntry, Window)| x.0.save_id == save_id;
            let mut i: usize = 0;
            while i < pairs.len()
                invariant
                    i <= pairs@.len(),
                    ops@.len() == 0,
                    focused == Some(save_id),
                    all == pair_values(pairs@),
                    p == (|x: (WindowEntry, Window)| x.0.save_id == save_id),
                    forall|j: int| 0 <= j < i ==> !p(#[trigger] all[j]),
                decreases pairs@.len() - i,
            {
                let saved = pairs[i].0;
                let live = pairs[i].1;
                assert(all[i as int] == (*saved, *live));
                if saved.save_id == save_id {
                    proof {
                        lemma_first_index(all, p, i as int);
                    }
                    ops.push(Op::WindowFocus { id: live.id });
                    return ops;
                }
                i += 1;
            }
            proof {
                lemma_no_first_index(all, p);
            }
        },
        None => {},
    }
    ops
}

/// What is done, in order, to give matched windows their saved layout on a
/// workspace.
pub fn layout_ops(
    pairs: &Vec<(&WindowEntry, &Window)>,
    focused_save_id: Option<u64>,
    target_id: u64,
) -> (r: Vec<Op>)
    ensures
        exists|columns: Seq<u32>| #[trigger]
            are_columns(columns, pair_values(pairs@)) && is_layout(
                r@,
                columns,
                pair_values(pairs@),
                focused_save_id,
                target_id,
            ),
{
    let ghost all = pair_values(pairs@);
    let mut ops = place(pairs, target_id);
    let mut more = toggles(pairs);
    ops.append(&mut more);
    let movers = column_movers(pairs);
    let ghost columns = movers@.map_values(|m: (u32, u64)| m.0);
    let ghost so_far = ops@;
    let mut i: usize = 0;
    assert(ops@ =~= so_far + column_ops(columns.take(0), all));
    while i < movers.len()
        invariant
            i <= movers@.len(),
            columns == movers@.map_values(|m: (u32, u64)| m.0),
            forall|i: int|
                0 <= i < movers@.len() ==> (#[trigger] movers@[i]).1 == all[column_mover(
                    all,
                    movers@[i].0,
                )->0].1.id,
            ops@ == so_far + column_ops(columns.take(i as int), all),
        decreases movers@.len() - i,
    {
        ops.push(Op::WindowMoveColumnToIndex { id: movers[i].1, index: 0 });
        i += 1;
        assert(column_ops(columns.take(i as int), all) =~= column_ops(
            columns.take(i - 1),
            all,
        ).push(
            Op::WindowMoveColumnToIndex { id: all[column_mover(all, columns[i - 1])->0].1.id, index: 0 },
        ));
        assert(ops@ =~= so_far + column_ops(columns.take(i as int), all));
    }
    assert(columns.take(columns.len() as int) =~= columns);
    let mut more = sizes(pairs);
    ops.append(&mut more);
    let mut more = positions_floating(pairs);
    ops.append(&mut more);
    let mut more = focus(pairs, focused_save_id);
    ops.append(&mut more);
    assert(is_layout(ops@, columns, all, focused_save_id, target_id));
    ops
}

/// What a failed step of a layout was about.
pub open spec fn op_context(op: Op) -> Seq<char> {
    match op {
        Op::WindowMoveToWorkspace { id, .. } => "move id="@ + decimal(id as nat) + " to workspace"@,
        Op::WindowToggleFloating { id } => "toggle floating id="@ + decimal(id as nat),
        Op::WindowMoveColumnToIndex { id, .. } => "move column id="@ + decimal(id as nat)
            + " to first"@,
        Op::WindowSetSize { id, .. } => "size id="@ + decimal(id as nat),
        Op::WindowSetFloatingPosition { id, .. } => "floating-position id="@ + decimal(id as nat),
        Op::WindowFocus { id } => "focus id="@ + decimal(id as nat),
        Op::WindowClose { id } => "closing window "@ + decimal(id as nat) + " for --clear"@,
        _ => Seq::empty(),
    }
}

fn with_id(before: &str, id: u64, after: &str) -> (r: String)
    ensures
        r@ == before@ + decimal(id as nat) + after@,
{
    let mut s = before.to_owned();
    s.append(decimal_string(id).as_str());
    s.append(after);
    s
}

/// What a failed step of a layout was about.
pub fn describe_op(op: &Op) -> (r: String)
    ensures
        r@ == op_context(*op),
{
    proof {
        reveal_strlit("");
    }
    match op {
        Op::WindowMoveToWorkspace { id, .. } => with_id("move id=", *id, " to workspace"),
        Op::WindowToggleFloating { id } => with_id("toggle floating id=", *id, ""),
        Op::WindowMoveColumnToIndex { id, .. } => with_id("move column id=", *id, " to first"),
        Op::WindowSetSize { id, .. } => with_id("size id=", *id, ""),
        Op::WindowSetFloatingPosition { id, .. } => with_id("floating-position id=", *id, ""),
        Op::WindowFocus { id } => with_id("focus id=", *id, ""),
        Op::WindowClose { id } => with_id("closing window ", *id, " for --clear"),
        _ => String::new(),
    }
}

// ------------------------------------------------------------------ respawning

/// The command line that brings a saved window back. A generic record is
/// built by the generic hook whatever the application: it stands for a
/// capture that had to make do with it, or was written by hand.
pub open spec fn spawn_argv(app_id: Option<Seq<char>>, hook: Option<HookView>) -> Outcome<
    Seq<Seq<char>>,
> {
    match hook {
        Some(data) => if data is Generic {
            GenericHook.argv(data)
        } else {
            hook_for(app_id).argv(data)
        },
        None => match app_id {
            Some(id) => Outcome::Done(seq![id]),
            None => Outcome::Failed("entry has no hook and no app_id; nothing to spawn"@),
        },
    }
}

/// What the entry's record says.
pub open spec fn entry_hook(entry: WindowEntry) -> Option<HookView> {
    match entry.hook {
        Some(d) => Some(hook_view(d)),
        None => None,
    }
}

/// The command line that brings a saved window back.
pub fn build_spawn_argv(entry: &WindowEntry) -> (r: Result<Vec<String>, HookError>)
    ensures
        is_argv(r, spawn_argv(opt_view(entry.app_id), entry_hook(*entry))),
{
    match &entry.hook {
        Some(data) => match data {
            HookData::Generic { .. } => GenericHook.build_argv(data),
            _ => {
                let app_id = match &entry.app_id {
                    Some(id) => Some(id.as_str()),
                    None => None,
                };
                dispatch(app_id).build_argv(data)
            },
        },
        None => match &entry.app_id {
            Some(id) => Ok(just(id.as_str())),
            None => Err(
                HookError::EmptyArgv("entry has no hook and no app_id; nothing to spawn"),
            ),
        },
    }
}

/// The token in the answer to a request to start a process.
pub fn spawn_token(answer: &Json) -> (r: Option<String>)
    ensures
        opt_view(r) == as_text(field(answer@, "activation_token"@)),
{
    match answer.get("activation_token") {
        Some(v) => match v.as_str() {
            Some(t) => Some(t.to_owned()),
            None => None,
        },
        None => None,
    }
}

/// What became of starting a saved window again.
#[derive(Debug, Clone, Copy, PartialEq, Eq, Structural)]
pub enum SpawnOutcome {
    /// No command line could be built for it.
    NoArgv,
    /// The bridge could not start it.
    Failed,
    /// The bridge answered without a token.
    NoToken,
    /// It was started, and its window is awaited.
    Waiting,
    /// Its window did not appear in time, or the wait was given up.
    NoWindow,
    /// Its window.
    Window(u64),
}

/// What is to be done next to start saved windows again.
#[derive(Debug)]
pub enum RespawnStep {
    /// Start the saved window at a position.
    Spawn { position: usize, argv: Vec<String> },
    /// Pass over the saved window at a position: no command line can be built
    /// for it.
    PassOver { position: usize, why: String },
    /// Wait for the window of the saved window at a position.
    Wait { position: usize },
    /// Nothing is left to do.
    Finished,
}

/// Starting saved windows again: first each is started, in order, then each
/// that was started is waited for, in the same order.
#[derive(Debug)]
pub struct Respawn {
    /// What became of the saved windows that were looked at.
    pub outcomes: Vec<SpawnOutcome>,
    /// The position from which on windows are waited for.
    pub waited: usize,
}

/// The first position from `from` on at which a window is awaited.
pub open spec fn next_waiting(outcomes: Seq<SpawnOutcome>, from: int) -> Option<int>
    decreases outcomes.len() - from,
{
    if from >= outcomes.len() {
        None
    } else if from >= 0 && outcomes[from] is Waiting {
        Some(from)
    } else if from < 0 {
        None
    } else {
        next_waiting(outcomes, from + 1)
    }
}

/// The command line that brings the entry back.
pub open spec fn entry_argv(entry: WindowEntry) -> Outcome<Seq<Seq<char>>> {
    spawn_argv(opt_view(entry.app_id), entry_hook(entry))
}

/// What the answer to a request to start a process says.
pub open spec fn spawned_outcome(answer: Option<JsonView>) -> SpawnOutcome {
    match answer {
        None => SpawnOutcome::Failed,
        Some(j) => if as_text(field(j, "activation_token"@)) is Some {
            SpawnOutcome::Waiting
        } else {
            SpawnOutcome::NoToken
        },
    }
}

/// What an optional answer says.
pub open spec fn answer_view(answer: Option<Json>) -> Option<JsonView> {
    match answer {
        Some(j) => Some(j@),
        None => None,
    }
}

impl Respawn {
    /// Nothing was done yet.
    pub fn new() -> (r: Self)
        ensures
            r.outcomes@.len() == 0,
            r.waited == 0,
    {
        Respawn { outcomes: Vec::new(), waited: 0 }
    }

    /// The entries that were looked at are among the saved ones, and no
    /// window is waited for twice.
    pub open spec fn wf(&self, entries: Seq<WindowEntry>) -> bool {
        &&& self.outcomes@.len() <= entries.len()
        &&& self.waited <= self.outcomes@.len()
        &&& forall|i: int| 0 <= i < self.waited ==> !((#[trigger] self.outcomes@[i]) is Waiting)
    }

    /// Decides what to do next.
    pub fn step(&mut self, entries: &[WindowEntry]) -> (r: RespawnStep)
        requires
            old(self).wf(entries@),
        ensures
            final(self).wf(entries@),
            match r {
                RespawnStep::Spawn { position, argv } => {
                    &&& *final(self) == *old(self)
                    &&& position == old(self).outcomes@.len()
                    &&& position < entries@.len()
                    &&& is_argv(
                        Ok::<Vec<String>, HookError>(argv),
                        entry_argv(entries@[position as int]),
                    )
                },
                RespawnStep::PassOver { position, why } => {
                    &&& final(self).outcomes@ == old(self).outcomes@.push(SpawnOutcome::NoArgv)
                    &&& final(self).waited == old(self).waited
                    &&& position == old(self).outcomes@.len()
                    &&& position < entries@.len()
                    &&& entry_argv(entries@[position as int]) == Outcome::<Seq<Seq<char>>>::Failed(
                        why@,
                    )
                },
                RespawnStep::Wait { position } => {
                    &&& final(self).outcomes@ == old(self).outcomes@
                    &&& old(self).outcomes@.len() == entries@.len()
                    &&& position == final(self).waited
                    &&& next_waiting(old(self).outcomes@, old(self).waited as int) == Some(
                        position as int,
                    )
                    &&& position < entries@.len()
                    &&& final(self).outcomes@[position as int] is Waiting
                },
                RespawnStep::Finished => {
                    &&& final(self).outcomes@ == old(self).outcomes@
                    &&& old(self).outcomes@.len() == entries@.len()
                    &&& final(self).waited == entries@.len()
                    &&& forall|i: int|
                        0 <= i < entries@.len() ==> !((#[trigger] final(self).outcomes@[i]) is Waiting)
                },
            },
    {
        let position: usize = self.outcomes.len();
        if position < entries.len() {
            match build_spawn_argv(&entries[position]) {
                Ok(argv) => {
                    return RespawnStep::Spawn { position, argv };
                },
                Err(e) => {
                    self.outcomes.push(SpawnOutcome::NoArgv);
                    return RespawnStep::PassOver { position, why: e.message() };
                },
            }
        }
        let ghost from = self.waited as int;
        let ghost all = self.outcomes@;
        while self.waited < self.outcomes.len()
            invariant
                self.outcomes@ == all,
                all == old(self).outcomes@,
                all.len() == entries@.len(),
                from == old(self).waited,
                from <= self.waited <= all.len(),
                next_waiting(all, from) == next_waiting(all, self.waited as int),
                forall|i: int| 0 <= i < self.waited ==> !((#[trigger] all[i]) is Waiting),
            decreases self.outcomes@.len() - self.waited,
        {
            let position: usize = self.waited;
            if self.outcomes[position] == SpawnOutcome::Waiting {
                return RespawnStep::Wait { position };
            }
            self.waited = position + 1;
        }
        RespawnStep::Finished
    }

    /// Takes the bridge's answer about the entry that was to be started; none
    /// where the request failed. The result is the token to wait under.
    pub fn on_spawned(&mut self, answer: Option<Json>) -> (r: Option<String>)
        ensures
            final(self).waited == old(self).waited,
            final(self).outcomes@ == old(self).outcomes@.push(spawned_outcome(answer_view(answer))),
            opt_view(r) == (match answer_view(answer) {
                Some(j) => as_text(field(j, "activation_token"@)),
                None => None,
            }),
    {
        match answer {
            None => {
                self.outcomes.push(SpawnOutcome::Failed);
                None
            },
            Some(j) => match spawn_token(&j) {
                Some(token) => {
                    self.outcomes.push(SpawnOutcome::Waiting);
                    Some(token)
                },
                None => {
                    self.outcomes.push(SpawnOutcome::NoToken);
                    None
                },
            },
        }
    }

    /// Takes how the wait ended: with a window, or without one.
    pub fn on_waited(&mut self, window: Option<u64>)
        requires
            old(self).waited < old(self).outcomes@.len(),
        ensures
            final(self).waited == old(self).waited,
            final(self).outcomes@ == old(self).outcomes@.update(
                old(self).waited as int,
                match window {
                    Some(id) => SpawnOutcome::Window(id),
                    None => SpawnOutcome::NoWindow,
                },
            ),
    {
        let outcome = match window {
            Some(id) => SpawnOutcome::Window(id),
            None => SpawnOutcome::NoWindow,
        };
        let at: usize = self.waited;
        self.outcomes.set(at, outcome);
    }
}

/// The windows that appeared, each with the position of its saved entry.
pub open spec fn appeared(outcomes: Seq<SpawnOutcome>) -> Seq<(usize, u64)>
    decreases outcomes.len(),
{
    if outcomes.len() == 0 {
        Seq::empty()
    } else {
        let earlier = appeared(outcomes.drop_last());
        match outcomes.last() {
            SpawnOutcome::Window(id) => earlier.push(((outcomes.len() - 1) as usize, id)),
            _ => earlier,
        }
    }
}

/// The windows that appeared, each with the position of its saved entry.
pub fn respawned(outcomes: &Vec<SpawnOutcome>) -> (r: Vec<(usize, u64)>)
    ensures
        r@ == appeared(outcomes@),
        forall|k: int| 0 <= k < r@.len() ==> (#[trigger] r@[k]).0 < outcomes@.len(),
{
    let mut r: Vec<(usize, u64)> = Vec::new();
    let mut i: usize = 0;
    assert(r@ =~= appeared(outcomes@.take(0)));
    while i < outcomes.len()
        invariant
            i <= outcomes@.len(),
            r@ == appeared(outcomes@.take(i as int)),
            forall|k: int| 0 <= k < r@.len() ==> (#[trigger] r@[k]).0 < i,
        decreases outcomes@.len() - i,
    {
        match &outcomes[i] {
            SpawnOutcome::Window(id) => r.push((i, *id)),
            _ => {},
        }
        i += 1;
        assert(outcomes@.take(i as int).drop_last() =~= outcomes@.take(i - 1));
    }
    assert(outcomes@.take(outcomes@.len() as int) =~= outcomes@);
    r
}

/// The seconds to wait for a window where the user does not say.
pub const DEFAULT_SPAWN_TIMEOUT_SECS: u64 = 5;

/// The seconds to wait for a window.
pub fn spawn_timeout_secs(asked: Option<u64>) -> (r: u64)
    ensures
        r == (match asked {
            Some(n) => n,
            None => DEFAULT_SPAWN_TIMEOUT_SECS,
        }),
{
    match asked {
        Some(n) => n,
        None => DEFAULT_SPAWN_TIMEOUT_SECS,
    }
}

/// The live window with an id: of several, the last.
pub open spec fn live_with_id(live: Seq<Window>, id: u64) -> Option<int>
    decreases live.len(),
{
    if live.len() == 0 {
        None
    } else if live.last().id == id {
        Some(live.len() - 1)
    } else {
        live_with_id(live.drop_last(), id)
    }
}

fn find_live(live: &[Window], id: u64) -> (r: Option<usize>)
    ensures
        same_position(r, live_with_id(live@, id)),
        r matches Some(i) ==> i < live@.len(),
{
    let mut i: usize = live.len();
    assert(live@.take(live@.len() as int) =~= live@);
    while i > 0
        invariant
            i <= live@.len(),
            live_with_id(live@, id) == live_with_id(live@.take(i as int), id),
        decreases i,
    {
        i -= 1;
        assert(live@.take(i + 1).drop_last() =~= live@.take(i as int));
        if live[i].id == id {
            return Some(i);
        }
    }
    None
}

/// The pairs of saved entries and the live windows that appeared for them. A
/// window that is gone again is left out.
pub open spec fn respawned_pairs(
    saved: Seq<WindowEntry>,
    found: Seq<(usize, u64)>,
    live: Seq<Window>,
) -> Seq<(WindowEntry, Window)>
    decreases found.len(),
{
    if found.len() == 0 {
        Seq::empty()
    } else {
        let earlier = respawned_pairs(saved, found.drop_last(), live);
        match live_with_id(live, found.last().1) {
            Some(i) => earlier.push((saved[found.last().0 as int], live[i])),
            None => earlier,
        }
    }
}

/// The pairs of saved entries and the live windows that appeared for them.
pub fn pair_respawned<'s, 'l>(
    saved: &'s [WindowEntry],
    found: &Vec<(usize, u64)>,
    live: &'l [Window],
) -> (r: Vec<(&'s WindowEntry, &'l Window)>)
    requires
        forall|k: int| 0 <= k < found@.len() ==> (#[trigger] found@[k]).0 < saved@.len(),
    ensures
        are_pairs(r@, respawned_pairs(saved@, found@, live@)),
{
    let mut r: Vec<(&'s WindowEntry, &'l Window)> = Vec::new();
    let mut k: usize = 0;
    assert(respawned_pairs(saved@, found@.take(0), live@) =~= Seq::empty());
    while k < found.len()
        invariant
            k <= found@.len(),
            forall|k: int| 0 <= k < found@.len() ==> (#[trigger] found@[k]).0 < saved@.len(),
            are_pairs(r@, respawned_pairs(saved@, found@.take(k as int), live@)),
        decreases found@.len() - k,
    {
        assert(found@.take(k + 1).drop_last() =~= found@.take(k as int));
        match find_live(live, found[k].1) {
            Some(i) => {
                r.push((&saved[found[k].0], &live[i]));
            },
            None => {},
        }
        k += 1;
    }
    assert(found@.take(found@.len() as int) =~= found@);
    r
}

// -------------------------------------------------------------------- target

/// The workspace that a snapshot is restored to.
#[derive(Debug)]
pub struct Target {
    pub id: u64,
    pub idx: u8,
}

/// The workspace to restore to: the one that the user names, or else the one
/// with the saved index.
pub fn resolve_target(workspaces: &Vec<Workspace>, requested: Option<&str>, saved_idx: u8) -> (r:
    Result<Target, TargetError>)
    ensures
        match opt_str_view(requested) {
            Some(name) => match named_workspace(workspaces@, name) {
                Some(i) => r matches Ok(t) && t.id == workspaces@[i].id && t.idx
                    == workspaces@[i].idx,
                None => r matches Err(e) && is_unknown_workspace(e, name),
            },
            None => match by_idx(workspaces@, saved_idx) {
                Some(i) => r matches Ok(t) && t.id == workspaces@[i].id && t.idx
                    == workspaces@[i].idx,
                None => r == Err::<Target, TargetError>(TargetError::SavedIdxAbsent(saved_idx)),
            },
        },
{
    let found = match requested {
        None => match find_idx(workspaces, saved_idx) {
            Some(i) => Ok(i),
            None => Err(TargetError::SavedIdxAbsent(saved_idx)),
        },
        Some(name) => find_named(workspaces, name),
    };
    match found {
        Ok(i) => Ok(Target { id: workspaces[i].id, idx: workspaces[i].idx }),
        Err(e) => Err(e),
    }
}

// ------------------------------------------------------------------- summaries

/// So many of so many.
pub open spec fn share(placed: nat, total: nat) -> Seq<char> {
    decimal(placed) + "/"@ + decimal(total)
}

/// A remark about what is missing, where something is.
pub open spec fn missing(n: int, what: Seq<char>) -> Seq<char> {
    if n > 0 {
        ", "@ + decimal(n as nat) + what
    } else {
        Seq::empty()
    }
}

fn missing_text(n: usize, what: &str) -> (r: String)
    ensures
        r@ == missing(n as int, what@),
{
    let mut s = String::new();
    if n > 0 {
        s.append(", ");
        s.append(decimal_string(n as u64).as_str());
        s.append(what);
        assert(s@ =~= missing(n as int, what@));
    } else {
        assert(s@ =~= Seq::empty());
    }
    s
}

fn share_text(placed: usize, total: usize) -> (r: String)
    ensures
        r@ == share(placed as nat, total as nat),
{
    let mut s = decimal_string(placed as u64);
    s.append("/");
    s.append(decimal_string(total as u64).as_str());
    s
}

/// What the user is told after running windows were rearranged: the line on
/// the terminal, and the notice.
pub fn match_summary(name: &str, placed: usize, total: usize) -> (r: (String, String))
    requires
        placed <= total,
    ensures
        r.0@ == "loaded snapshot "@ + name@ + " (no-respawn): "@ + share(placed as nat, total as nat)
            + " windows placed"@ + missing(total - placed, " unmatched"@),
        r.1@ == name@ + " ("@ + share(placed as nat, total as nat) + " placed)"@,
{
    let mut line = "loaded snapshot ".to_owned();
    line.append(name);
    line.append(" (no-respawn): ");
    line.append(share_text(placed, total).as_str());
    line.append(" windows placed");
    line.append(missing_text(total - placed, " unmatched").as_str());
    let mut notice = name.to_owned();
    notice.append(" (");
    notice.append(share_text(placed, total).as_str());
    notice.append(" placed)");
    (line, notice)
}

/// What the user is told after saved windows were started again: the line on
/// the terminal, and the notice. `appeared` is the number of windows that
/// appeared in time, `placed` of those that were still there.
pub fn respawn_summary(name: &str, placed: usize, appeared: usize, total: usize) -> (r: (
    String,
    String,
))
    requires
        appeared <= total,
    ensures
        r.0@ == "loaded snapshot "@ + name@ + ": "@ + share(placed as nat, total as nat)
            + " respawned"@ + missing(total - appeared, " timed out"@),
        r.1@ == name@ + " ("@ + share(placed as nat, total as nat) + " respawned"@ + missing(
            total - appeared,
            " timed out"@,
        ) + ")"@,
{
    let mut line = "loaded snapshot ".to_owned();
    line.append(name);
    line.append(": ");
    line.append(share_text(placed, total).as_str());
    line.append(" respawned");
    line.append(missing_text(total - appeared, " timed out").as_str());
    let mut notice = name.to_owned();
    notice.append(" (");
    notice.append(share_text(placed, total).as_str());
    notice.append(" respawned");
    notice.append(missing_text(total - appeared, " timed out").as_str());
    notice.append(")");
    (line, notice)
}

// ------------------------------------------------------------------------ laws

/// What is closed before a snapshot is restored stands on the workspace, and
/// is neither pinned nor in the scratchpad nor about to be placed.
pub proof fn law_clearing_spares(
    live: Seq<Window>,
    target_id: u64,
    pinned: Set<u64>,
    scratch: Set<u64>,
    matched: Set<u64>,
    id: u64,
)
    requires
        live.filter(|w: Window| is_cleared(target_id, pinned, scratch, matched, w)).map_values(
            |w: Window| w.id,
        ).contains(id),
    ensures
        !pinned.contains(id),
        !scratch.contains(id),
        !matched.contains(id),
        exists|i: int|
            0 <= i < live.len() && (#[trigger] live[i]).id == id && live[i].workspace_id == Some(
                target_id,
            ),
{
    let p = |w: Window| is_cleared(target_id, pinned, scratch, matched, w);
    let kept = live.filter(p);
    let ids = kept.map_values(|w: Window| w.id);
    let k = choose|k: int| 0 <= k < ids.len() && ids[k] == id;
    live.lemma_filter_pred(p, k);
    assert(kept.contains(kept[k]));
    live.lemma_filter_contains_rev(p, kept[k]);
    let i = choose|i: int| 0 <= i < live.len() && live[i] == kept[k];
    assert(live[i].id == id);
}

/// A window that was saved can be started again from its record, whether its
/// own hook made it or the generic one had to; and the bridge takes the
/// command line, which is not empty.
pub proof fn law_saved_window_is_started_again(
    w: Window,
    entry: WindowEntry,
    facts: Facts,
    by: Hook,
)
    requires
        opt_view(entry.app_id) == opt_view(w.app_id),
        by == hook_for(opt_view(w.app_id)) || by == Hook::Generic,
        by.need(w) matches Outcome::Done(need) && fits(need, facts),
        by.record(w, facts) matches Outcome::Done(data) && entry_hook(entry) == Some(data),
    ensures
        spawn_argv(opt_view(entry.app_id), entry_hook(entry)) matches Outcome::Done(argv)
            && argv.len() > 0,
{
    law_recorded_window_can_be_started(by, w, facts);
    law_built_argv_is_not_empty(by, entry_hook(entry)->0);
}

/// A step of a layout that comes before sizes: it moves windows about.
pub open spec fn is_move(op: Op) -> bool {
    op is WindowMoveToWorkspace || op is WindowToggleFloating || op is WindowMoveColumnToIndex
}

/// Sizes come after every step that moves windows about, floating positions
/// after every size, and the focus last.
pub proof fn law_layout_order(
    ops: Seq<Op>,
    columns: Seq<u32>,
    pairs: Seq<(WindowEntry, Window)>,
    focused: Option<u64>,
    target_id: u64,
    a: int,
    b: int,
)
    requires
        is_layout(ops, columns, pairs, focused, target_id),
        0 <= a < ops.len(),
        0 <= b < ops.len(),
    ensures
        is_move(ops[a]) && ops[b] is WindowSetSize ==> a < b,
        is_move(ops[a]) && ops[b] is WindowSetFloatingPosition ==> a < b,
        ops[a] is WindowSetSize && ops[b] is WindowSetFloatingPosition ==> a < b,
        ops[a] is WindowFocus ==> a == ops.len() - 1,
{
    let p1 = place_ops(pairs, target_id);
    let p2 = p1 + toggle_ops(pairs);
    let p3 = p2 + column_ops(columns, pairs);
    let p4 = p3 + size_ops(pairs);
    let p5 = p4 + position_ops(pairs);
    assert forall|i: int| 0 <= i < p3.len() implies is_move(#[trigger] ops[i]) by {
        if i < p1.len() {
            assert(ops[i] == p1[i]);
        } else if i < p2.len() {
            assert(ops[i] == toggle_ops(pairs)[i - p1.len()]);
        } else {
            assert(ops[i] == column_ops(columns, pairs)[i - p2.len()]);
        }
    }
    assert forall|i: int| p3.len() <= i < p4.len() implies (#[trigger] ops[i]) is WindowSetSize by {
        assert(ops[i] == size_ops(pairs)[i - p3.len()]);
    }
    assert forall|i: int|
        p4.len() <= i < p5.len() implies (#[trigger] ops[i]) is WindowSetFloatingPosition by {
        assert(ops[i] == position_ops(pairs)[i - p4.len()]);
    }
    assert forall|i: int| p5.len() <= i < ops.len() implies (#[trigger] ops[i]) is WindowFocus by {
        assert(ops[i] == focus_ops(pairs, focused)[i - p5.len()]);
    }
    assert(focus_ops(pairs, focused).len() <= 1);
}

/// Not this one.
pub open spec fn other_than(id: u64) -> spec_fn(u64) -> bool {
    |x: u64| x != id
}

/// Moving a column to the front: it stands first, and the others keep their
/// order behind it.
pub open spec fn to_front(row: Seq<u64>, id: u64) -> Seq<u64> {
    seq![id] + row.filter(other_than(id))
}

/// The row of columns after each of some columns was moved to the front.
pub open spec fn after_moves(row: Seq<u64>, moves: Seq<u64>) -> Seq<u64>
    decreases moves.len(),
{
    if moves.len() == 0 {
        row
    } else {
        to_front(after_moves(row, moves.drop_last()), moves.last())
    }
}

proof fn lemma_filter_all<T>(s: Seq<T>, p: spec_fn(T) -> bool)
    requires
        forall|i: int| 0 <= i < s.len() ==> p(#[trigger] s[i]),
    ensures
        s.filter(p) == s,
    decreases s.len(),
{
    reveal(Seq::filter);
    if s.len() > 0 {
        let front = s.drop_last();
        assert forall|i: int| 0 <= i < front.len() implies p(#[trigger] front[i]) by {
            assert(front[i] == s[i]);
        }
        lemma_filter_all(front, p);
        assert(p(s[s.len() - 1]));
        assert(front.push(s.last()) =~= s);
    }
}

/// After different columns were moved to the front one after another, they
/// stand first, the last one moved in front: so moving them from the last to
/// the first puts them in order, whatever stood in the row.
pub proof fn law_moved_columns_stand_in_order(row: Seq<u64>, moves: Seq<u64>)
    requires
        moves.no_duplicates(),
    ensures
        after_moves(row, moves).len() >= moves.len(),
        after_moves(row, moves).take(moves.len() as int) == moves.reverse(),
    decreases moves.len(),
{
    if moves.len() == 0 {
        assert(after_moves(row, moves).take(0) =~= moves.reverse());
    } else {
        let front = moves.drop_last();
        let last = moves.last();
        law_moved_columns_stand_in_order(row, front);
        let before = after_moves(row, front);
        let done = before.take(front.len() as int);
        let rest = before.skip(front.len() as int);
        let others = other_than(last);
        assert(before =~= done + rest);
        Seq::filter_distributes_over_add(done, rest, others);
        assert forall|i: int| 0 <= i < done.len() implies others(#[trigger] done[i]) by {
            assert(done[i] == front.reverse()[i]);
            assert(done[i] == moves[front.len() - 1 - i]);
            assert(moves[front.len() - 1 - i] != moves[moves.len() - 1]);
        }
        lemma_filter_all(done, others);
        assert(after_moves(row, moves) == seq![last] + before.filter(others));
        assert(after_moves(row, moves) =~= seq![last] + done + rest.filter(others));
        assert(after_moves(row, moves).take(moves.len() as int) =~= seq![last] + done);
        assert(moves.reverse() =~= seq![last] + front.reverse());
    }
}

} // verus!
