//! Restoring a layout: where each window stands once the steps are done.

use std::collections::HashSet;

use vstd::prelude::*;
use vstd::string::*;

use crate::bridge::proto::{FloatingPosition, Op, Window, WorkspaceRef};
use crate::snapshot::load::{
    after_moves, are_columns, column_mover, column_ops, compute_clear_set, floating_differs,
    focus_ops, focused_pair, has_position, in_column, is_cleared, is_layout,
    law_moved_columns_stand_in_order, layout_ops, pair_values, place_ops, position_ops, size_ops,
    toggle_ops,
};
use crate::seqs::lemma_first_index_is_first;
use crate::snapshot::schema::WindowEntry;

verus! {

// ------------------------------------------------------------ a model of steps

/// How a window stands: its workspace, whether it floats, its size, and the
/// position that it was put at.
pub ghost struct Standing {
    pub workspace: Option<u64>,
    pub floating: bool,
    pub size: (i32, i32),
    pub position: Option<FloatingPosition>,
}

/// How a window stands after a step that the compositor carried out.
pub open spec fn after_op(s: Standing, op: Op, id: u64) -> Standing {
    match op {
        Op::WindowMoveToWorkspace { id: i, workspace: WorkspaceRef::Id { id: w } } => if i == id {
            Standing { workspace: Some(w), ..s }
        } else {
            s
        },
        Op::WindowToggleFloating { id: i } => if i == id {
            Standing { floating: !s.floating, ..s }
        } else {
            s
        },
        Op::WindowSetSize { id: i, w, h } => if i == id {
            Standing { size: (w, h), ..s }
        } else {
            s
        },
        Op::WindowSetFloatingPosition { id: i, x, y } => if i == id {
            Standing { position: Some(FloatingPosition { x, y }), ..s }
        } else {
            s
        },
        _ => s,
    }
}

/// How a window stands after some steps.
pub open spec fn after_ops(s: Standing, ops: Seq<Op>, id: u64) -> Standing
    decreases ops.len(),
{
    if ops.len() == 0 {
        s
    } else {
        after_op(after_ops(s, ops.drop_last(), id), ops.last(), id)
    }
}

/// The window that a step of a layout is about; none for any other step.
pub open spec fn op_window(op: Op) -> Option<u64> {
    match op {
        Op::WindowMoveToWorkspace { id, .. } => Some(id),
        Op::WindowToggleFloating { id } => Some(id),
        Op::WindowMoveColumnToIndex { id, .. } => Some(id),
        Op::WindowSetSize { id, .. } => Some(id),
        Op::WindowSetFloatingPosition { id, .. } => Some(id),
        Op::WindowFocus { id } => Some(id),
        _ => None,
    }
}

/// The step leaves every window as it stands.
spec fn is_neutral(op: Op) -> bool {
    op is WindowMoveColumnToIndex || op is WindowFocus
}

/// No two pairs have one live window.
pub open spec fn distinct_windows(pairs: Seq<(&WindowEntry, &Window)>) -> bool {
    forall|i: int, j: int|
        0 <= i < j < pairs.len() ==> (#[trigger] pairs[i]).1.id != (#[trigger] pairs[j]).1.id
}

spec fn distinct(pairs: Seq<(WindowEntry, Window)>) -> bool {
    forall|i: int, j: int|
        0 <= i < j < pairs.len() ==> (#[trigger] pairs[i]).1.id != (#[trigger] pairs[j]).1.id
}

proof fn lemma_after_concat(s: Standing, a: Seq<Op>, b: Seq<Op>, id: u64)
    ensures
        after_ops(s, a + b, id) == after_ops(after_ops(s, a, id), b, id),
    decreases b.len(),
{
    if b.len() == 0 {
        assert(a + b =~= a);
    } else {
        lemma_after_concat(s, a, b.drop_last(), id);
        assert((a + b).drop_last() =~= a + b.drop_last());
    }
}

proof fn lemma_untouched(s: Standing, ops: Seq<Op>, id: u64)
    requires
        forall|i: int|
            0 <= i < ops.len() ==> op_window(#[trigger] ops[i]) != Some(id) || is_neutral(ops[i]),
    ensures
        after_ops(s, ops, id) == s,
    decreases ops.len(),
{
    if ops.len() > 0 {
        let front = ops.drop_last();
        assert forall|i: int| 0 <= i < front.len() implies op_window(#[trigger] front[i]) != Some(id)
            || is_neutral(front[i]) by {
            assert(front[i] == ops[i]);
        }
        lemma_untouched(s, front, id);
        assert(op_window(ops[ops.len() - 1]) != Some(id) || is_neutral(ops[ops.len() - 1]));
    }
}

/// Steps that are made of pairs, one of each pair that passes a test, touch a
/// window once if its pair passes, and not at all otherwise.
proof fn lemma_made_of_pairs(
    s: Standing,
    pairs: Seq<(WindowEntry, Window)>,
    p: spec_fn((WindowEntry, Window)) -> bool,
    f: spec_fn((WindowEntry, Window)) -> Op,
    k: int,
)
    requires
        distinct(pairs),
        0 <= k < pairs.len(),
        forall|x: (WindowEntry, Window)| op_window(#[trigger] f(x)) == Some(x.1.id),
    ensures
        after_ops(s, pairs.filter(p).map_values(f), pairs[k].1.id) == (if p(pairs[k]) {
            after_op(s, f(pairs[k]), pairs[k].1.id)
        } else {
            s
        }),
    decreases pairs.len(),
{
    reveal(Seq::filter);
    let front = pairs.drop_last();
    let id = pairs[k].1.id;
    let earlier = front.filter(p).map_values(f);
    let ops = pairs.filter(p).map_values(f);
    assert(distinct(front)) by {
        assert forall|i: int, j: int| 0 <= i < j < front.len() implies (#[trigger] front[i]).1.id
            != (#[trigger] front[j]).1.id by {
            assert(pairs[i].1.id != pairs[j].1.id);
        }
    }
    if p(pairs.last()) {
        assert(ops =~= earlier.push(f(pairs.last())));
        assert(ops.drop_last() =~= earlier);
    }
    if k < front.len() {
        lemma_made_of_pairs(s, front, p, f, k);
        assert(front[k] == pairs[k]);
        assert(pairs[k].1.id != pairs[pairs.len() - 1].1.id);
    } else {
        assert forall|i: int| 0 <= i < earlier.len() implies op_window(#[trigger] earlier[i]) != Some(
            id,
        ) || is_neutral(earlier[i]) by {
            let x = front.filter(p)[i];
            assert(front.filter(p).contains(x));
            front.lemma_filter_contains_rev(p, x);
            let j = choose|j: int| 0 <= j < front.len() && front[j] == x;
            assert(pairs[j].1.id != pairs[pairs.len() - 1].1.id);
        }
        lemma_untouched(s, earlier, id);
    }
}

proof fn lemma_filter_everything<T>(s: Seq<T>)
    ensures
        s.filter(|x: T| true) == s,
    decreases s.len(),
{
    reveal(Seq::filter);
    if s.len() > 0 {
        lemma_filter_everything(s.drop_last());
        assert(s.drop_last().push(s.last()) =~= s);
    }
}

proof fn lemma_distinct(pairs: Seq<(&WindowEntry, &Window)>)
    requires
        distinct_windows(pairs),
    ensures
        distinct(pair_values(pairs)),
{
    let all = pair_values(pairs);
    assert forall|i: int, j: int| 0 <= i < j < all.len() implies (#[trigger] all[i]).1.id != (
    #[trigger] all[j]).1.id by {
        assert(pairs[i].1.id != pairs[j].1.id);
    }
}

// ------------------------------------------------------------------------ laws

/// After a layout was restored every window stands as it was saved: on the
/// workspace, floating or not, with its size, and at its position where it
/// floats and the position is known; otherwise it is put nowhere.
pub proof fn law_restored_windows_stand_as_saved(
    pairs: &Vec<(&WindowEntry, &Window)>,
    focused: Option<u64>,
    target_id: u64,
    r: Vec<Op>,
    before: Standing,
    k: int,
)
    requires
        call_ensures(layout_ops, (pairs, focused, target_id), r),
        distinct_windows(pairs@),
        0 <= k < pairs@.len(),
        before.floating == pairs@[k].1.is_floating,
    ensures
        ({
            let saved = *pairs@[k].0;
            let after = after_ops(before, r@, pairs@[k].1.id);
            &&& after.workspace == Some(target_id)
            &&& after.floating == saved.is_floating
            &&& after.size == (saved.width, saved.height)
            &&& saved.is_floating && saved.floating is Some ==> after.position == saved.floating
            &&& !(saved.is_floating && saved.floating is Some) ==> after.position
                == before.position
        }),
{
    let all = pair_values(pairs@);
    let id = pairs@[k].1.id;
    lemma_distinct(pairs@);
    let columns = choose|columns: Seq<u32>| #[trigger]
        are_columns(columns, all) && is_layout(r@, columns, all, focused, target_id);
    let placing = |p: (WindowEntry, Window)|
        Op::WindowMoveToWorkspace { id: p.1.id, workspace: WorkspaceRef::Id { id: target_id } };
    let toggling = |p: (WindowEntry, Window)| Op::WindowToggleFloating { id: p.1.id };
    let sizing = |p: (WindowEntry, Window)|
        Op::WindowSetSize { id: p.1.id, w: p.0.width, h: p.0.height };
    let positioning = |p: (WindowEntry, Window)|
        Op::WindowSetFloatingPosition {
            id: p.1.id,
            x: p.0.floating->0.x,
            y: p.0.floating->0.y,
        };
    lemma_filter_everything(all);
    let every = |p: (WindowEntry, Window)| true;
    let s1 = place_ops(all, target_id);
    let s2 = toggle_ops(all);
    let s3 = column_ops(columns, all);
    let s4 = size_ops(all);
    let s5 = position_ops(all);
    let s6 = focus_ops(all, focused);
    let a1 = after_ops(before, s1, id);
    lemma_made_of_pairs(before, all, every, placing, k);
    assert(s1 == all.filter(every).map_values(placing));
    let a2 = after_ops(a1, s2, id);
    lemma_made_of_pairs(
        a1,
        all,
        |p: (WindowEntry, Window)| floating_differs(p),
        toggling,
        k,
    );
    let a3 = after_ops(a2, s3, id);
    lemma_untouched(a2, s3, id);
    let a4 = after_ops(a3, s4, id);
    lemma_made_of_pairs(a3, all, every, sizing, k);
    assert(s4 == all.filter(every).map_values(sizing));
    let a5 = after_ops(a4, s5, id);
    lemma_made_of_pairs(a4, all, |p: (WindowEntry, Window)| has_position(p), positioning, k);
    lemma_untouched(a5, s6, id);
    lemma_after_concat(before, s1, s2, id);
    lemma_after_concat(before, s1 + s2, s3, id);
    lemma_after_concat(before, s1 + s2 + s3, s4, id);
    lemma_after_concat(before, s1 + s2 + s3 + s4, s5, id);
    lemma_after_concat(before, s1 + s2 + s3 + s4 + s5, s6, id);
}

/// A window is toggled exactly where it floats and was saved tiled, or is
/// tiled and was saved floating.
pub proof fn law_toggled_exactly_where_states_differ(
    pairs: &Vec<(&WindowEntry, &Window)>,
    focused: Option<u64>,
    target_id: u64,
    r: Vec<Op>,
    id: u64,
)
    requires
        call_ensures(layout_ops, (pairs, focused, target_id), r),
    ensures
        r@.contains(Op::WindowToggleFloating { id }) <==> exists|k: int|
            0 <= k < pairs@.len() && (#[trigger] pairs@[k]).1.id == id && pairs@[k].0.is_floating
                != pairs@[k].1.is_floating,
{
    let all = pair_values(pairs@);
    let columns = choose|columns: Seq<u32>| #[trigger]
        are_columns(columns, all) && is_layout(r@, columns, all, focused, target_id);
    let op = Op::WindowToggleFloating { id };
    let p = |x: (WindowEntry, Window)| floating_differs(x);
    let s1 = place_ops(all, target_id);
    let s2 = toggle_ops(all);
    let s12 = s1 + s2;
    let s3 = column_ops(columns, all);
    let s4 = size_ops(all);
    let s5 = position_ops(all);
    let s6 = focus_ops(all, focused);
    if r@.contains(op) {
        let j = choose|j: int| 0 <= j < r@.len() && r@[j] == op;
        let n1 = s1.len();
        let n2 = n1 + s2.len();
        let n3 = n2 + s3.len();
        let n4 = n3 + s4.len();
        let n5 = n4 + s5.len();
        if j < n1 {
            assert(r@[j] == s1[j]);
        } else if j < n2 {
            assert(r@[j] == s2[j - n1]);
            let x = all.filter(p)[j - n1];
            all.lemma_filter_pred(p, j - n1);
            assert(all.filter(p).contains(x));
            all.lemma_filter_contains_rev(p, x);
            let k = choose|k: int| 0 <= k < all.len() && all[k] == x;
            assert(pairs@[k].1.id == id);
        } else if j < n3 {
            assert(r@[j] == s3[j - n2]);
        } else if j < n4 {
            assert(r@[j] == s4[j - n3]);
        } else if j < n5 {
            assert(r@[j] == s5[j - n4]);
        } else {
            assert(r@[j] == s6[j - n5]);
        }
    }
    if exists|k: int|
        0 <= k < pairs@.len() && (#[trigger] pairs@[k]).1.id == id && pairs@[k].0.is_floating
            != pairs@[k].1.is_floating {
        let k = choose|k: int|
            0 <= k < pairs@.len() && (#[trigger] pairs@[k]).1.id == id && pairs@[k].0.is_floating
                != pairs@[k].1.is_floating;
        assert(p(all[k]));
        all.lemma_filter_contains(p, k);
        let j = choose|j: int| 0 <= j < all.filter(p).len() && all.filter(p)[j] == all[k];
        assert(s2[j] == op);
        assert(r@[s1.len() + j] == s2[j]);
    }
}

/// Every step is about a window that is restored; windows go to no other
/// workspace, and columns to no other place than the front.
pub proof fn law_steps_are_about_restored_windows(
    pairs: &Vec<(&WindowEntry, &Window)>,
    focused: Option<u64>,
    target_id: u64,
    r: Vec<Op>,
    j: int,
)
    requires
        call_ensures(layout_ops, (pairs, focused, target_id), r),
        0 <= j < r@.len(),
    ensures
        exists|k: int| 0 <= k < pairs@.len() && op_window(r@[j]) == Some((#[trigger] pairs@[k]).1.id),
        r@[j] matches Op::WindowMoveToWorkspace { workspace, .. } ==> workspace == (
        WorkspaceRef::Id { id: target_id }),
        r@[j] matches Op::WindowMoveColumnToIndex { index, .. } ==> index == 0,
{
    let all = pair_values(pairs@);
    let columns = choose|columns: Seq<u32>| #[trigger]
        are_columns(columns, all) && is_layout(r@, columns, all, focused, target_id);
    let differs = |x: (WindowEntry, Window)| floating_differs(x);
    let placed = |x: (WindowEntry, Window)| has_position(x);
    let s1 = place_ops(all, target_id);
    let s2 = toggle_ops(all);
    let s3 = column_ops(columns, all);
    let s4 = size_ops(all);
    let s5 = position_ops(all);
    let s6 = focus_ops(all, focused);
    let n1 = s1.len();
    let n2 = n1 + s2.len();
    let n3 = n2 + s3.len();
    let n4 = n3 + s4.len();
    let n5 = n4 + s5.len();
    if j < n1 {
        assert(r@[j] == s1[j]);
        assert(op_window(r@[j]) == Some(pairs@[j].1.id));
    } else if j < n2 {
        assert(r@[j] == s2[j - n1]);
        let x = all.filter(differs)[j - n1];
        assert(all.filter(differs).contains(x));
        all.lemma_filter_contains_rev(differs, x);
        let k = choose|k: int| 0 <= k < all.len() && all[k] == x;
        assert(op_window(r@[j]) == Some(pairs@[k].1.id));
    } else if j < n3 {
        assert(r@[j] == s3[j - n2]);
        let c = columns[j - n2];
        lemma_first_index_is_first(all, |p: (WindowEntry, Window)| in_column(p, c));
        let k = column_mover(all, c)->0;
        assert(op_window(r@[j]) == Some(pairs@[k].1.id));
    } else if j < n4 {
        assert(r@[j] == s4[j - n3]);
        assert(op_window(r@[j]) == Some(pairs@[j - n3].1.id));
    } else if j < n5 {
        assert(r@[j] == s5[j - n4]);
        let x = all.filter(placed)[j - n4];
        assert(all.filter(placed).contains(x));
        all.lemma_filter_contains_rev(placed, x);
        let k = choose|k: int| 0 <= k < all.len() && all[k] == x;
        assert(op_window(r@[j]) == Some(pairs@[k].1.id));
    } else {
        assert(r@[j] == s6[j - n5]);
        let save_id = focused->0;
        lemma_first_index_is_first(all, |p: (WindowEntry, Window)| p.0.save_id == save_id);
        let k = focused_pair(all, focused)->0;
        assert(op_window(r@[j]) == Some(pairs@[k].1.id));
    }
}

/// The window that had the focus gets it, last of all; where it is not
/// restored, or none had the focus, no window is given the focus.
pub proof fn law_saved_focus_comes_back(
    pairs: &Vec<(&WindowEntry, &Window)>,
    focused: Option<u64>,
    target_id: u64,
    r: Vec<Op>,
    k: int,
)
    requires
        call_ensures(layout_ops, (pairs, focused, target_id), r),
    ensures
        0 <= k < pairs@.len() && focused == Some(pairs@[k].0.save_id) && (forall|m: int|
            0 <= m < k ==> (#[trigger] pairs@[m]).0.save_id != pairs@[k].0.save_id) ==> r@.len() > 0
            && r@.last() == (Op::WindowFocus { id: pairs@[k].1.id }),
        (forall|m: int| 0 <= m < pairs@.len() ==> focused != Some((#[trigger] pairs@[m]).0.save_id))
            ==> forall|j: int| 0 <= j < r@.len() ==> !((#[trigger] r@[j]) is WindowFocus),
{
    let all = pair_values(pairs@);
    let columns = choose|columns: Seq<u32>| #[trigger]
        are_columns(columns, all) && is_layout(r@, columns, all, focused, target_id);
    let s = place_ops(all, target_id) + toggle_ops(all) + column_ops(columns, all) + size_ops(all)
        + position_ops(all);
    let s6 = focus_ops(all, focused);
    assert(r@ == s + s6);
    if let Some(save_id) = focused {
        let p = |x: (WindowEntry, Window)| x.0.save_id == save_id;
        lemma_first_index_is_first(all, p);
        if 0 <= k < pairs@.len() && pairs@[k].0.save_id == save_id && (forall|m: int|
            0 <= m < k ==> (#[trigger] pairs@[m]).0.save_id != pairs@[k].0.save_id) {
            assert(p(all[k]));
            let i = focused_pair(all, focused)->0;
            assert(p(all[i]));
            assert(pairs@[i].0.save_id == save_id);
            assert(i == k);
            assert(r@.last() == s6.last());
        }
        if forall|m: int| 0 <= m < pairs@.len() ==> focused != Some((#[trigger] pairs@[m]).0.save_id) {
            if focused_pair(all, focused) is Some {
                let i = focused_pair(all, focused)->0;
                assert(pairs@[i].0.save_id == save_id);
            }
        }
    }
    if s6.len() == 0 {
        assert(r@ =~= s);
        assert forall|j: int| 0 <= j < r@.len() implies !((#[trigger] r@[j]) is WindowFocus) by {
            lemma_no_focus(all, columns, target_id, j);
        }
    }
}

proof fn lemma_no_focus(all: Seq<(WindowEntry, Window)>, columns: Seq<u32>, target_id: u64, j: int)
    ensures
        ({
            let s = place_ops(all, target_id) + toggle_ops(all) + column_ops(columns, all)
                + size_ops(all) + position_ops(all);
            0 <= j < s.len() ==> !(s[j] is WindowFocus)
        }),
{
    let s1 = place_ops(all, target_id);
    let s2 = toggle_ops(all);
    let s3 = column_ops(columns, all);
    let s4 = size_ops(all);
    let s5 = position_ops(all);
    let s = s1 + s2 + s3 + s4 + s5;
    let n1 = s1.len();
    let n2 = n1 + s2.len();
    let n3 = n2 + s3.len();
    let n4 = n3 + s4.len();
    if 0 <= j < s.len() {
        if j < n1 {
            assert(s[j] == s1[j]);
        } else if j < n2 {
            assert(s[j] == s2[j - n1]);
        } else if j < n3 {
            assert(s[j] == s3[j - n2]);
        } else if j < n4 {
            assert(s[j] == s4[j - n3]);
        } else {
            assert(s[j] == s5[j - n4]);
        }
    }
}

// --------------------------------------------------------------------- columns

/// The windows of which the columns are moved to the front, in the order of
/// the moves.
pub open spec fn moved_to_front(ops: Seq<Op>) -> Seq<u64>
    decreases ops.len(),
{
    if ops.len() == 0 {
        Seq::empty()
    } else {
        let earlier = moved_to_front(ops.drop_last());
        match ops.last() {
            Op::WindowMoveColumnToIndex { id, index } => if index == 0 {
                earlier.push(id)
            } else {
                earlier
            },
            _ => earlier,
        }
    }
}

/// The pair is the first that was saved in its column.
pub open spec fn leads_column(pairs: Seq<(&WindowEntry, &Window)>, k: int) -> bool {
    &&& 0 <= k < pairs.len()
    &&& !pairs[k].0.is_floating
    &&& pairs[k].0.column_index is Some
    &&& forall|m: int|
        0 <= m < k ==> (#[trigger] pairs[m]).0.is_floating || pairs[m].0.column_index
            != pairs[k].0.column_index
}

proof fn lemma_moved_concat(a: Seq<Op>, b: Seq<Op>)
    ensures
        moved_to_front(a + b) == moved_to_front(a) + moved_to_front(b),
    decreases b.len(),
{
    if b.len() == 0 {
        assert(a + b =~= a);
        assert(moved_to_front(a) + moved_to_front(b) =~= moved_to_front(a));
    } else {
        lemma_moved_concat(a, b.drop_last());
        assert((a + b).drop_last() =~= a + b.drop_last());
        assert(moved_to_front(a + b) =~= moved_to_front(a) + moved_to_front(b));
    }
}

proof fn lemma_none_moved(ops: Seq<Op>)
    requires
        forall|i: int| 0 <= i < ops.len() ==> !((#[trigger] ops[i]) is WindowMoveColumnToIndex),
    ensures
        moved_to_front(ops) == Seq::<u64>::empty(),
    decreases ops.len(),
{
    if ops.len() > 0 {
        let front = ops.drop_last();
        assert forall|i: int| 0 <= i < front.len() implies !((
        #[trigger] front[i]) is WindowMoveColumnToIndex) by {
            assert(front[i] == ops[i]);
        }
        lemma_none_moved(front);
        assert(!(ops[ops.len() - 1] is WindowMoveColumnToIndex));
    }
}

proof fn lemma_columns_moved(columns: Seq<u32>, all: Seq<(WindowEntry, Window)>)
    ensures
        moved_to_front(column_ops(columns, all)) == columns.map_values(
            |c: u32| all[column_mover(all, c)->0].1.id,
        ),
    decreases columns.len(),
{
    let f = |c: u32| all[column_mover(all, c)->0].1.id;
    if columns.len() == 0 {
        assert(moved_to_front(column_ops(columns, all)) =~= columns.map_values(f));
    } else {
        let front = columns.drop_last();
        lemma_columns_moved(front, all);
        assert(column_ops(columns, all).drop_last() =~= column_ops(front, all));
        assert(columns.map_values(f) =~= front.map_values(f).push(f(columns.last())));
    }
}

proof fn lemma_moves(
    pairs: &Vec<(&WindowEntry, &Window)>,
    focused: Option<u64>,
    target_id: u64,
    r: Vec<Op>,
) -> (columns: Seq<u32>)
    requires
        call_ensures(layout_ops, (pairs, focused, target_id), r),
    ensures
        are_columns(columns, pair_values(pairs@)),
        moved_to_front(r@) == columns.map_values(
            |c: u32| pair_values(pairs@)[column_mover(pair_values(pairs@), c)->0].1.id,
        ),
{
    let all = pair_values(pairs@);
    let columns = choose|columns: Seq<u32>| #[trigger]
        are_columns(columns, all) && is_layout(r@, columns, all, focused, target_id);
    let s1 = place_ops(all, target_id);
    let s2 = toggle_ops(all);
    let s3 = column_ops(columns, all);
    let s4 = size_ops(all);
    let s5 = position_ops(all);
    let s6 = focus_ops(all, focused);
    lemma_none_moved(s1);
    lemma_none_moved(s2);
    lemma_none_moved(s4);
    lemma_none_moved(s5);
    lemma_none_moved(s6);
    lemma_moved_concat(s1, s2);
    lemma_moved_concat(s1 + s2, s3);
    lemma_moved_concat(s1 + s2 + s3, s4);
    lemma_moved_concat(s1 + s2 + s3 + s4, s5);
    lemma_moved_concat(s1 + s2 + s3 + s4 + s5, s6);
    lemma_columns_moved(columns, all);
    assert(moved_to_front(r@) =~= moved_to_front(s3));
    columns
}

/// Where the first of a column stands among the pairs.
proof fn lemma_leader(pairs: &Vec<(&WindowEntry, &Window)>, k: int)
    requires
        leads_column(pairs@, k),
    ensures
        column_mover(pair_values(pairs@), pairs@[k].0.column_index->0) == Some(k),
        in_column(pair_values(pairs@)[k], pairs@[k].0.column_index->0),
{
    let all = pair_values(pairs@);
    let c = pairs@[k].0.column_index->0;
    let p = |x: (WindowEntry, Window)| in_column(x, c);
    assert forall|m: int| 0 <= m < k implies !p(#[trigger] all[m]) by {
        assert(pairs@[m].0.is_floating || pairs@[m].0.column_index != pairs@[k].0.column_index);
    }
    assert(p(all[k]));
    crate::seqs::lemma_first_index(all, p, k);
}

/// The columns that are moved are those in which a window was saved tiled,
/// each by the first window of it; and a column that was saved in front of
/// another stands in front of it in the end, whatever stood in the row.
pub proof fn law_columns_end_up_in_saved_order(
    pairs: &Vec<(&WindowEntry, &Window)>,
    focused: Option<u64>,
    target_id: u64,
    r: Vec<Op>,
    row: Seq<u64>,
    a: int,
    b: int,
)
    requires
        call_ensures(layout_ops, (pairs, focused, target_id), r),
        distinct_windows(pairs@),
        leads_column(pairs@, a),
        leads_column(pairs@, b),
        pairs@[a].0.column_index->0 < pairs@[b].0.column_index->0,
    ensures
        exists|x: int, y: int|
            0 <= x < y < moved_to_front(r@).len() && #[trigger] after_moves(
                row,
                moved_to_front(r@),
            )[x] == pairs@[a].1.id && #[trigger] after_moves(row, moved_to_front(r@))[y]
                == pairs@[b].1.id,
{
    let all = pair_values(pairs@);
    let columns = lemma_moves(pairs, focused, target_id, r);
    let moves = moved_to_front(r@);
    let f = |c: u32| all[column_mover(all, c)->0].1.id;
    lemma_distinct(pairs@);
    assert forall|i: int, j: int| 0 <= i < moves.len() && 0 <= j < moves.len() && i != j implies moves[i]
        != moves[j] by {
        let p = |x: (WindowEntry, Window)| in_column(x, columns[i]);
        let q = |x: (WindowEntry, Window)| in_column(x, columns[j]);
        lemma_first_index_is_first(all, p);
        lemma_first_index_is_first(all, q);
        let mi = column_mover(all, columns[i])->0;
        let mj = column_mover(all, columns[j])->0;
        assert(columns[i] != columns[j]) by {
            if i < j {
                assert(columns[i] > columns[j]);
            } else {
                assert(columns[j] > columns[i]);
            }
        }
        assert(p(all[mi]) && q(all[mj]));
        assert(mi != mj);
        if mi < mj {
            assert(all[mi].1.id != all[mj].1.id);
        } else {
            assert(all[mj].1.id != all[mi].1.id);
        }
    }
    law_moved_columns_stand_in_order(row, moves);
    lemma_leader(pairs, a);
    lemma_leader(pairs, b);
    let ca = pairs@[a].0.column_index->0;
    let cb = pairs@[b].0.column_index->0;
    assert(columns.contains(ca));
    assert(columns.contains(cb));
    let i = choose|i: int| 0 <= i < columns.len() && columns[i] == ca;
    let j = choose|j: int| 0 <= j < columns.len() && columns[j] == cb;
    if i < j {
        assert(columns[i] > columns[j]);
    }
    let n = moves.len() as int;
    let end = after_moves(row, moves);
    let x = n - 1 - i;
    let y = n - 1 - j;
    assert(end.take(n)[x] == moves.reverse()[x]);
    assert(end.take(n)[y] == moves.reverse()[y]);
    assert(moves[i] == f(columns[i]));
    assert(moves[j] == f(columns[j]));
    assert(end[x] == pairs@[a].1.id);
    assert(end[y] == pairs@[b].1.id);
}

/// A column is moved exactly by the first window that was saved tiled in it:
/// a window that was saved floating, without a column, or behind another in
/// its column moves none.
pub proof fn law_columns_are_moved_by_their_first_window(
    pairs: &Vec<(&WindowEntry, &Window)>,
    focused: Option<u64>,
    target_id: u64,
    r: Vec<Op>,
    k: int,
)
    requires
        call_ensures(layout_ops, (pairs, focused, target_id), r),
        distinct_windows(pairs@),
        0 <= k < pairs@.len(),
    ensures
        moved_to_front(r@).contains(pairs@[k].1.id) <==> leads_column(pairs@, k),
{
    let all = pair_values(pairs@);
    let columns = lemma_moves(pairs, focused, target_id, r);
    let moves = moved_to_front(r@);
    let f = |c: u32| all[column_mover(all, c)->0].1.id;
    lemma_distinct(pairs@);
    if leads_column(pairs@, k) {
        lemma_leader(pairs, k);
        let c = pairs@[k].0.column_index->0;
        assert(columns.contains(c));
        let i = choose|i: int| 0 <= i < columns.len() && columns[i] == c;
        assert(moves[i] == pairs@[k].1.id);
    }
    if moves.contains(pairs@[k].1.id) {
        let i = choose|i: int| 0 <= i < moves.len() && moves[i] == pairs@[k].1.id;
        let c = columns[i];
        let p = |x: (WindowEntry, Window)| in_column(x, c);
        lemma_first_index_is_first(all, p);
        let m = column_mover(all, c)->0;
        assert(p(all[m]));
        assert(all[m].1.id == all[k].1.id);
        assert(m == k) by {
            if m < k {
                assert(all[m].1.id != all[k].1.id);
            } else if k < m {
                assert(all[k].1.id != all[m].1.id);
            }
        }
        assert forall|n: int| 0 <= n < k implies (#[trigger] pairs@[n]).0.is_floating
            || pairs@[n].0.column_index != pairs@[k].0.column_index by {
            assert(!p(all[n]));
        }
    }
}

// -------------------------------------------------------------------- clearing

/// What is closed before a snapshot is restored is every window on the
/// workspace that is neither pinned nor in the scratchpad nor about to be
/// placed, and nothing else.
pub proof fn law_clearing_closes_the_rest_of_the_workspace(
    live: &[Window],
    target_id: u64,
    pinned: &HashSet<u64>,
    scratch: &HashSet<u64>,
    matched: &HashSet<u64>,
    r: Vec<u64>,
    id: u64,
)
    requires
        call_ensures(compute_clear_set, (live, target_id, pinned, scratch, matched), r),
    ensures
        r@.contains(id) <==> !pinned@.contains(id) && !scratch@.contains(id) && !matched@.contains(
            id,
        ) && exists|i: int|
            0 <= i < live@.len() && (#[trigger] live@[i]).id == id && live@[i].workspace_id == Some(
                target_id,
            ),
        r@.len() == live@.filter(
            |w: Window|
                w.workspace_id == Some(target_id) && !pinned@.contains(w.id) && !scratch@.contains(
                    w.id,
                ) && !matched@.contains(w.id),
        ).len(),
{
    let p = |w: Window| is_cleared(target_id, pinned@, scratch@, matched@, w);
    assert(p =~= |w: Window|
        w.workspace_id == Some(target_id) && !pinned@.contains(w.id) && !scratch@.contains(w.id)
            && !matched@.contains(w.id));
    let kept = live@.filter(p);
    if r@.contains(id) {
        let k = choose|k: int| 0 <= k < r@.len() && r@[k] == id;
        live@.lemma_filter_pred(p, k);
        assert(kept.contains(kept[k]));
        live@.lemma_filter_contains_rev(p, kept[k]);
        let i = choose|i: int| 0 <= i < live@.len() && live@[i] == kept[k];
        assert(live@[i].id == id);
    }
    if !pinned@.contains(id) && !scratch@.contains(id) && !matched@.contains(id) && exists|i: int|
        0 <= i < live@.len() && (#[trigger] live@[i]).id == id && live@[i].workspace_id == Some(
            target_id,
        ) {
        let i = choose|i: int|
            0 <= i < live@.len() && (#[trigger] live@[i]).id == id && live@[i].workspace_id == Some(
                target_id,
            );
        live@.lemma_filter_contains(p, i);
        let k = choose|k: int| 0 <= k < kept.len() && kept[k] == live@[i];
        assert(r@[k] == id);
    }
}

/// The stage that a step belongs to.
pub open spec fn stage(op: Op) -> int {
    match op {
        Op::WindowMoveToWorkspace { .. } => 0,
        Op::WindowToggleFloating { .. } => 1,
        Op::WindowMoveColumnToIndex { .. } => 2,
        Op::WindowSetSize { .. } => 3,
        Op::WindowSetFloatingPosition { .. } => 4,
        Op::WindowFocus { .. } => 5,
        _ => 6,
    }
}

/// The steps come in stages: all windows are on the workspace before any is
/// toggled, all float or not before columns are moved, columns stand before
/// sizes are set, then positions; the focus comes last, and once at most.
pub proof fn law_steps_come_in_stages(
    pairs: &Vec<(&WindowEntry, &Window)>,
    focused: Option<u64>,
    target_id: u64,
    r: Vec<Op>,
    i: int,
    j: int,
)
    requires
        call_ensures(layout_ops, (pairs, focused, target_id), r),
        0 <= i < j < r@.len(),
    ensures
        stage(r@[i]) <= stage(r@[j]) <= 5,
        !(r@[i] is WindowFocus),
{
    let all = pair_values(pairs@);
    let columns = choose|columns: Seq<u32>| #[trigger]
        are_columns(columns, all) && is_layout(r@, columns, all, focused, target_id);
    lemma_stage(r@, columns, all, focused, target_id, i);
    lemma_stage(r@, columns, all, focused, target_id, j);
}

proof fn lemma_stage(
    r: Seq<Op>,
    columns: Seq<u32>,
    all: Seq<(WindowEntry, Window)>,
    focused: Option<u64>,
    target_id: u64,
    i: int,
)
    requires
        is_layout(r, columns, all, focused, target_id),
        0 <= i < r.len(),
    ensures
        ({
            let n1 = all.len();
            let n2 = n1 + toggle_ops(all).len();
            let n3 = n2 + columns.len();
            let n4 = n3 + all.len();
            let n5 = n4 + position_ops(all).len();
            stage(r[i]) == (if i < n1 {
                0int
            } else if i < n2 {
                1
            } else if i < n3 {
                2
            } else if i < n4 {
                3
            } else if i < n5 {
                4
            } else {
                5
            }) && r.len() <= n5 + 1
        }),
{
    let s1 = place_ops(all, target_id);
    let s2 = toggle_ops(all);
    let s3 = column_ops(columns, all);
    let s4 = size_ops(all);
    let s5 = position_ops(all);
    let s6 = focus_ops(all, focused);
    let n1 = s1.len();
    let n2 = n1 + s2.len();
    let n3 = n2 + s3.len();
    let n4 = n3 + s4.len();
    let n5 = n4 + s5.len();
    if i < n1 {
        assert(r[i] == s1[i]);
    } else if i < n2 {
        assert(r[i] == s2[i - n1]);
    } else if i < n3 {
        assert(r[i] == s3[i - n2]);
    } else if i < n4 {
        assert(r[i] == s4[i - n3]);
    } else if i < n5 {
        assert(r[i] == s5[i - n4]);
    } else {
        assert(r[i] == s6[i - n5]);
    }
}

} // verus!
