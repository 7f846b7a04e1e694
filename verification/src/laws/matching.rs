//! Restoring a snapshot: which live window stands for which saved one.

use std::collections::HashSet;

use vstd::prelude::*;
use vstd::string::*;

use crate::bridge::proto::{Window, Workspace};
use crate::json::{field, Json, JsonView};
use crate::seqs::lemma_first_index_is_first;
use crate::snapshot::load::{
    add_listed_ids, appeared, first_free, is_match, law_matching, lemma_partners_prefix, listed_id,
    listed_ids, live_with_id, match_pairs, pair_list, pair_respawned, partners, positions,
    resolve_target, respawned, respawned_pairs, spawn_timeout_secs, SpawnOutcome, Target,
};
use crate::snapshot::save::{by_idx, by_name, TargetError};
use crate::snapshot::schema::WindowEntry;
use crate::text::{opt_str_view, opt_view, parsed_u8};

verus! {

/// The saved and the live window name one application and one title.
pub open spec fn alike(s: WindowEntry, w: Window) -> bool {
    opt_view(s.app_id) == opt_view(w.app_id) && opt_view(s.title) == opt_view(w.title)
}

/// The positions of the saved windows that found a partner.
spec fn paired(saved: Seq<WindowEntry>, live: Seq<Window>) -> Seq<int>
    decreases saved.len(),
{
    if saved.len() == 0 {
        Seq::empty()
    } else {
        let earlier = paired(saved.drop_last(), live);
        if partners(saved, live).last() is Some {
            earlier.push(saved.len() - 1)
        } else {
            earlier
        }
    }
}

proof fn lemma_paired(saved: Seq<WindowEntry>, live: Seq<Window>)
    ensures
        pair_list(saved, live).len() == paired(saved, live).len(),
        forall|j: int|
            0 <= j < paired(saved, live).len() ==> {
                let k = #[trigger] paired(saved, live)[j];
                &&& 0 <= k < saved.len()
                &&& partners(saved, live)[k] is Some
                &&& pair_list(saved, live)[j] == (saved[k], live[partners(saved, live)[k]->0])
            },
        forall|i: int, j: int|
            0 <= i < j < paired(saved, live).len() ==> #[trigger] paired(saved, live)[i]
                < #[trigger] paired(saved, live)[j],
        forall|k: int|
            0 <= k < saved.len() && (#[trigger] partners(saved, live)[k]) is Some ==> paired(
                saved,
                live,
            ).contains(k),
    decreases saved.len(),
{
    lemma_partners_prefix(saved, live, saved.len() as int);
    if saved.len() > 0 {
        let front = saved.drop_last();
        lemma_paired(front, live);
        lemma_partners_prefix(saved, live, saved.len() - 1);
        assert(saved.take(saved.len() - 1) =~= front);
        let all = partners(saved, live);
        let earlier = paired(front, live);
        let now = paired(saved, live);
        assert forall|k: int| 0 <= k < front.len() implies #[trigger] all[k] == partners(
            front,
            live,
        )[k] by {
            assert(all.take(saved.len() - 1)[k] == all[k]);
        }
        assert forall|j: int| 0 <= j < now.len() implies {
            let k = #[trigger] now[j];
            &&& 0 <= k < saved.len()
            &&& all[k] is Some
            &&& pair_list(saved, live)[j] == (saved[k], live[all[k]->0])
        } by {
            if j < earlier.len() {
                assert(now[j] == earlier[j]);
                assert(saved[now[j]] == front[now[j]]);
            }
        }
        assert forall|i: int, j: int| 0 <= i < j < now.len() implies #[trigger] now[i]
            < #[trigger] now[j] by {
            if j < earlier.len() {
                assert(earlier[i] < earlier[j]);
            } else {
                assert(now[i] == earlier[i]);
            }
        }
        assert forall|k: int| 0 <= k < saved.len() && (#[trigger] all[k]) is Some implies now.contains(
            k,
        ) by {
            if k < front.len() {
                assert(partners(front, live)[k] is Some);
                let j = choose|j: int| 0 <= j < earlier.len() && earlier[j] == k;
                assert(now[j] == k);
            } else {
                assert(now[now.len() - 1] == k);
            }
        }
    }
}

/// Each pair is a saved window and a live one of the same application and
/// title.
pub proof fn law_pairs_are_alike(
    saved: &[WindowEntry],
    live: &[Window],
    r: Vec<(&WindowEntry, &Window)>,
    j: int,
)
    requires
        call_ensures(match_pairs, (saved, live), r),
        0 <= j < r@.len(),
    ensures
        alike(*r@[j].0, *r@[j].1),
        saved@.contains(*r@[j].0),
        live@.contains(*r@[j].1),
{
    lemma_paired(saved@, live@);
    law_matching(saved@, live@);
    let k = paired(saved@, live@)[j];
    let i = partners(saved@, live@)[k]->0;
    assert(is_match(saved@[k], live@[i]));
    assert(*r@[j].0 == saved@[k] && *r@[j].1 == live@[i]);
}

/// A live window stands for one saved window at most, where no two live
/// windows have one id.
pub proof fn law_live_windows_are_taken_once(
    saved: &[WindowEntry],
    live: &[Window],
    r: Vec<(&WindowEntry, &Window)>,
    a: int,
    b: int,
)
    requires
        call_ensures(match_pairs, (saved, live), r),
        forall|i: int, j: int|
            0 <= i < j < live@.len() ==> (#[trigger] live@[i]).id != (#[trigger] live@[j]).id,
        0 <= a < b < r@.len(),
    ensures
        r@[a].1.id != r@[b].1.id,
{
    lemma_paired(saved@, live@);
    law_matching(saved@, live@);
    let all = partners(saved@, live@);
    let ka = paired(saved@, live@)[a];
    let kb = paired(saved@, live@)[b];
    let ia = all[ka]->0;
    let ib = all[kb]->0;
    assert(all[ka] != all[kb]);
    assert(*r@[a].1 == live@[ia] && *r@[b].1 == live@[ib]);
    if ia < ib {
        assert(live@[ia].id != live@[ib].id);
    } else {
        assert(live@[ib].id != live@[ia].id);
    }
}

/// No saved window is left alone while a live window that is like it is free:
/// of two that are alike one is in a pair.
pub proof fn law_nobody_is_left_alone(
    saved: &[WindowEntry],
    live: &[Window],
    r: Vec<(&WindowEntry, &Window)>,
    k: int,
    i: int,
)
    requires
        call_ensures(match_pairs, (saved, live), r),
        0 <= k < saved@.len(),
        0 <= i < live@.len(),
        alike(saved@[k], live@[i]),
    ensures
        exists|j: int|
            0 <= j < r@.len() && (*(#[trigger] r@[j]).0 == saved@[k] || *r@[j].1 == live@[i]),
{
    lemma_paired(saved@, live@);
    law_matching(saved@, live@);
    let all = partners(saved@, live@);
    let order = paired(saved@, live@);
    assert(is_match(saved@[k], live@[i]));
    if all[k] is Some {
        assert(order.contains(k));
        let j = choose|j: int| 0 <= j < order.len() && order[j] == k;
        assert(*r@[j].0 == saved@[k]);
    } else {
        assert(all.take(k).contains(Some(i)));
        let m = choose|m: int| 0 <= m < k && all.take(k)[m] == Some(i);
        assert(all[m] == Some(i));
        assert(order.contains(m));
        let j = choose|j: int| 0 <= j < order.len() && order[j] == m;
        assert(*r@[j].1 == live@[i]);
    }
}

/// The windows that appeared are those that a wait brought, each under the
/// position of its saved entry.
pub proof fn law_windows_that_appeared(
    outcomes: &Vec<SpawnOutcome>,
    r: Vec<(usize, u64)>,
    i: int,
    id: u64,
)
    requires
        call_ensures(respawned, (outcomes,), r),
        0 <= i < outcomes@.len(),
    ensures
        r@.contains((i as usize, id)) <==> outcomes@[i] == SpawnOutcome::Window(id),
{
    assert(outcomes.len() == outcomes@.len());
    lemma_appeared(outcomes@, i, id);
}

proof fn lemma_appeared(outcomes: Seq<SpawnOutcome>, i: int, id: u64)
    requires
        outcomes.len() <= usize::MAX,
    ensures
        forall|k: int| 0 <= k < appeared(outcomes).len() ==> (#[trigger] appeared(outcomes)[k]).0
            < outcomes.len(),
        0 <= i < outcomes.len() ==> (appeared(outcomes).contains((i as usize, id)) <==> outcomes[i]
            == SpawnOutcome::Window(id)),
    decreases outcomes.len(),
{
    if outcomes.len() > 0 {
        let front = outcomes.drop_last();
        lemma_appeared(front, i, id);
        let now = appeared(outcomes);
        let earlier = appeared(front);
        if 0 <= i < front.len() {
            if earlier.contains((i as usize, id)) {
                let k = choose|k: int| 0 <= k < earlier.len() && earlier[k] == (i as usize, id);
                assert(now[k] == (i as usize, id));
            }
            if now.contains((i as usize, id)) {
                let k = choose|k: int| 0 <= k < now.len() && now[k] == (i as usize, id);
                assert(k < earlier.len());
                assert(earlier[k] == (i as usize, id));
            }
        } else if i == front.len() {
            if outcomes[i] == SpawnOutcome::Window(id) {
                assert(now[now.len() - 1] == (i as usize, id));
            }
            if now.contains((i as usize, id)) {
                let k = choose|k: int| 0 <= k < now.len() && now[k] == (i as usize, id);
                if k < earlier.len() {
                    assert(earlier[k].0 < front.len());
                }
            }
        }
    }
}

/// A saved window that was started again is paired with the live window of
/// the id that appeared for it; pairs are made in no other way.
pub proof fn law_started_windows_are_paired_by_id(
    saved: &[WindowEntry],
    found: &Vec<(usize, u64)>,
    live: &[Window],
    r: Vec<(&WindowEntry, &Window)>,
    k: int,
    j: int,
)
    requires
        call_ensures(pair_respawned, (saved, found, live), r),
        forall|k: int| 0 <= k < found@.len() ==> (#[trigger] found@[k]).0 < saved@.len(),
    ensures
        0 <= k < found@.len() && (exists|i: int|
            0 <= i < live@.len() && (#[trigger] live@[i]).id == found@[k].1) ==> exists|m: int|
            0 <= m < r@.len() && *(#[trigger] r@[m]).0 == saved@[found@[k].0 as int]
                && r@[m].1.id == found@[k].1,
        0 <= j < r@.len() ==> live@.contains(*r@[j].1) && exists|n: int|
            0 <= n < found@.len() && *r@[j].0 == saved@[(#[trigger] found@[n]).0 as int]
                && r@[j].1.id == found@[n].1,
{
    lemma_respawned(saved@, found@, live@);
    let pairs = respawned_pairs(saved@, found@, live@);
    if 0 <= k < found@.len() && exists|i: int|
        0 <= i < live@.len() && (#[trigger] live@[i]).id == found@[k].1 {
        lemma_live_with_id(live@, found@[k].1);
        assert(live_with_id(live@, found@[k].1) is Some);
        let m = choose|m: int|
            0 <= m < pairs.len() && (#[trigger] pairs[m]).0 == saved@[found@[k].0 as int]
                && pairs[m].1.id == found@[k].1;
        assert(*r@[m].0 == pairs[m].0 && *r@[m].1 == pairs[m].1);
    }
    if 0 <= j < r@.len() {
        assert(*r@[j].0 == pairs[j].0 && *r@[j].1 == pairs[j].1);
    }
}

proof fn lemma_live_with_id(live: Seq<Window>, id: u64)
    ensures
        live_with_id(live, id) matches Some(i) ==> 0 <= i < live.len() && live[i].id == id,
        live_with_id(live, id) is None ==> forall|i: int|
            0 <= i < live.len() ==> (#[trigger] live[i]).id != id,
    decreases live.len(),
{
    if live.len() > 0 {
        let front = live.drop_last();
        lemma_live_with_id(front, id);
        if live_with_id(live, id) is None {
            assert forall|i: int| 0 <= i < live.len() implies (#[trigger] live[i]).id != id by {
                if i < front.len() {
                    assert(front[i].id != id);
                }
            }
        }
    }
}

proof fn lemma_respawned(saved: Seq<WindowEntry>, found: Seq<(usize, u64)>, live: Seq<Window>)
    ensures
        forall|k: int|
            0 <= k < found.len() && live_with_id(live, (#[trigger] found[k]).1) is Some ==> exists|
                m: int,
            |
                0 <= m < respawned_pairs(saved, found, live).len() && (#[trigger] respawned_pairs(
                    saved,
                    found,
                    live,
                )[m]).0 == saved[found[k].0 as int] && respawned_pairs(saved, found, live)[m].1.id
                    == found[k].1,
        forall|j: int|
            0 <= j < respawned_pairs(saved, found, live).len() ==> {
                &&& live.contains((#[trigger] respawned_pairs(saved, found, live)[j]).1)
                &&& exists|n: int|
                    0 <= n < found.len() && respawned_pairs(saved, found, live)[j].0 == saved[(
                    #[trigger] found[n]).0 as int] && respawned_pairs(saved, found, live)[j].1.id
                        == found[n].1
            },
    decreases found.len(),
{
    if found.len() > 0 {
        let front = found.drop_last();
        lemma_respawned(saved, front, live);
        lemma_live_with_id(live, found.last().1);
        let now = respawned_pairs(saved, found, live);
        let earlier = respawned_pairs(saved, front, live);
        assert forall|k: int|
            0 <= k < found.len() && live_with_id(live, (#[trigger] found[k]).1) is Some implies exists|
            m: int,
        |
            0 <= m < now.len() && (#[trigger] now[m]).0 == saved[found[k].0 as int]
                && now[m].1.id == found[k].1 by {
            if k < front.len() {
                assert(front[k] == found[k]);
                let m = choose|m: int|
                    0 <= m < earlier.len() && (#[trigger] earlier[m]).0 == saved[found[k].0 as int]
                        && earlier[m].1.id == found[k].1;
                assert(now[m] == earlier[m]);
            } else {
                assert(now[now.len() - 1].1.id == found[k].1);
            }
        }
        assert forall|j: int| 0 <= j < now.len() implies {
            &&& live.contains((#[trigger] now[j]).1)
            &&& exists|n: int|
                0 <= n < found.len() && now[j].0 == saved[(#[trigger] found[n]).0 as int]
                    && now[j].1.id == found[n].1
        } by {
            if j < earlier.len() {
                assert(now[j] == earlier[j]);
                let n = choose|n: int|
                    0 <= n < front.len() && earlier[j].0 == saved[(#[trigger] front[n]).0 as int]
                        && earlier[j].1.id == front[n].1;
                assert(found[n] == front[n]);
            } else {
                let i = live_with_id(live, found.last().1)->0;
                assert(now[j].1 == live[i]);
                assert(found[found.len() - 1] == found.last());
            }
        }
    }
}

/// A snapshot is restored to the first workspace with its saved index, unless
/// the user names one, by index or by name; there being none is an error.
pub proof fn law_workspace_to_restore_to(
    workspaces: &Vec<Workspace>,
    requested: Option<&str>,
    saved_idx: u8,
    r: Result<Target, TargetError>,
)
    requires
        call_ensures(resolve_target, (workspaces, requested, saved_idx), r),
    ensures
        ({
            let asked = match requested {
                Some(name) => parsed_u8(name@),
                None => Some(saved_idx),
            };
            &&& asked matches Some(idx) ==> {
                &&& r is Ok <==> exists|i: int|
                    0 <= i < workspaces@.len() && (#[trigger] workspaces@[i]).idx == idx
                &&& r matches Ok(t) ==> t.idx == idx && exists|i: int|
                    0 <= i < workspaces@.len() && (#[trigger] workspaces@[i]).id == t.id
                        && workspaces@[i].idx == idx && forall|j: int|
                        0 <= j < i ==> (#[trigger] workspaces@[j]).idx != idx
            }
            &&& asked is None ==> {
                &&& r is Ok <==> exists|i: int|
                    0 <= i < workspaces@.len() && opt_view((#[trigger] workspaces@[i]).name) == Some(
                        requested->0@,
                    )
                &&& r matches Ok(t) ==> exists|i: int|
                    0 <= i < workspaces@.len() && (#[trigger] workspaces@[i]).id == t.id
                        && workspaces@[i].idx == t.idx && opt_view(workspaces@[i].name) == Some(
                        requested->0@,
                    )
            }
        }),
{
    let v = workspaces@;
    let asked = match requested {
        Some(name) => parsed_u8(name@),
        None => Some(saved_idx),
    };
    if let Some(name) = requested {
        assert(opt_str_view(requested) == Some(name@));
    }
    if let Some(idx) = asked {
        let p = |w: Workspace| w.idx == idx;
        lemma_first_index_is_first(v, p);
        if let Some(i) = by_idx(v, idx) {
            assert(p(v[i]));
            assert forall|j: int| 0 <= j < i implies (#[trigger] v[j]).idx != idx by {
                assert(!p(v[j]));
            }
            assert(v[i].id == r->Ok_0.id);
        } else {
            assert forall|i: int| 0 <= i < v.len() implies (#[trigger] v[i]).idx != idx by {
                assert(!p(v[i]));
            }
        }
    } else {
        let name = requested->0@;
        let p = |w: Workspace| opt_view(w.name) == Some(name);
        lemma_first_index_is_first(v, p);
        if let Some(i) = by_name(v, name) {
            assert(p(v[i]));
            assert(v[i].id == r->Ok_0.id);
        } else {
            assert forall|i: int| 0 <= i < v.len() implies opt_view((#[trigger] v[i]).name) != Some(
                name,
            ) by {
                assert(!p(v[i]));
            }
        }
    }
}

/// The wait for a window is as long as the user says, and five seconds where
/// they do not say.
pub proof fn law_spawn_timeout(asked: Option<u64>, r: u64)
    requires
        call_ensures(spawn_timeout_secs, (asked,), r),
    ensures
        asked matches Some(n) ==> r == n,
        asked is None ==> r == 5,
{
}

/// A workspace that cannot be restored to is told apart: by the number or the
/// name that was asked for, or by the number that was saved.
pub proof fn law_missing_workspace_is_told_apart(
    workspaces: &Vec<Workspace>,
    requested: Option<&str>,
    saved_idx: u8,
    r: Result<Target, TargetError>,
)
    requires
        call_ensures(resolve_target, (workspaces, requested, saved_idx), r),
        r is Err,
    ensures
        requested is None ==> r->Err_0 == TargetError::SavedIdxAbsent(saved_idx),
        requested matches Some(name) ==> match parsed_u8(name@) {
            Some(idx) => r->Err_0 == TargetError::NoIdx(idx),
            None => r->Err_0 matches TargetError::NoName(s) && s@ == name@,
        },
{
}

// ---------------------------------------------------------------- who comes first

/// The pairs are those of the saved windows at some positions and of the live
/// windows at others, the saved ones in their order.
pub open spec fn stand_at(
    r: Seq<(&WindowEntry, &Window)>,
    saved: Seq<WindowEntry>,
    live: Seq<Window>,
    rows: Seq<int>,
    places: Seq<int>,
) -> bool {
    &&& rows.len() == r.len() && places.len() == r.len()
    &&& forall|j: int|
        0 <= j < r.len() ==> {
            &&& 0 <= #[trigger] rows[j] < saved.len()
            &&& 0 <= places[j] < live.len()
            &&& *r[j].0 == saved[rows[j]]
            &&& *r[j].1 == live[places[j]]
        }
    &&& forall|a: int, b: int| 0 <= a < b < r.len() ==> #[trigger] rows[a] < #[trigger] rows[b]
}

/// Who is alike and comes earlier was taken by an earlier pair.
pub open spec fn takes_the_first(
    r: Seq<(&WindowEntry, &Window)>,
    live: Seq<Window>,
    places: Seq<int>,
) -> bool {
    forall|j: int, i: int|
        0 <= j < r.len() && 0 <= i < places[j] && alike(*(#[trigger] r[j]).0, #[trigger] live[i])
            ==> exists|a: int| 0 <= a < j && #[trigger] places[a] == i
}

/// Saved windows are paired in their order, and each takes the first live
/// window that is alike and not taken yet.
pub proof fn law_first_come_first_served(
    saved: &[WindowEntry],
    live: &[Window],
    r: Vec<(&WindowEntry, &Window)>,
)
    requires
        call_ensures(match_pairs, (saved, live), r),
    ensures
        exists|rows: Seq<int>, places: Seq<int>|
            #[trigger] stand_at(r@, saved@, live@, rows, places) && takes_the_first(
                r@,
                live@,
                places,
            ),
{
    lemma_paired(saved@, live@);
    law_matching(saved@, live@);
    let rows = paired(saved@, live@);
    let all = partners(saved@, live@);
    let places = Seq::new(rows.len(), |j: int| all[rows[j]]->0);
    assert forall|j: int| 0 <= j < r@.len() implies {
        &&& 0 <= #[trigger] rows[j] < saved@.len()
        &&& 0 <= places[j] < live@.len()
        &&& *r@[j].0 == saved@[rows[j]]
        &&& *r@[j].1 == live@[places[j]]
    } by {
        assert(all[rows[j]] is Some);
    }
    assert(stand_at(r@, saved@, live@, rows, places));
    assert forall|j: int, i: int|
        0 <= j < r@.len() && 0 <= i < places[j] && alike(
            *(#[trigger] r@[j]).0,
            #[trigger] live@[i],
        ) implies exists|a: int| 0 <= a < j && #[trigger] places[a] == i by {
        let k = rows[j];
        let earlier = saved@.take(k);
        let upto = saved@.take(k + 1);
        lemma_partners_prefix(saved@, live@, k);
        lemma_partners_prefix(saved@, live@, k + 1);
        assert(upto.drop_last() =~= earlier);
        assert(upto.last() == saved@[k]);
        let taken = partners(earlier, live@);
        let free = |i: int| !taken.contains(Some(i)) && is_match(saved@[k], live@[i]);
        assert(partners(upto, live@).last() == all[k]);
        assert(first_free(live@, taken, saved@[k]) == all[k]);
        lemma_first_index_is_first(positions(live@.len()), free);
        assert(positions(live@.len())[i] == i);
        assert(!free(positions(live@.len())[i]));
        assert(is_match(saved@[k], live@[i]));
        assert(taken.contains(Some(i)));
        let b = choose|b: int| 0 <= b < taken.len() && taken[b] == Some(i);
        assert(all[b] == Some(i));
        assert(rows.contains(b));
        let a = choose|a: int| 0 <= a < rows.len() && rows[a] == b;
        if a >= j {
            if a > j {
                assert(rows[j] < rows[a]);
            }
        }
        assert(places[a] == i);
    }
}

// --------------------------------------------------------------------- protected

/// An item of an answer names a window: it is its id, or its record.
pub open spec fn names_window(j: JsonView, id: u64) -> bool {
    j == JsonView::Num(id as int) || field(j, "id"@) == JsonView::Num(id as int)
}

/// The windows that an answer lists are added to those that are spared, and
/// no others; an answer that is no list adds none.
pub proof fn law_listed_windows_are_spared(answer: Json, id: u64)
    ensures
        forall|ids: &mut HashSet<u64>| #[trigger]
            call_ensures(add_listed_ids, (ids, &answer), ()) ==> {
                &&& answer@ matches JsonView::Arr(items) ==> (final(ids)@.contains(id)
                    <==> ids@.contains(id) || exists|k: int|
                    0 <= k < items.len() && names_window(#[trigger] items[k], id))
                &&& !(answer@ is Arr) ==> (final(ids)@.contains(id) <==> ids@.contains(id))
            },
{
    assert forall|ids: &mut HashSet<u64>| #[trigger]
        call_ensures(add_listed_ids, (ids, &answer), ()) implies {
        &&& answer@ matches JsonView::Arr(items) ==> (final(ids)@.contains(id) <==> ids@.contains(
            id,
        ) || exists|k: int| 0 <= k < items.len() && names_window(#[trigger] items[k], id))
        &&& !(answer@ is Arr) ==> (final(ids)@.contains(id) <==> ids@.contains(id))
    } by {
        if let JsonView::Arr(items) = answer@ {
            if listed_ids(answer@).contains(id) {
                let k = choose|k: int|
                    0 <= k < items.len() && listed_id(#[trigger] items[k]) == Some(id);
                assert(names_window(items[k], id));
            }
            if exists|k: int| 0 <= k < items.len() && names_window(#[trigger] items[k], id) {
                let k = choose|k: int|
                    0 <= k < items.len() && names_window(#[trigger] items[k], id);
                assert(listed_id(items[k]) == Some(id));
            }
        }
    }
}

} // verus!
