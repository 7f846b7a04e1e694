//! Pinned windows: which can be pinned, which stay so, and which come back
//! after a restart.

use vstd::prelude::*;
use vstd::string::*;

use crate::bridge::pinned::{
    auto_unpin, law_restored_window_floats, named_ids, named_window, read_or_default, resolve_pin,
    restore, restore_on_startup, resync_after_lag, same_app, same_app_and_title, stale_pins,
    to_file, PersistedPin, PinFile, Restored,
};
use crate::bridge::proto::{Event, Op, Window};
use crate::bridge::server::{
    answers, handle_op, toggle_pin, try_pin, OpError, PinOutcome, Planned, Reply,
};
use crate::bridge::state::{enumerates, lists_windows, windows_view, ClientSubs, Inner};
use crate::json::{field, has_field, JsonView};
use crate::laws::protocol::{lemma_lists_windows, records_windows};
use crate::seqs::{lemma_filter_nonempty, lemma_filter_one_match};
use crate::text::{decimal, opt_view};

verus! {

broadcast use vstd::std_specs::hash::group_hash_axioms;

// ------------------------------------------------------------------ operations

/// The operation answers whether the window is pinned.
pub open spec fn says_pinned(p: Planned, b: bool) -> bool {
    p.reply matches Reply::Data(d) && field(d@, "pinned"@) == JsonView::Bool(b)
}

/// The operation is refused in these words.
pub open spec fn refused(p: Planned, words: Seq<char>) -> bool {
    p.reply matches Reply::Fail(e) && e.text() == words
}

/// The window floats and names its application.
pub open spec fn can_be_pinned(w: Window) -> bool {
    w.is_floating && (w.app_id matches Some(name) && name@.len() > 0)
}

/// A cached window that floats, names its application and is not pinned is
/// pinned by either operation, whatever else is known of it: the client is
/// told so, the pins grow by exactly this window, and they are written.
pub proof fn law_floating_window_is_pinned(id: u64, has_broker: bool)
    ensures
        forall|s: &mut Inner, subs: &mut ClientSubs, p: Planned| #[trigger]
            call_ensures(handle_op, (s, subs, has_broker, &Op::PinAdd { window_id: id }), p)
                && s.windows@.contains_key(id) && can_be_pinned(s.windows@[id])
                && !s.pinned_windows@.contains(id) ==> {
                &&& says_pinned(p, true)
                &&& final(s).pinned_windows@ == s.pinned_windows@.insert(id)
                &&& p.persist
            },
        forall|s: &mut Inner, subs: &mut ClientSubs, p: Planned| #[trigger]
            call_ensures(handle_op, (s, subs, has_broker, &Op::PinToggle { window_id: id }), p)
                && s.windows@.contains_key(id) && can_be_pinned(s.windows@[id])
                && !s.pinned_windows@.contains(id) ==> {
                &&& says_pinned(p, true)
                &&& final(s).pinned_windows@ == s.pinned_windows@.insert(id)
                &&& p.persist
            },
        forall|s: &mut Inner, r: PinOutcome| #[trigger]
            call_ensures(try_pin, (s, id), r) && s.windows@.contains_key(id) && can_be_pinned(
                s.windows@[id],
            ) && !s.pinned_windows@.contains(id) ==> {
                &&& r.result == Ok::<bool, OpError>(true)
                &&& r.mutated
                &&& final(s).pinned_windows@ == s.pinned_windows@.insert(id)
            },
        forall|s: &mut Inner, r: Result<bool, OpError>| #[trigger]
            call_ensures(toggle_pin, (s, id), r) && s.windows@.contains_key(id) && can_be_pinned(
                s.windows@[id],
            ) && !s.pinned_windows@.contains(id) ==> {
                &&& r == Ok::<bool, OpError>(true)
                &&& final(s).pinned_windows@ == s.pinned_windows@.insert(id)
            },
{
}

/// A window that is not cached, does not float or does not name its
/// application is not pinned: the client is told which it was, and nothing
/// changes.
pub proof fn law_other_windows_are_refused(id: u64, has_broker: bool, op: Op)
    requires
        op == (Op::PinAdd { window_id: id }) || op == (Op::PinToggle { window_id: id }),
    ensures
        forall|s: &mut Inner, subs: &mut ClientSubs, p: Planned| #[trigger]
            call_ensures(handle_op, (s, subs, has_broker, &op), p) && !s.pinned_windows@.contains(id) && !(s.windows@.contains_key(id) && can_be_pinned(
                s.windows@[id],
            )) ==> {
                &&& final(s).pinned_windows@ == s.pinned_windows@
                &&& !p.persist
                &&& !s.windows@.contains_key(id) ==> refused(
                    p,
                    "no window with id "@ + decimal(id as nat),
                )
                &&& s.windows@.contains_key(id) && !s.windows@[id].is_floating ==> refused(
                    p,
                    "only floating windows can be pinned; toggle floating first with Mod+V"@,
                )
                &&& s.windows@.contains_key(id) && s.windows@[id].is_floating ==> refused(
                    p,
                    "cannot pin window "@ + decimal(id as nat)
                        + ": it reports no app_id, so we couldn't restore the pin across bridge restarts"@,
                )
            },
{
}

/// Adding a pin that stands changes nothing and is answered as pinned; a pin
/// on a window that no longer floats is dropped instead, and written off.
pub proof fn law_standing_pins(id: u64, has_broker: bool)
    ensures
        forall|s: &mut Inner, subs: &mut ClientSubs, p: Planned| #[trigger]
            call_ensures(handle_op, (s, subs, has_broker, &Op::PinAdd { window_id: id }), p)
                && s.pinned_windows@.contains(id) ==> if s.windows@.contains_key(id)
                && s.windows@[id].is_floating {
                &&& says_pinned(p, true)
                &&& final(s).pinned_windows@ == s.pinned_windows@
                &&& !p.persist
            } else {
                &&& refused(
                    p,
                    "pin on "@ + decimal(id as nat) + " dropped: window is no longer floating"@,
                )
                &&& final(s).pinned_windows@ == s.pinned_windows@.remove(id)
                &&& p.persist
            },
{
}

/// A pin is taken off by toggling it or removing it, whatever is known of its
/// window; removing one that is not there changes nothing. Taking off all of
/// them leaves none and tells how many there were.
pub proof fn law_pins_are_taken_off(id: u64, has_broker: bool)
    ensures
        forall|s: &mut Inner, subs: &mut ClientSubs, p: Planned| #[trigger]
            call_ensures(handle_op, (s, subs, has_broker, &Op::PinToggle { window_id: id }), p)
                && s.pinned_windows@.contains(id) ==> says_pinned(p, false) && p.persist
                && !final(s).pinned_windows@.contains(id) && forall|other: u64|
                other != id ==> (#[trigger] final(s).pinned_windows@.contains(other)
                    <==> s.pinned_windows@.contains(other)),
        forall|s: &mut Inner, subs: &mut ClientSubs, p: Planned| #[trigger]
            call_ensures(handle_op, (s, subs, has_broker, &Op::PinRemove { window_id: id }), p)
                ==> says_pinned(p, false) && (p.persist <==> s.pinned_windows@.contains(id))
                && !final(s).pinned_windows@.contains(id) && forall|other: u64|
                other != id ==> (#[trigger] final(s).pinned_windows@.contains(other)
                    <==> s.pinned_windows@.contains(other)),
        forall|s: &mut Inner, subs: &mut ClientSubs, p: Planned| #[trigger]
            call_ensures(handle_op, (s, subs, has_broker, &Op::PinOff), p) ==> p.persist && (
            p.reply matches Reply::Data(d) && field(d@, "n_unpinned"@) == JsonView::Num(
                s.pinned_windows@.len() as int,
            )) && forall|other: u64| !(#[trigger] final(s).pinned_windows@.contains(other)),
{
}

/// The list of pinned windows holds the record of each pinned window that is
/// cached, and no other.
pub proof fn law_pinned_windows_are_listed(has_broker: bool)
    ensures
        forall|s: &mut Inner, subs: &mut ClientSubs, p: Planned| #[trigger]
            call_ensures(handle_op, (s, subs, has_broker, &Op::PinList), p) ==> {
                p.reply matches Reply::Data(d) && d@ matches JsonView::Arr(items)
                    && records_windows(items, s.windows@.restrict(s.pinned_windows@))
            },
{
    assert forall|s: &mut Inner, subs: &mut ClientSubs, p: Planned| #[trigger]
        call_ensures(handle_op, (s, subs, has_broker, &Op::PinList), p) implies {
        p.reply matches Reply::Data(d) && d@ matches JsonView::Arr(items) && records_windows(
            items,
            s.windows@.restrict(s.pinned_windows@),
        )
    } by {
        let live = s.windows@.restrict(s.pinned_windows@);
        let v = choose|v: Seq<Window>| #[trigger]
            lists_windows(v, live) && answers(p, windows_view(v));
        lemma_lists_windows(v, live);
    }
}

/// A window that can be pinned, pinned and unpinned by two toggles, leaves
/// the pins as they were; between them it is pinned.
pub proof fn law_two_toggles_cancel_out(id: u64, has_broker: bool)
    ensures
        forall|a: &mut Inner, sa: &mut ClientSubs, p: Planned, b: &mut Inner, sb: &mut ClientSubs, q: Planned|
            #[trigger] call_ensures(
                handle_op,
                (a, sa, has_broker, &Op::PinToggle { window_id: id }),
                p,
            ) && #[trigger] call_ensures(
                handle_op,
                (b, sb, has_broker, &Op::PinToggle { window_id: id }),
                q,
            ) && *b == *final(a) && a.windows@.contains_key(id) && can_be_pinned(a.windows@[id])
                ==> {
                &&& final(b).pinned_windows@ == a.pinned_windows@
                &&& b.pinned_windows@.contains(id) <==> !a.pinned_windows@.contains(id)
            },
{
    assert forall|a: &mut Inner, sa: &mut ClientSubs, p: Planned, b: &mut Inner, sb: &mut ClientSubs, q: Planned|
        #[trigger] call_ensures(
            handle_op,
            (a, sa, has_broker, &Op::PinToggle { window_id: id }),
            p,
        ) && #[trigger] call_ensures(
            handle_op,
            (b, sb, has_broker, &Op::PinToggle { window_id: id }),
            q,
        ) && *b == *final(a) && a.windows@.contains_key(id) && can_be_pinned(a.windows@[id]) implies {
        &&& final(b).pinned_windows@ == a.pinned_windows@
        &&& b.pinned_windows@.contains(id) <==> !a.pinned_windows@.contains(id)
    } by {
        assert(final(b).pinned_windows@ =~= a.pinned_windows@);
    }
}

// ----------------------------------------------------------------- on disk

/// A floating window of an application.
pub open spec fn floats_for(w: Window, app: Seq<char>) -> bool {
    w.is_floating && (w.app_id matches Some(a) && a@ == app)
}

/// A window with a title.
pub open spec fn titled(w: Window, title: Seq<char>) -> bool {
    w.title matches Some(t) && t@ == title
}

proof fn lemma_filter_two<A>(s: Seq<A>, p: spec_fn(A) -> bool, a: int, b: int)
    requires
        0 <= a < b < s.len(),
        p(s[a]),
        p(s[b]),
    ensures
        s.filter(p).len() >= 2,
    decreases s.len(),
{
    reveal(Seq::filter);
    if b == s.len() - 1 {
        lemma_filter_nonempty(s.drop_last(), p, a);
    } else {
        lemma_filter_two(s.drop_last(), p, a, b);
    }
}

/// A pin names the only floating window of its application, whatever the
/// titles are.
pub proof fn law_only_window_of_an_application_is_named(
    p: PersistedPin,
    windows: &[Window],
    r: Option<u64>,
    k: int,
)
    requires
        call_ensures(resolve_pin, (&p, windows), r),
        0 <= k < windows@.len(),
        floats_for(windows@[k], p.app_id@),
        forall|j: int|
            0 <= j < windows@.len() && j != k ==> !floats_for(#[trigger] windows@[j], p.app_id@),
    ensures
        r == Some(windows@[k].id),
{
    lemma_filter_one_match(windows@, |w: Window| same_app(p, w), k);
}

/// Among several, a pin names the only one with its title.
pub proof fn law_title_tells_windows_apart(
    p: PersistedPin,
    windows: &[Window],
    r: Option<u64>,
    k: int,
)
    requires
        call_ensures(resolve_pin, (&p, windows), r),
        0 <= k < windows@.len(),
        floats_for(windows@[k], p.app_id@) && titled(windows@[k], p.title@),
        forall|j: int|
            0 <= j < windows@.len() && j != k ==> !(floats_for(#[trigger] windows@[j], p.app_id@)
                && titled(windows@[j], p.title@)),
    ensures
        r == Some(windows@[k].id),
{
    let app = |w: Window| same_app(p, w);
    let both = |w: Window| same_app_and_title(p, w);
    lemma_filter_one_match(windows@, both, k);
    lemma_filter_nonempty(windows@, app, k);
    if windows@.filter(app).len() == 1 {
        windows@.lemma_filter_contains(app, k);
        assert(windows@.filter(app).contains(windows@[k]));
    }
}

/// A pin of which the application has no floating window names none.
pub proof fn law_gone_application_is_not_named(
    p: PersistedPin,
    windows: &[Window],
    r: Option<u64>,
)
    requires
        call_ensures(resolve_pin, (&p, windows), r),
        forall|j: int| 0 <= j < windows@.len() ==> !floats_for(#[trigger] windows@[j], p.app_id@),
    ensures
        r is None,
{
    law_restored_window_floats(p, windows@);
}

/// A pin that several windows could be meant by names none: several float for
/// its application, and none or several of them have its title.
pub proof fn law_ambiguous_pin_names_no_window(
    p: PersistedPin,
    windows: &[Window],
    r: Option<u64>,
    a: int,
    b: int,
)
    requires
        call_ensures(resolve_pin, (&p, windows), r),
        0 <= a < b < windows@.len(),
        floats_for(windows@[a], p.app_id@),
        floats_for(windows@[b], p.app_id@),
        titled(windows@[a], p.title@) == titled(windows@[b], p.title@),
        !titled(windows@[a], p.title@) ==> forall|j: int|
            0 <= j < windows@.len() ==> !(floats_for(#[trigger] windows@[j], p.app_id@) && titled(
                windows@[j],
                p.title@,
            )),
    ensures
        r is None,
{
    let app = |w: Window| same_app(p, w);
    let both = |w: Window| same_app_and_title(p, w);
    lemma_filter_two(windows@, app, a, b);
    if titled(windows@[a], p.title@) {
        lemma_filter_two(windows@, both, a, b);
    } else if windows@.filter(both).len() > 0 {
        let w = windows@.filter(both)[0];
        windows@.lemma_filter_pred(both, 0);
        windows@.lemma_filter_contains_rev(both, w);
        let j = choose|j: int| 0 <= j < windows@.len() && windows@[j] == w;
        assert(!(floats_for(windows@[j], p.app_id@) && titled(windows@[j], p.title@)));
    }
}

/// A text that a window reports, or the empty one.
pub open spec fn text_or_nothing(o: Option<String>) -> Seq<char> {
    match o {
        Some(s) => s@,
        None => Seq::empty(),
    }
}

/// An entry is what is kept of some window of a map.
pub open spec fn kept_of(p: PersistedPin, m: Map<u64, Window>) -> bool {
    exists|id: u64| #[trigger]
        m.contains_key(id) && p.app_id@ == text_or_nothing(m[id].app_id) && p.title@
            == text_or_nothing(m[id].title)
}

/// The application and the title of each pinned window that is cached are
/// written, once for each, and nothing else.
pub proof fn law_pins_are_written(s: Inner, r: PinFile)
    requires
        call_ensures(to_file, (&s,), r),
    ensures
        r.version == 1,
        r.pinned@.len() == s.windows@.restrict(s.pinned_windows@).dom().len(),
        forall|id: u64| #[trigger]
            s.pinned_windows@.contains(id) && s.windows@.contains_key(id) ==> exists|i: int|
                0 <= i < r.pinned@.len() && (#[trigger] r.pinned@[i]).app_id@ == text_or_nothing(
                    s.windows@[id].app_id,
                ) && r.pinned@[i].title@ == text_or_nothing(s.windows@[id].title),
        forall|i: int|
            0 <= i < r.pinned@.len() ==> kept_of(
                #[trigger] r.pinned@[i],
                s.windows@.restrict(s.pinned_windows@),
            ),
{
    let live = s.windows@.restrict(s.pinned_windows@);
    let v = choose|v: Seq<Window>| #[trigger]
        lists_windows(v, live) && r.pinned@.len() == v.len() && forall|i: int|
            0 <= i < v.len() ==> crate::bridge::pinned::is_pin_of(#[trigger] r.pinned@[i], v[i]);
    let ids = choose|ids: Seq<u64>| #[trigger]
        enumerates(ids, live.dom()) && v == ids.map_values(|id: u64| live[id]);
    ids.unique_seq_to_set();
    assert forall|id: u64| #[trigger]
        s.pinned_windows@.contains(id) && s.windows@.contains_key(id) implies exists|i: int|
        0 <= i < r.pinned@.len() && (#[trigger] r.pinned@[i]).app_id@ == text_or_nothing(
            s.windows@[id].app_id,
        ) && r.pinned@[i].title@ == text_or_nothing(s.windows@[id].title) by {
        assert(live.dom().contains(id));
        assert(ids.to_set().contains(id));
        let i = choose|i: int| 0 <= i < ids.len() && ids[i] == id;
        assert(crate::bridge::pinned::is_pin_of(r.pinned@[i], v[i]));
        assert(v[i] == s.windows@[id]);
    }
    assert forall|i: int| 0 <= i < r.pinned@.len() implies kept_of(
        #[trigger] r.pinned@[i],
        live,
    ) by {
        assert(ids.to_set().contains(ids[i]));
        assert(crate::bridge::pinned::is_pin_of(r.pinned@[i], v[i]));
        assert(v[i] == live[ids[i]]);
        assert(live.contains_key(ids[i]));
    }
}

/// The other windows of a map that float for the application of one of them.
pub open spec fn stands_alone(m: Map<u64, Window>, id: u64) -> bool {
    ||| forall|j: u64| #[trigger]
        m.contains_key(j) && j != id ==> !floats_for(m[j], text_or_nothing(m[id].app_id))
    ||| m[id].title is Some && forall|j: u64| #[trigger]
        m.contains_key(j) && j != id ==> !(floats_for(m[j], text_or_nothing(m[id].app_id))
            && titled(m[j], text_or_nothing(m[id].title)))
}

/// The pins that were written come back after a restart: a pinned window that
/// floats, names its application and cannot be mistaken for another is pinned
/// again, and only floating windows are pinned, each of an application of
/// which a pin was written.
pub proof fn law_pins_survive_a_restart(s: Inner, file: PinFile, id: u64)
    requires
        call_ensures(to_file, (&s,), file),
        s.wf(),
    ensures
        forall|b: &mut Inner, r: Option<PinFile>| #[trigger]
            call_ensures(restore_on_startup, (b, &file), r) && b.windows@ == s.windows@
                && s.pinned_windows@.contains(id) && s.windows@.contains_key(id)
                && s.windows@[id].is_floating && s.windows@[id].app_id is Some && stands_alone(
                s.windows@,
                id,
            ) ==> final(b).pinned_windows@.contains(id) && final(b).windows@ == b.windows@,
        forall|b: &mut Inner, r: Option<PinFile>| #[trigger]
            call_ensures(restore_on_startup, (b, &file), r) && b.windows@ == s.windows@
                && !b.pinned_windows@.contains(id) && final(b).pinned_windows@.contains(id) ==> {
                &&& s.windows@.contains_key(id)
                &&& exists|k: int|
                    0 <= k < file.pinned@.len() && floats_for(
                        s.windows@[id],
                        (#[trigger] file.pinned@[k]).app_id@,
                    )
            },
{
    law_pins_are_written(s, file);
    assert forall|b: &mut Inner, r: Option<PinFile>| #[trigger]
        call_ensures(restore_on_startup, (b, &file), r) && b.windows@ == s.windows@
            && s.pinned_windows@.contains(id) && s.windows@.contains_key(id)
            && s.windows@[id].is_floating && s.windows@[id].app_id is Some && stands_alone(
            s.windows@,
            id,
        ) implies final(b).pinned_windows@.contains(id) by {
        let i = choose|i: int|
            0 <= i < file.pinned@.len() && (#[trigger] file.pinned@[i]).app_id@ == text_or_nothing(
                s.windows@[id].app_id,
            ) && file.pinned@[i].title@ == text_or_nothing(s.windows@[id].title);
        let live = choose|live: Seq<Window>| #[trigger]
            lists_windows(live, b.windows@) && final(b).pinned_windows@ == named_ids(
                file.pinned@,
                live,
            );
        lemma_named_alone(file.pinned@[i], s.windows@, live, id);
        assert(named_window(file.pinned@[i], live) == Some(id));
    }
    assert forall|b: &mut Inner, r: Option<PinFile>| #[trigger]
        call_ensures(restore_on_startup, (b, &file), r) && b.windows@ == s.windows@
            && !b.pinned_windows@.contains(id) && final(b).pinned_windows@.contains(id) implies {
        &&& s.windows@.contains_key(id)
        &&& exists|k: int|
            0 <= k < file.pinned@.len() && floats_for(
                s.windows@[id],
                (#[trigger] file.pinned@[k]).app_id@,
            )
    } by {
        let live = choose|live: Seq<Window>| #[trigger]
            lists_windows(live, b.windows@) && final(b).pinned_windows@ == named_ids(
                file.pinned@,
                live,
            );
        let k = choose|k: int|
            0 <= k < file.pinned@.len() && named_window(#[trigger] file.pinned@[k], live) == Some(id);
        law_restored_window_floats(file.pinned@[k], live);
        let i = choose|i: int|
            0 <= i < live.len() && (#[trigger] live[i]).id == id && same_app(
                file.pinned@[k],
                live[i],
            );
        let ids = choose|ids: Seq<u64>| #[trigger]
            enumerates(ids, s.windows@.dom()) && live == ids.map_values(|id: u64| s.windows@[id]);
        assert(ids.to_set().contains(ids[i]));
        assert(s.windows@.contains_key(ids[i]));
        assert(floats_for(s.windows@[id], file.pinned@[k].app_id@));
    }
}

proof fn lemma_named_alone(p: PersistedPin, m: Map<u64, Window>, live: Seq<Window>, id: u64)
    requires
        lists_windows(live, m),
        forall|j: u64| #[trigger] m.contains_key(j) ==> m[j].id == j,
        m.contains_key(id),
        m[id].is_floating,
        m[id].app_id is Some,
        p.app_id@ == text_or_nothing(m[id].app_id),
        p.title@ == text_or_nothing(m[id].title),
        stands_alone(m, id),
    ensures
        named_window(p, live) == Some(id),
{
    let ids = choose|ids: Seq<u64>| #[trigger]
        enumerates(ids, m.dom()) && live == ids.map_values(|id: u64| m[id]);
    assert(ids.to_set().contains(id));
    let k = choose|k: int| 0 <= k < ids.len() && ids[k] == id;
    assert forall|j: int| 0 <= j < live.len() && j != k implies {
        &&& m.contains_key(ids[j])
        &&& ids[j] != id
        &&& #[trigger] live[j] == m[ids[j]]
    } by {
        assert(ids.to_set().contains(ids[j]));
    }
    crate::bridge::pinned::law_written_pin_finds_its_window(p, live, k);
}

// ---------------------------------------------------------------- given up

/// A window that is reported as tiled loses its pin where the cache does not
/// have it floating; no other pin is touched, and nothing else takes one off.
pub proof fn law_tiled_window_loses_its_pin(ev: Event, id: u64, floating: bool)
    requires
        has_field(ev.data@, "opened_or_changed"@),
        field(field(ev.data@, "opened_or_changed"@), "id"@) == JsonView::Num(id as int),
        field(field(ev.data@, "opened_or_changed"@), "is_floating"@) == JsonView::Bool(floating),
    ensures
        forall|s: &mut Inner, r: Option<String>| #[trigger]
            call_ensures(auto_unpin, (s, &ev), r) ==> {
                let drops = ev.event@ == "windows"@ && !floating && s.pinned_windows@.contains(id)
                    && !(s.windows@.contains_key(id) && s.windows@[id].is_floating);
                &&& r is Some <==> drops
                &&& drops ==> final(s).pinned_windows@ == s.pinned_windows@.remove(id)
                &&& drops ==> (field(field(ev.data@, "opened_or_changed"@), "app_id"@) matches
                    JsonView::Str(a) ==> opt_view(r) == Some(a))
                &&& drops && !(field(field(ev.data@, "opened_or_changed"@), "app_id"@) is Str)
                    ==> opt_view(r) == Some("?"@)
                &&& !drops ==> final(s).pinned_windows@ == s.pinned_windows@
                &&& final(s).windows@ == s.windows@
            },
{
}

/// Events that do not report a window as tiled take off no pin.
pub proof fn law_other_events_keep_the_pins(ev: Event)
    requires
        ev.event@ != "windows"@ || !has_field(ev.data@, "opened_or_changed"@) || field(
            field(ev.data@, "opened_or_changed"@),
            "is_floating"@,
        ) != JsonView::Bool(false) || !(field(field(ev.data@, "opened_or_changed"@), "id"@) is Num),
    ensures
        forall|s: &mut Inner, r: Option<String>| #[trigger]
            call_ensures(auto_unpin, (s, &ev), r) ==> r is None && final(s).pinned_windows@
                == s.pinned_windows@,
{
}

/// The application that a cached window names, or a question mark.
pub open spec fn app_or_mark(m: Map<u64, Window>, id: u64) -> Seq<char> {
    if m.contains_key(id) {
        match m[id].app_id {
            Some(a) => a@,
            None => "?"@,
        }
    } else {
        "?"@
    }
}

/// After events may have been missed, exactly the pins on cached floating
/// windows stand; for each that does not, its application is told.
pub proof fn law_only_floating_pins_stand(id: u64)
    ensures
        forall|s: &mut Inner, r: Vec<String>| #[trigger]
            call_ensures(resync_after_lag, (s,), r) ==> {
                &&& final(s).pinned_windows@.contains(id) <==> s.pinned_windows@.contains(id)
                    && s.windows@.contains_key(id) && s.windows@[id].is_floating
                &&& final(s).windows@ == s.windows@
            },
        forall|s: &mut Inner, r: Vec<String>| #[trigger]
            call_ensures(resync_after_lag, (s,), r) ==> {
                let dropped = s.pinned_windows@.difference(final(s).pinned_windows@);
                &&& r@.len() == dropped.len()
                &&& dropped.contains(id) ==> exists|i: int|
                    0 <= i < r@.len() && (#[trigger] r@[i])@ == app_or_mark(s.windows@, id)
            },
{
    assert forall|s: &mut Inner, r: Vec<String>| #[trigger]
        call_ensures(resync_after_lag, (s,), r) implies {
        let dropped = s.pinned_windows@.difference(final(s).pinned_windows@);
        &&& r@.len() == dropped.len()
        &&& dropped.contains(id) ==> exists|i: int|
            0 <= i < r@.len() && (#[trigger] r@[i])@ == app_or_mark(s.windows@, id)
    } by {
        let stale = stale_pins(*s);
        let ids = choose|ids: Seq<u64>| #[trigger]
            enumerates(ids, stale) && r@.len() == ids.len() && forall|i: int|
                0 <= i < ids.len() ==> (#[trigger] r@[i])@
                    == crate::bridge::pinned::dropped_app(s.windows@, ids[i]);
        let dropped = s.pinned_windows@.difference(final(s).pinned_windows@);
        assert(dropped =~= stale);
        ids.unique_seq_to_set();
        if dropped.contains(id) {
            assert(ids.to_set().contains(id));
            let i = choose|i: int| 0 <= i < ids.len() && ids[i] == id;
            assert(r@[i]@ == app_or_mark(s.windows@, id));
        }
    }
}

// ------------------------------------------------------------------- taken over

/// At startup a pin that names a window is kept and the window is pinned; one
/// of which the application has no floating window is given up; and nothing
/// else is kept or pinned.
pub proof fn law_pins_are_taken_over(
    pins: Vec<PersistedPin>,
    live: Vec<Window>,
    windows: &[Window],
    k: int,
    id: Option<u64>,
    r: Restored,
)
    requires
        call_ensures(restore, (&pins, &live), r),
        windows@ == live@,
        0 <= k < pins@.len(),
        call_ensures(resolve_pin, (&pins@[k], windows), id),
    ensures
        id matches Some(n) ==> r.ids@.contains(n) && r.kept@.contains(pins@[k]),
        id is None ==> !r.kept@.contains(pins@[k]),
        forall|i: int| 0 <= i < r.kept@.len() ==> pins@.contains(#[trigger] r.kept@[i]),
        forall|n: u64| #[trigger]
            r.ids@.contains(n) ==> exists|i: int|
                0 <= i < live@.len() && (#[trigger] live@[i]).id == n && live@[i].is_floating,
{
    let found = |p: PersistedPin| named_window(p, live@) is Some;
    if id is Some {
        pins@.lemma_filter_contains(found, k);
    } else if r.kept@.contains(pins@[k]) {
        let i = choose|i: int| 0 <= i < r.kept@.len() && r.kept@[i] == pins@[k];
        pins@.lemma_filter_pred(found, i);
    }
    assert forall|i: int| 0 <= i < r.kept@.len() implies pins@.contains(#[trigger] r.kept@[i]) by {
        assert(r.kept@.contains(r.kept@[i]));
        pins@.lemma_filter_contains_rev(found, r.kept@[i]);
    }
    assert forall|n: u64| #[trigger] r.ids@.contains(n) implies exists|i: int|
        0 <= i < live@.len() && (#[trigger] live@[i]).id == n && live@[i].is_floating by {
        let j = choose|j: int|
            0 <= j < pins@.len() && named_window(#[trigger] pins@[j], live@) == Some(n);
        law_restored_window_floats(pins@[j], live@);
    }
}

/// What is written back at startup holds only pins that were on disk, in the
/// same format; without any pin nothing is written and nothing changes.
pub proof fn law_startup_writes_back_what_stands(file: PinFile)
    ensures
        forall|s: &mut Inner, r: Option<PinFile>| #[trigger]
            call_ensures(restore_on_startup, (s, &file), r) ==> {
                &&& r is None <==> file.pinned@.len() == 0
                &&& r is None ==> final(s).pinned_windows@ == s.pinned_windows@
                &&& r matches Some(kept) ==> kept.version == 1 && forall|i: int|
                    0 <= i < kept.pinned@.len() ==> file.pinned@.contains(#[trigger] kept.pinned@[i])
                &&& final(s).windows@ == s.windows@
            },
{
    assert forall|s: &mut Inner, r: Option<PinFile>| #[trigger]
        call_ensures(restore_on_startup, (s, &file), r) && r is Some implies forall|i: int|
        0 <= i < r->0.pinned@.len() ==> file.pinned@.contains(#[trigger] r->0.pinned@[i]) by {
        let live = choose|live: Seq<Window>| #[trigger]
            lists_windows(live, s.windows@) && r->0.pinned@ == file.pinned@.filter(
                |p: PersistedPin| named_window(p, live) is Some,
            );
        let found = |p: PersistedPin| named_window(p, live) is Some;
        let kept = r->0.pinned@;
        assert forall|i: int| 0 <= i < kept.len() implies file.pinned@.contains(
            #[trigger] kept[i],
        ) by {
            assert(kept.contains(kept[i]));
            file.pinned@.lemma_filter_contains_rev(found, kept[i]);
        }
    }
}

/// A file that could not be read counts as one without pins.
pub proof fn law_unread_file_has_no_pins(read: Option<PinFile>, r: PinFile)
    requires
        call_ensures(read_or_default, (read,), r),
    ensures
        read matches Some(f) ==> r == f,
        read is None ==> r.version == 1 && r.pinned@.len() == 0,
{
}

} // verus!
