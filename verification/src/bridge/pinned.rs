//! The pins on disk: which windows they name, and when they are given up.
//!
//! Only floating windows can be pinned. A pin is kept across restarts as the
//! application id and the title of its window.

use std::collections::HashSet;

use vstd::prelude::*;
use vstd::string::*;

use crate::bridge::niri_conn::opened_view;
use crate::bridge::proto::{lemma_window_fields, topics, window_view, Event, Window};
use crate::bridge::server::{pinned_records, same_cache};
use crate::bridge::state::{enumerates, lists_windows, members_of, windows_of, Inner};
use crate::json::{as_id, as_text, field, has_field, JsonView};
use crate::seqs::{lemma_filter_nonempty, lemma_filter_none, lemma_filter_one_match, lemma_filter_take};
use crate::text::{opt_is, opt_view, str_eq};

verus! {

broadcast use vstd::std_specs::hash::group_hash_axioms;

/// A pin on disk.
#[derive(Debug)]
pub struct PersistedPin {
    pub app_id: String,
    pub title: String,
}

impl Clone for PersistedPin {
    fn clone(&self) -> (r: Self)
        ensures
            r == *self,
    {
        PersistedPin { app_id: self.app_id.clone(), title: self.title.clone() }
    }
}

/// The pins on disk, with the version of their format.
#[derive(Debug)]
pub struct PinFile {
    pub version: u8,
    pub pinned: Vec<PersistedPin>,
}

impl Default for PinFile {
    fn default() -> (r: Self)
        ensures
            r.version == 1,
            r.pinned@.len() == 0,
    {
        PinFile { version: 1, pinned: Vec::new() }
    }
}

/// The window floats and belongs to the pin's application.
pub open spec fn same_app(p: PersistedPin, w: Window) -> bool {
    w.is_floating && opt_view(w.app_id) == Some(p.app_id@)
}

/// The window floats, belongs to the pin's application and has its title.
pub open spec fn same_app_and_title(p: PersistedPin, w: Window) -> bool {
    same_app(p, w) && opt_view(w.title) == Some(p.title@)
}

/// The window that a pin names: the only floating one of its application, or
/// among several the only one with its title.
pub open spec fn named_window(p: PersistedPin, windows: Seq<Window>) -> Option<u64> {
    let by_app = windows.filter(|w: Window| same_app(p, w));
    let by_title = windows.filter(|w: Window| same_app_and_title(p, w));
    if by_app.len() == 1 {
        Some(by_app[0].id)
    } else if by_app.len() > 1 && by_title.len() == 1 {
        Some(by_title[0].id)
    } else {
        None
    }
}

/// The window that a pin names, if it names one.
pub fn resolve_pin(p: &PersistedPin, windows: &[Window]) -> (r: Option<u64>)
    ensures
        r == named_window(*p, windows@),
{
    let ghost app = |w: Window| same_app(*p, w);
    let ghost app_title = |w: Window| same_app_and_title(*p, w);
    let mut by_app: Vec<u64> = Vec::new();
    let mut by_title: Vec<u64> = Vec::new();
    let mut i: usize = 0;
    proof {
        lemma_filter_none(windows@, app);
        lemma_filter_none(windows@, app_title);
    }
    while i < windows.len()
        invariant
            i <= windows@.len(),
            app == (|w: Window| same_app(*p, w)),
            app_title == (|w: Window| same_app_and_title(*p, w)),
            by_app@ == windows@.take(i as int).filter(app).map_values(|w: Window| w.id),
            by_title@ == windows@.take(i as int).filter(app_title).map_values(|w: Window| w.id),
        decreases windows@.len() - i,
    {
        let w = &windows[i];
        proof {
            lemma_filter_take(windows@, app, i as int);
            lemma_filter_take(windows@, app_title, i as int);
        }
        if w.is_floating && opt_is(&w.app_id, p.app_id.as_str()) {
            by_app.push(w.id);
            if opt_is(&w.title, p.title.as_str()) {
                by_title.push(w.id);
            }
        }
        i += 1;
    }
    if by_app.len() == 1 {
        Some(by_app[0])
    } else if by_app.len() > 1 && by_title.len() == 1 {
        Some(by_title[0])
    } else {
        None
    }
}

/// The ids that a list of pins names.
pub open spec fn named_ids(pins: Seq<PersistedPin>, windows: Seq<Window>) -> Set<u64> {
    Set::new(
        |id: u64|
            exists|i: int|
                0 <= i < pins.len() && named_window(#[trigger] pins[i], windows) == Some(id),
    )
}

/// What a list of pins comes to at startup: the windows that are pinned, and
/// the entries that are kept on disk.
pub struct Restored {
    pub ids: HashSet<u64>,
    pub kept: Vec<PersistedPin>,
}

/// Resolves each pin against the live windows. A pin that names no window is
/// dropped.
pub fn restore(pins: &Vec<PersistedPin>, live: &Vec<Window>) -> (r: Restored)
    ensures
        r.ids@ == named_ids(pins@, live@),
        r.kept@ == pins@.filter(|p: PersistedPin| named_window(p, live@) is Some),
{
    let ghost found = |p: PersistedPin| named_window(p, live@) is Some;
    let mut ids: HashSet<u64> = HashSet::new();
    let mut kept: Vec<PersistedPin> = Vec::new();
    let mut i: usize = 0;
    proof {
        lemma_filter_none(pins@, found);
        assert(ids@ =~= named_ids(pins@.take(0), live@));
    }
    while i < pins.len()
        invariant
            i <= pins@.len(),
            found == (|p: PersistedPin| named_window(p, live@) is Some),
            ids@ == named_ids(pins@.take(i as int), live@),
            kept@ == pins@.take(i as int).filter(found),
        decreases pins@.len() - i,
    {
        proof {
            lemma_filter_take(pins@, found, i as int);
        }
        let ghost before = ids@;
        match resolve_pin(&pins[i], live.as_slice()) {
            Some(id) => {
                ids.insert(id);
                kept.push(pins[i].clone());
            },
            None => {},
        }
        i += 1;
        proof {
            let more = pins@.take(i as int);
            let fewer = pins@.take(i - 1);
            assert forall|id: u64| #[trigger]
                ids@.contains(id) == named_ids(more, live@).contains(id) by {
                if before.contains(id) {
                    let k = choose|k: int|
                        0 <= k < fewer.len() && named_window(#[trigger] fewer[k], live@) == Some(id);
                    assert(more[k] == fewer[k]);
                }
                assert(more[i - 1] == pins@[i - 1]);
                if named_ids(more, live@).contains(id) {
                    let k = choose|k: int|
                        0 <= k < more.len() && named_window(#[trigger] more[k], live@) == Some(id);
                    if k < i - 1 {
                        assert(fewer[k] == more[k]);
                    }
                }
            }
            assert(ids@ =~= named_ids(more, live@));
        }
    }
    assert(pins@.take(pins@.len() as int) =~= pins@);
    Restored { ids, kept }
}

/// Takes the pins on disk over at startup. The result is what is written
/// back; where there was no pin, nothing changes and nothing is written.
pub fn restore_on_startup(s: &mut Inner, file: &PinFile) -> (r: Option<PinFile>)
    ensures
        same_cache(*old(s), *final(s)),
        file.pinned@.len() == 0 ==> r is None && final(s).pinned_windows@ == old(
            s,
        ).pinned_windows@,
        file.pinned@.len() > 0 ==> exists|live: Seq<Window>| #[trigger]
            lists_windows(live, old(s).windows@) && final(s).pinned_windows@ == named_ids(
                file.pinned@,
                live,
            ) && (r matches Some(kept) && kept.version == 1 && kept.pinned@ == file.pinned@.filter(
                |p: PersistedPin| named_window(p, live) is Some,
            )),
{
    if file.pinned.len() == 0 {
        return None;
    }
    let live = windows_of(&s.windows);
    let restored = restore(&file.pinned, &live);
    s.pinned_windows = restored.ids;
    assert(lists_windows(live@, old(s).windows@));
    Some(PinFile { version: 1, pinned: restored.kept })
}

/// The pins that were read; none where there was no file, or one that could
/// not be read.
pub fn read_or_default(read: Option<PinFile>) -> (r: PinFile)
    ensures
        match read {
            Some(f) => r == f,
            None => r.version == 1 && r.pinned@.len() == 0,
        },
{
    match read {
        Some(f) => f,
        None => PinFile::default(),
    }
}

/// The application id and the title under which a window is kept; what the
/// window does not report is kept empty.
pub open spec fn pin_text(o: Option<Seq<char>>) -> Seq<char> {
    match o {
        Some(s) => s,
        None => Seq::empty(),
    }
}

/// The pin is the one that is kept for the window.
pub open spec fn is_pin_of(p: PersistedPin, w: Window) -> bool {
    p.app_id@ == pin_text(opt_view(w.app_id)) && p.title@ == pin_text(opt_view(w.title))
}

fn text_or_empty(o: &Option<String>) -> (r: String)
    ensures
        r@ == pin_text(opt_view(*o)),
{
    match o {
        Some(s) => s.clone(),
        None => {
            let r = String::new();
            assert(r@ =~= Seq::empty());
            r
        },
    }
}

/// What is written to disk: one entry for each pinned window that is still
/// cached, in no particular order.
pub fn to_file(s: &Inner) -> (r: PinFile)
    ensures
        r.version == 1,
        exists|v: Seq<Window>| #[trigger]
            lists_windows(v, s.windows@.restrict(s.pinned_windows@)) && r.pinned@.len() == v.len()
                && forall|i: int| 0 <= i < v.len() ==> is_pin_of(#[trigger] r.pinned@[i], v[i]),
{
    let records = pinned_records(s);
    let mut pinned: Vec<PersistedPin> = Vec::new();
    let mut i: usize = 0;
    while i < records.len()
        invariant
            i <= records@.len(),
            pinned@.len() == i,
            forall|k: int| 0 <= k < i ==> is_pin_of(#[trigger] pinned@[k], records@[k]),
        decreases records@.len() - i,
    {
        pinned.push(
            PersistedPin {
                app_id: text_or_empty(&records[i].app_id),
                title: text_or_empty(&records[i].title),
            },
        );
        i += 1;
    }
    PinFile { version: 1, pinned }
}

/// The window that an event reports as tiled, if it reports one.
pub open spec fn tiled_window(topic: Seq<char>, data: JsonView) -> Option<u64> {
    let payload = field(data, "opened_or_changed"@);
    if topic == topics::WINDOWS@ && has_field(data, "opened_or_changed"@) && field(
        payload,
        "is_floating"@,
    ) == JsonView::Bool(false) {
        as_id(field(payload, "id"@))
    } else {
        None
    }
}

/// The application that an event names, or a question mark.
pub open spec fn reported_app(data: JsonView) -> Seq<char> {
    match as_text(field(field(data, "opened_or_changed"@), "app_id"@)) {
        Some(s) => s,
        None => "?"@,
    }
}

/// Gives up the pin on a window that was reported as tiled, where the cache
/// agrees: a later report may have it floating again. The result is the
/// application's id where a pin was given up.
pub fn auto_unpin(s: &mut Inner, ev: &Event) -> (r: Option<String>)
    ensures
        same_cache(*old(s), *final(s)),
        match tiled_window(ev.event@, ev.data@) {
            Some(id) => if old(s).pinned_windows@.contains(id) && !old(s).floats(id) {
                &&& final(s).pinned_windows@ == old(s).pinned_windows@.remove(id)
                &&& opt_view(r) == Some(reported_app(ev.data@))
            } else {
                r is None && final(s).pinned_windows@ == old(s).pinned_windows@
            },
            None => r is None && final(s).pinned_windows@ == old(s).pinned_windows@,
        },
{
    if !str_eq(ev.event.as_str(), topics::WINDOWS) {
        return None;
    }
    match ev.data.get("opened_or_changed") {
        None => None,
        Some(payload) => {
            let id = match payload.get("id") {
                Some(v) => v.as_u64(),
                None => None,
            };
            let is_floating = match payload.get("is_floating") {
                Some(v) => match v.as_bool() {
                    Some(b) => b,
                    None => true,
                },
                None => true,
            };
            match id {
                None => None,
                Some(id) => {
                    if is_floating {
                        return None;
                    }
                    let live_tiled = match s.windows.get(&id) {
                        Some(w) => !w.is_floating,
                        None => true,
                    };
                    if !live_tiled || !s.pinned_windows.contains(&id) {
                        return None;
                    }
                    s.pinned_windows.remove(&id);
                    assert(s.pinned_windows@ =~= old(s).pinned_windows@.remove(id));
                    let app = match payload.get("app_id") {
                        Some(v) => v.as_str(),
                        None => None,
                    };
                    match app {
                        Some(a) => Some(a.to_owned()),
                        None => Some("?".to_owned()),
                    }
                },
            }
        },
    }
}

/// The application of a window that lost its pin, or a question mark.
pub open spec fn dropped_app(windows: Map<u64, Window>, id: u64) -> Seq<char> {
    if windows.contains_key(id) {
        match opt_view(windows[id].app_id) {
            Some(s) => s,
            None => "?"@,
        }
    } else {
        "?"@
    }
}

/// The pins that are given up: those on windows that no longer float.
pub open spec fn stale_pins(s: Inner) -> Set<u64> {
    s.pinned_windows@.filter(|id: u64| !s.floats(id))
}

/// Gives up every pin on a window that no longer floats: events may have been
/// missed. The result names the application of each, in no particular order.
pub fn resync_after_lag(s: &mut Inner) -> (r: Vec<String>)
    ensures
        same_cache(*old(s), *final(s)),
        final(s).pinned_windows@ == old(s).pinned_windows@.difference(stale_pins(*old(s))),
        exists|ids: Seq<u64>| #[trigger]
            enumerates(ids, stale_pins(*old(s))) && r@.len() == ids.len() && forall|i: int|
                0 <= i < ids.len() ==> (#[trigger] r@[i])@ == dropped_app(old(s).windows@, ids[i]),
{
    let ids = members_of(&s.pinned_windows);
    let ghost stale = |id: u64| !old(s).floats(id);
    let ghost mut dropped: Seq<u64> = Seq::empty();
    let mut names: Vec<String> = Vec::new();
    let mut i: usize = 0;
    proof {
        lemma_filter_none(ids@, stale);
        assert(s.pinned_windows@ =~= old(s).pinned_windows@.difference(dropped.to_set()));
    }
    while i < ids.len()
        invariant
            i <= ids@.len(),
            enumerates(ids@, old(s).pinned_windows@),
            stale == (|id: u64| !old(s).floats(id)),
            same_cache(*old(s), *s),
            dropped == ids@.take(i as int).filter(stale),
            s.pinned_windows@ == old(s).pinned_windows@.difference(dropped.to_set()),
            names@.len() == dropped.len(),
            forall|k: int|
                0 <= k < dropped.len() ==> (#[trigger] names@[k])@ == dropped_app(
                    old(s).windows@,
                    dropped[k],
                ),
        decreases ids@.len() - i,
    {
        let id: u64 = ids[i];
        proof {
            lemma_filter_take(ids@, stale, i as int);
        }
        let name = match s.windows.get(&id) {
            Some(w) => if w.is_floating {
                None
            } else {
                match &w.app_id {
                    Some(a) => Some(a.clone()),
                    None => Some("?".to_owned()),
                }
            },
            None => Some("?".to_owned()),
        };
        match name {
            Some(n) => {
                s.pinned_windows.remove(&id);
                names.push(n);
                proof {
                    let before = dropped;
                    dropped = dropped.push(id);
                    assert(dropped.to_set() =~= before.to_set().insert(id)) by {
                        assert forall|x: u64| dropped.contains(x) == (before.contains(x) || x == id) by {
                            if before.contains(x) {
                                let k = choose|k: int| 0 <= k < before.len() && before[k] == x;
                                assert(dropped[k] == x);
                            }
                            assert(dropped[before.len() as int] == id);
                        }
                    }
                    assert(s.pinned_windows@ =~= old(s).pinned_windows@.difference(
                        dropped.to_set(),
                    ));
                }
            },
            None => {},
        }
        i += 1;
    }
    proof {
        assert(ids@.take(ids@.len() as int) =~= ids@);
        broadcast use Seq::lemma_filter_pred;

        lemma_filter_distinct(ids@, stale);
        assert forall|x: u64| #[trigger]
            dropped.to_set().contains(x) == stale_pins(*old(s)).contains(x) by {
            if stale_pins(*old(s)).contains(x) {
                assert(ids@.to_set().contains(x));
                let k = choose|k: int| 0 <= k < ids@.len() && ids@[k] == x;
                ids@.lemma_filter_contains(stale, k);
            }
            if dropped.contains(x) {
                ids@.lemma_filter_contains_rev(stale, x);
                let k = choose|k: int| 0 <= k < dropped.len() && dropped[k] == x;
                assert(stale(dropped[k]));
            }
        }
        assert(dropped.to_set() =~= stale_pins(*old(s)));
        assert(enumerates(dropped, stale_pins(*old(s))));
    }
    names
}

proof fn lemma_filter_distinct(s: Seq<u64>, p: spec_fn(u64) -> bool)
    requires
        s.no_duplicates(),
    ensures
        s.filter(p).no_duplicates(),
    decreases s.len(),
{
    reveal(Seq::filter);
    if s.len() > 0 {
        lemma_filter_distinct(s.drop_last(), p);
        if p(s.last()) && s.drop_last().filter(p).contains(s.last()) {
            s.drop_last().lemma_filter_contains_rev(p, s.last());
            let k = choose|k: int| 0 <= k < s.drop_last().len() && s.drop_last()[k] == s.last();
            assert(s[k] == s[s.len() - 1]);
        }
    }
}

/// The text of the notice about a pin that was given up.
pub fn unpin_notice(app_id: &str) -> (r: String)
    ensures
        r@ == app_id@ + ": window left floating mode"@,
{
    let mut s = app_id.to_owned();
    s.append(": window left floating mode");
    s
}

// ---------------------------------------------------------------------- laws

/// After a resync only floating windows are pinned, and no pin on a floating
/// window was given up.
pub proof fn law_resync_leaves_floating_pins(pre: Inner, post: Inner)
    requires
        same_cache(pre, post),
        post.pinned_windows@ == pre.pinned_windows@.difference(stale_pins(pre)),
    ensures
        post.pins_float(),
        forall|id: u64| #[trigger]
            pre.pinned_windows@.contains(id) && pre.floats(id) ==> post.pinned_windows@.contains(id),
{
    assert forall|id: u64| #[trigger] post.pinned_windows@.contains(id) implies post.floats(id) by {
        assert(!stale_pins(pre).contains(id));
    }
    assert forall|id: u64| #[trigger]
        pre.pinned_windows@.contains(id) && pre.floats(
            id,
        ) implies post.pinned_windows@.contains(id) by {
        assert(!stale_pins(pre).contains(id));
    }
}

/// A pin names only a floating window of its own application.
pub proof fn law_restored_window_floats(p: PersistedPin, live: Seq<Window>)
    ensures
        named_window(p, live) matches Some(id) ==> exists|i: int|
            0 <= i < live.len() && (#[trigger] live[i]).id == id && same_app(p, live[i]),
{
    let app = |w: Window| same_app(p, w);
    let app_title = |w: Window| same_app_and_title(p, w);
    if let Some(id) = named_window(p, live) {
        let by_app = live.filter(app);
        let by_title = live.filter(app_title);
        if by_app.len() == 1 {
            live.lemma_filter_pred(app, 0);
            assert(by_app.contains(by_app[0]));
            live.lemma_filter_contains_rev(app, by_app[0]);
            let i = choose|i: int| 0 <= i < live.len() && live[i] == by_app[0];
            assert(live[i].id == id);
        } else {
            live.lemma_filter_pred(app_title, 0);
            assert(by_title.contains(by_title[0]));
            live.lemma_filter_contains_rev(app_title, by_title[0]);
            let i = choose|i: int| 0 <= i < live.len() && live[i] == by_title[0];
            assert(live[i].id == id);
        }
    }
}

/// A pin that was written for a floating window names that window again, as
/// long as the window reports its application and no other floating window
/// of it could be meant: none at all, or none with the same title.
pub proof fn law_written_pin_finds_its_window(p: PersistedPin, live: Seq<Window>, k: int)
    requires
        0 <= k < live.len(),
        live[k].is_floating,
        live[k].app_id is Some,
        is_pin_of(p, live[k]),
        ({
            ||| forall|j: int| 0 <= j < live.len() && j != k ==> !same_app(p, #[trigger] live[j])
            ||| live[k].title is Some && forall|j: int|
                0 <= j < live.len() && j != k ==> !same_app_and_title(p, #[trigger] live[j])
        }),
    ensures
        named_window(p, live) == Some(live[k].id),
{
    let app = |w: Window| same_app(p, w);
    let app_title = |w: Window| same_app_and_title(p, w);
    lemma_filter_nonempty(live, app, k);
    if forall|j: int| 0 <= j < live.len() && j != k ==> !same_app(p, #[trigger] live[j]) {
        lemma_filter_one_match(live, app, k);
    } else {
        lemma_filter_one_match(live, app_title, k);
        if live.filter(app).len() == 1 {
            let only = live.filter(app)[0];
            live.lemma_filter_contains(app, k);
            assert(live.filter(app).contains(live[k]));
            assert(only == live[k]);
        }
    }
}

proof fn lemma_filter_of_listing(ids: Seq<u64>, m: Map<u64, Window>, p: spec_fn(Window) -> bool)
    ensures
        ids.map_values(|id: u64| m[id]).filter(p) == ids.filter(|id: u64| p(m[id])).map_values(
            |id: u64| m[id],
        ),
    decreases ids.len(),
{
    reveal(Seq::filter);
    let f = |id: u64| m[id];
    let q = |id: u64| p(m[id]);
    if ids.len() > 0 {
        let front = ids.drop_last();
        lemma_filter_of_listing(front, m, p);
        assert(ids.map_values(f).drop_last() =~= front.map_values(f));
        assert(ids.map_values(f).last() == m[ids.last()]);
        if q(ids.last()) {
            assert(front.filter(q).push(ids.last()).map_values(f) =~= front.filter(q).map_values(
                f,
            ).push(m[ids.last()]));
        }
    } else {
        assert(ids.map_values(f).filter(p) =~= ids.filter(q).map_values(f));
    }
}

/// What passes a test in a listing is told by the cache alone: how many
/// windows pass, and which one where it is only one.
proof fn lemma_listing_filter(v: Seq<Window>, m: Map<u64, Window>, p: spec_fn(Window) -> bool)
    requires
        lists_windows(v, m),
        forall|id: u64| #[trigger] m.contains_key(id) ==> m[id].id == id,
    ensures
        v.filter(p).len() == m.dom().filter(|id: u64| p(m[id])).len(),
        v.filter(p).len() == 1 ==> m.dom().filter(|id: u64| p(m[id])) == set![v.filter(p)[0].id],
{
    let ids = choose|ids: Seq<u64>| #[trigger]
        enumerates(ids, m.dom()) && v == ids.map_values(|id: u64| m[id]);
    let q = |id: u64| p(m[id]);
    lemma_filter_of_listing(ids, m, p);
    let kept = ids.filter(q);
    lemma_filter_distinct(ids, q);
    assert forall|id: u64| #[trigger] kept.to_set().contains(id) == m.dom().filter(q).contains(id) by {
        if kept.contains(id) {
            let k = choose|k: int| 0 <= k < kept.len() && kept[k] == id;
            ids.lemma_filter_pred(q, k);
            ids.lemma_filter_contains_rev(q, id);
            assert(ids.to_set().contains(id));
        }
        if m.dom().filter(q).contains(id) {
            assert(ids.to_set().contains(id));
            let k = choose|k: int| 0 <= k < ids.len() && ids[k] == id;
            ids.lemma_filter_contains(q, k);
        }
    }
    assert(kept.to_set() =~= m.dom().filter(q));
    kept.unique_seq_to_set();
    if kept.len() == 1 {
        assert(kept.to_set().contains(kept[0]));
        assert(m.contains_key(kept[0]));
        assert forall|id: u64| #[trigger] kept.to_set().contains(id) == set![kept[0]].contains(id) by {
            assert(kept[0] == kept[0]);
        }
        assert(kept.to_set() =~= set![kept[0]]);
    }
}

/// Which window a pin names does not depend on the order in which the cached
/// windows are listed.
pub proof fn law_order_of_windows_does_not_matter(
    p: PersistedPin,
    m: Map<u64, Window>,
    one: Seq<Window>,
    other: Seq<Window>,
)
    requires
        forall|id: u64| #[trigger] m.contains_key(id) ==> m[id].id == id,
        lists_windows(one, m),
        lists_windows(other, m),
    ensures
        named_window(p, one) == named_window(p, other),
{
    let app = |w: Window| same_app(p, w);
    let app_title = |w: Window| same_app_and_title(p, w);
    lemma_listing_filter(one, m, app);
    lemma_listing_filter(other, m, app);
    lemma_listing_filter(one, m, app_title);
    lemma_listing_filter(other, m, app_title);
    if one.filter(app).len() == 1 {
        assert(set![one.filter(app)[0].id].contains(one.filter(app)[0].id));
        assert(set![other.filter(app)[0].id].contains(one.filter(app)[0].id));
    }
    if one.filter(app_title).len() == 1 {
        assert(set![one.filter(app_title)[0].id].contains(one.filter(app_title)[0].id));
        assert(set![other.filter(app_title)[0].id].contains(one.filter(app_title)[0].id));
    }
}

/// The pins that are taken over at startup are all on floating windows.
pub proof fn law_restored_pins_float(
    pre: Inner,
    post: Inner,
    pins: Seq<PersistedPin>,
    live: Seq<Window>,
)
    requires
        pre.wf(),
        same_cache(pre, post),
        lists_windows(live, pre.windows@),
        post.pinned_windows@ == named_ids(pins, live),
    ensures
        post.pins_float(),
{
    let ids = choose|ids: Seq<u64>| #[trigger]
        enumerates(ids, pre.windows@.dom()) && live == ids.map_values(|id: u64| pre.windows@[id]);
    assert forall|id: u64| #[trigger] post.pinned_windows@.contains(id) implies post.floats(id) by {
        let k = choose|k: int|
            0 <= k < pins.len() && named_window(#[trigger] pins[k], live) == Some(id);
        law_restored_window_floats(pins[k], live);
        let i = choose|i: int|
            0 <= i < live.len() && (#[trigger] live[i]).id == id && same_app(pins[k], live[i]);
        assert(ids.to_set().contains(ids[i]));
        assert(live[i] == pre.windows@[ids[i]]);
        assert(pre.windows@.contains_key(ids[i]));
    }
}

/// The event that the bridge emits for a window is read back as it was
/// meant: it reports that window as tiled exactly where the window is.
pub proof fn law_event_is_read_as_meant(w: Window, token: Option<Seq<char>>)
    ensures
        tiled_window(topics::WINDOWS@, opened_view(w, token)) == (if w.is_floating {
            None
        } else {
            Some(w.id)
        }),
        reported_app(opened_view(w, token)) == (match opt_view(w.app_id) {
            Some(s) => s,
            None => "?"@,
        }),
{
    reveal_strlit("opened_or_changed");
    reveal_strlit("activation_token");
    assert("opened_or_changed"@.len() == 17);
    assert("activation_token"@.len() == 16);
    lemma_window_fields(w);
    assert(field(opened_view(w, token), "opened_or_changed"@) == window_view(w));
}

} // verus!
