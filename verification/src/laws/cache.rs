//! The bridge's cache: what it holds after the compositor's events, and what
//! subscribers are told.

use vstd::prelude::*;
use vstd::string::*;

use crate::bridge::activation::ActivationBroker;
use crate::bridge::niri_conn::{
    ack_kind, check_ack, check_ack_line, collected_windows, collected_workspaces,
    handle_niri_event, normalized, normalized_workspace, opened_view, stamp, state_reset,
    zero_based, Ack, AckKind, NiriEvent, NiriWindow, NiriWorkspace,
};
use crate::bridge::niri_event::{
    niri_event, other_event, raw_event_view, read_event_line, reported_windows, window_event,
    LineEvent, RawEvent, RawWindow,
};
use crate::bridge::proto::{lemma_window_fields, window_view, Event, Window, Workspace};
use crate::bridge::state::Inner;
use crate::json::{field, JsonView};
use crate::laws::texts::{
    lemma_only_blanks, lemma_trimmed_lies_between, lies_between_blanks, only_blanks,
};
use crate::text::opt_view;

verus! {

broadcast use vstd::std_specs::hash::group_hash_axioms;

/// A record says of a window what the compositor reported of it: columns and
/// tiles counted from zero in place of one, and a position only of a window
/// that floats.
pub open spec fn tells(r: Window, w: NiriWindow) -> bool {
    &&& r.id == w.id
    &&& r.app_id == w.app_id
    &&& r.title == w.title
    &&& r.pid == w.pid
    &&& r.workspace_id == w.workspace_id
    &&& r.is_focused == w.is_focused
    &&& r.is_floating == w.is_floating
    &&& r.width == w.tile_size.0
    &&& r.height == w.tile_size.1
    &&& match w.pos_in_scrolling_layout {
        None => r.column_index is None && r.position_in_column is None,
        Some(p) => {
            &&& p.0 > 0 ==> (r.column_index matches Some(c) && c == (p.0 - 1) % 0x1_0000_0000)
            &&& p.1 > 0 ==> (r.position_in_column matches Some(t) && t == (p.1 - 1) % 0x1_0000_0000)
            &&& p.0 == 0 ==> r.column_index == Some(0u32)
            &&& p.1 == 0 ==> r.position_in_column == Some(0u32)
        },
    }
    &&& match w.tile_pos_in_workspace_view {
        Some(p) => if w.is_floating {
            r.floating_position matches Some(at) && at.x == p.0 && at.y == p.1
        } else {
            r.floating_position is None
        },
        None => r.floating_position is None,
    }
}

/// A record says of a workspace what the compositor reported of it.
pub open spec fn tells_workspace(r: Workspace, w: NiriWorkspace) -> bool {
    &&& r.id == w.id
    &&& r.idx == w.idx
    &&& r.name == w.name
    &&& r.output == w.output
    &&& r.is_focused == w.is_focused
    &&& r.active_window_id == w.active_window_id
}

/// A window that was opened or that changed is cached as it was reported, and
/// has the focus where it reports so. Everything else is as it was.
pub proof fn law_opened_window_is_cached(w: NiriWindow, token: Option<String>, now_ms: i64)
    ensures
        forall|s: &mut Inner, r: Option<Event>| #[trigger]
            call_ensures(
                handle_niri_event,
                (s, token, NiriEvent::WindowOpenedOrChanged { window: w }, now_ms),
                r,
            ) ==> {
                &&& final(s).windows@.contains_key(w.id)
                &&& tells(final(s).windows@[w.id], w)
                &&& final(s).windows@.dom() == s.windows@.dom().insert(w.id)
                &&& forall|id: u64|
                    id != w.id && s.windows@.contains_key(id) ==> #[trigger] final(s).windows@[id]
                        == s.windows@[id]
                &&& w.is_focused ==> final(s).focused_window == Some(w.id)
                &&& !w.is_focused ==> final(s).focused_window == s.focused_window
                &&& final(s).workspaces@ == s.workspaces@
                &&& final(s).focused_workspace == s.focused_workspace
                &&& final(s).pinned_windows@ == s.pinned_windows@
            },
{
    lemma_tells(w);
}

proof fn lemma_low_half(n: usize)
    ensures
        n > 0 ==> zero_based(n) == (n - 1) % 0x1_0000_0000,
        n == 0 ==> zero_based(n) == 0,
{
    let m: usize = if n > 0 {
        (n - 1) as usize
    } else {
        0usize
    };
    assert(m as u32 as u64 == (m as u64) % 0x1_0000_0000u64) by (bit_vector);
}

proof fn lemma_tells(w: NiriWindow)
    ensures
        tells(normalized(w), w),
{
    if let Some(p) = w.pos_in_scrolling_layout {
        lemma_low_half(p.0);
        lemma_low_half(p.1);
    }
}

proof fn lemma_collected(v: Seq<NiriWindow>)
    requires
        forall|i: int, j: int| 0 <= i < j < v.len() ==> (#[trigger] v[i]).id != (#[trigger] v[j]).id,
    ensures
        forall|i: int|
            0 <= i < v.len() ==> collected_windows(v).contains_key((#[trigger] v[i]).id)
                && collected_windows(v)[v[i].id] == normalized(v[i]),
        forall|id: u64| #[trigger]
            collected_windows(v).contains_key(id) ==> exists|i: int|
                0 <= i < v.len() && (#[trigger] v[i]).id == id,
    decreases v.len(),
{
    if v.len() > 0 {
        let front = v.drop_last();
        assert forall|i: int, j: int| 0 <= i < j < front.len() implies (#[trigger] front[i]).id != (
        #[trigger] front[j]).id by {
            assert(v[i].id != v[j].id);
        }
        lemma_collected(front);
        assert forall|i: int| 0 <= i < v.len() implies collected_windows(v).contains_key(
            (#[trigger] v[i]).id,
        ) && collected_windows(v)[v[i].id] == normalized(v[i]) by {
            if i < front.len() {
                assert(front[i] == v[i]);
                assert(v[i].id != v[v.len() - 1].id);
            }
        }
        assert forall|id: u64| #[trigger] collected_windows(v).contains_key(id) implies exists|i: int|
            0 <= i < v.len() && (#[trigger] v[i]).id == id by {
            if collected_windows(front).contains_key(id) {
                let i = choose|i: int| 0 <= i < front.len() && (#[trigger] front[i]).id == id;
                assert(v[i].id == id);
            } else {
                assert(v[v.len() - 1].id == id);
            }
        }
    }
}

/// After a full report the cache holds each window of it as it was reported,
/// and no other window. The focus and the workspaces are as they were.
pub proof fn law_full_report_is_cached(windows: Vec<NiriWindow>, token: Option<String>, now_ms: i64)
    requires
        forall|i: int, j: int|
            0 <= i < j < windows@.len() ==> (#[trigger] windows@[i]).id != (#[trigger] windows@[j]).id,
    ensures
        forall|s: &mut Inner, r: Option<Event>| #[trigger]
            call_ensures(
                handle_niri_event,
                (s, token, NiriEvent::WindowsChanged { windows }, now_ms),
                r,
            ) ==> {
                &&& forall|i: int|
                    0 <= i < windows@.len() ==> final(s).windows@.contains_key(
                        (#[trigger] windows@[i]).id,
                    ) && tells(final(s).windows@[windows@[i].id], windows@[i])
                &&& forall|id: u64| #[trigger]
                    final(s).windows@.contains_key(id) ==> exists|i: int|
                        0 <= i < windows@.len() && (#[trigger] windows@[i]).id == id
                &&& final(s).focused_window == s.focused_window
                &&& final(s).workspaces@ == s.workspaces@
                &&& final(s).focused_workspace == s.focused_workspace
                &&& final(s).pinned_windows@ == s.pinned_windows@
            },
{
    lemma_collected(windows@);
    assert forall|i: int| 0 <= i < windows@.len() implies tells(
        normalized(#[trigger] windows@[i]),
        windows@[i],
    ) by {
        lemma_tells(windows@[i]);
    }
}

/// A closed window is gone, and with it its focus; everything else is as it
/// was.
pub proof fn law_closing_takes_one_window(id: u64, token: Option<String>, now_ms: i64)
    ensures
        forall|s: &mut Inner, r: Option<Event>| #[trigger]
            call_ensures(
                handle_niri_event,
                (s, token, NiriEvent::WindowClosed { id }, now_ms),
                r,
            ) ==> {
                &&& final(s).windows@ == s.windows@.remove(id)
                &&& s.focused_window == Some(id) ==> final(s).focused_window is None
                &&& s.focused_window != Some(id) ==> final(s).focused_window == s.focused_window
                &&& final(s).workspaces@ == s.workspaces@
                &&& final(s).focused_workspace == s.focused_workspace
                &&& final(s).pinned_windows@ == s.pinned_windows@
                &&& r matches Some(ev) && ev.event@ == "windows"@ && ev.ts == now_ms && field(
                    ev.data@,
                    "closed"@,
                ) == JsonView::Num(id as int)
            },
{
}

/// A change of the focus is cached and told, and touches nothing else.
pub proof fn law_focus_follows_the_report(id: Option<u64>, token: Option<String>, now_ms: i64)
    ensures
        forall|s: &mut Inner, r: Option<Event>| #[trigger]
            call_ensures(
                handle_niri_event,
                (s, token, NiriEvent::WindowFocusChanged { id }, now_ms),
                r,
            ) ==> {
                &&& final(s).focused_window == id
                &&& final(s).windows@ == s.windows@
                &&& final(s).workspaces@ == s.workspaces@
                &&& final(s).focused_workspace == s.focused_workspace
                &&& final(s).pinned_windows@ == s.pinned_windows@
                &&& r matches Some(ev) && ev.event@ == "focus"@ && ev.ts == now_ms && field(
                    ev.data@,
                    "focused_window_id"@,
                ) == (match id {
                    Some(n) => JsonView::Num(n as int),
                    None => JsonView::Null,
                })
            },
{
}

proof fn lemma_collected_workspaces(v: Seq<NiriWorkspace>)
    requires
        forall|i: int, j: int| 0 <= i < j < v.len() ==> (#[trigger] v[i]).id != (#[trigger] v[j]).id,
    ensures
        forall|i: int|
            0 <= i < v.len() ==> collected_workspaces(v).contains_key((#[trigger] v[i]).id)
                && collected_workspaces(v)[v[i].id] == normalized_workspace(v[i]),
        forall|id: u64| #[trigger]
            collected_workspaces(v).contains_key(id) ==> exists|i: int|
                0 <= i < v.len() && (#[trigger] v[i]).id == id,
    decreases v.len(),
{
    if v.len() > 0 {
        let front = v.drop_last();
        assert forall|i: int, j: int| 0 <= i < j < front.len() implies (#[trigger] front[i]).id != (
        #[trigger] front[j]).id by {
            assert(v[i].id != v[j].id);
        }
        lemma_collected_workspaces(front);
        assert forall|i: int| 0 <= i < v.len() implies collected_workspaces(v).contains_key(
            (#[trigger] v[i]).id,
        ) && collected_workspaces(v)[v[i].id] == normalized_workspace(v[i]) by {
            if i < front.len() {
                assert(front[i] == v[i]);
                assert(v[i].id != v[v.len() - 1].id);
            }
        }
        assert forall|id: u64| #[trigger] collected_workspaces(v).contains_key(id) implies exists|
            i: int,
        |
            0 <= i < v.len() && (#[trigger] v[i]).id == id by {
            if collected_workspaces(front).contains_key(id) {
                let i = choose|i: int| 0 <= i < front.len() && (#[trigger] front[i]).id == id;
                assert(v[i].id == id);
            } else {
                assert(v[v.len() - 1].id == id);
            }
        }
    }
}

/// After a report of the workspaces the cache holds each as it was reported,
/// and no other; the focused one is one that reports the focus, and none
/// exactly where none does. The windows are as they were.
pub proof fn law_workspaces_are_cached(
    workspaces: Vec<NiriWorkspace>,
    token: Option<String>,
    now_ms: i64,
)
    requires
        forall|i: int, j: int|
            0 <= i < j < workspaces@.len() ==> (#[trigger] workspaces@[i]).id != (
            #[trigger] workspaces@[j]).id,
    ensures
        forall|s: &mut Inner, r: Option<Event>| #[trigger]
            call_ensures(
                handle_niri_event,
                (s, token, NiriEvent::WorkspacesChanged { workspaces }, now_ms),
                r,
            ) ==> {
                &&& forall|i: int|
                    0 <= i < workspaces@.len() ==> final(s).workspaces@.contains_key(
                        (#[trigger] workspaces@[i]).id,
                    ) && tells_workspace(
                        final(s).workspaces@[workspaces@[i].id],
                        workspaces@[i],
                    )
                &&& forall|id: u64| #[trigger]
                    final(s).workspaces@.contains_key(id) ==> exists|i: int|
                        0 <= i < workspaces@.len() && (#[trigger] workspaces@[i]).id == id
                &&& final(s).focused_workspace matches Some(id) ==> exists|i: int|
                    0 <= i < workspaces@.len() && (#[trigger] workspaces@[i]).id == id
                        && workspaces@[i].is_focused
                &&& final(s).focused_workspace is None ==> forall|i: int|
                    0 <= i < workspaces@.len() ==> !(#[trigger] workspaces@[i]).is_focused
                &&& final(s).windows@ == s.windows@
                &&& final(s).focused_window == s.focused_window
                &&& final(s).pinned_windows@ == s.pinned_windows@
            },
{
    lemma_collected_workspaces(workspaces@);
    assert forall|s: &mut Inner, r: Option<Event>| #[trigger]
        call_ensures(
            handle_niri_event,
            (s, token, NiriEvent::WorkspacesChanged { workspaces }, now_ms),
            r,
        ) implies {
        &&& final(s).focused_workspace matches Some(id) ==> exists|i: int|
            0 <= i < workspaces@.len() && (#[trigger] workspaces@[i]).id == id
                && workspaces@[i].is_focused
        &&& final(s).focused_workspace is None ==> forall|i: int|
            0 <= i < workspaces@.len() ==> !(#[trigger] workspaces@[i]).is_focused
    } by {
        let m = final(s).workspaces@;
        if let Some(id) = final(s).focused_workspace {
            let k = choose|k: u64| #[trigger]
                m.contains_key(k) && m[k].is_focused && m[k].id == id;
            let i = choose|i: int| 0 <= i < workspaces@.len() && (#[trigger] workspaces@[i]).id == k;
            assert(m[k] == normalized_workspace(workspaces@[i]));
        } else {
            assert forall|i: int| 0 <= i < workspaces@.len() implies !(
            #[trigger] workspaces@[i]).is_focused by {
                assert(m.contains_key(workspaces@[i].id));
            }
        }
    }
}

/// A workspace that becomes active has the focus as it is told, and becomes
/// the focused one where it has it; only its record changes, and only there.
pub proof fn law_activated_workspace(id: u64, focused: bool, token: Option<String>, now_ms: i64)
    ensures
        forall|s: &mut Inner, r: Option<Event>| #[trigger]
            call_ensures(
                handle_niri_event,
                (s, token, NiriEvent::WorkspaceActivated { id, focused }, now_ms),
                r,
            ) ==> {
                &&& final(s).workspaces@.dom() == s.workspaces@.dom()
                &&& s.workspaces@.contains_key(id) ==> {
                    let (a, b) = (s.workspaces@[id], final(s).workspaces@[id]);
                    &&& b.is_focused == focused
                    &&& b.id == a.id && b.idx == a.idx && b.name == a.name && b.output == a.output
                        && b.active_window_id == a.active_window_id
                }
                &&& forall|other: u64|
                    other != id && s.workspaces@.contains_key(other) ==> #[trigger] final(s).workspaces@[other] == s.workspaces@[other]
                &&& focused ==> final(s).focused_workspace == Some(id)
                &&& !focused ==> final(s).focused_workspace == s.focused_workspace
                &&& final(s).windows@ == s.windows@
                &&& final(s).focused_window == s.focused_window
                &&& final(s).pinned_windows@ == s.pinned_windows@
                &&& r matches Some(ev) && ev.event@ == "workspaces"@ && ev.ts == now_ms && field(
                    ev.data@,
                    "activated"@,
                ) == JsonView::Num(id as int) && field(ev.data@, "focused"@) == JsonView::Bool(
                    focused,
                )
            },
{
    reveal_strlit("activated");
    reveal_strlit("focused");
    assert("activated"@.len() == 9);
    assert("focused"@.len() == 7);
    assert forall|s: &mut Inner, r: Option<Event>| #[trigger]
        call_ensures(
            handle_niri_event,
            (s, token, NiriEvent::WorkspaceActivated { id, focused }, now_ms),
            r,
        ) implies final(s).workspaces@.dom() == s.workspaces@.dom() by {
        assert(final(s).workspaces@.dom() =~= s.workspaces@.dom());
    }
}

/// A change of the active window is taken into the record of its workspace,
/// changes nothing else, and is told to nobody.
pub proof fn law_active_window_is_recorded(
    workspace_id: u64,
    active_window_id: Option<u64>,
    token: Option<String>,
    now_ms: i64,
)
    ensures
        forall|s: &mut Inner, r: Option<Event>| #[trigger]
            call_ensures(
                handle_niri_event,
                (
                    s,
                    token,
                    NiriEvent::WorkspaceActiveWindowChanged { workspace_id, active_window_id },
                    now_ms,
                ),
                r,
            ) ==> {
                &&& r is None
                &&& s.workspaces@.contains_key(workspace_id) ==> {
                    let (a, b) = (s.workspaces@[workspace_id], final(s).workspaces@[workspace_id]);
                    &&& b.active_window_id == active_window_id
                    &&& b.id == a.id && b.idx == a.idx && b.name == a.name && b.output == a.output
                        && b.is_focused == a.is_focused
                }
                &&& forall|other: u64|
                    other != workspace_id && s.workspaces@.contains_key(other)
                        ==> #[trigger] final(s).workspaces@[other] == s.workspaces@[other]
                &&& !s.workspaces@.contains_key(workspace_id) ==> final(s).workspaces@
                    == s.workspaces@
                &&& final(s).focused_workspace == s.focused_workspace
                &&& final(s).windows@ == s.windows@
                &&& final(s).focused_window == s.focused_window
                &&& final(s).pinned_windows@ == s.pinned_windows@
            },
{
}

/// Any other event changes nothing and is told to nobody.
pub proof fn law_other_events_change_nothing(token: Option<String>, now_ms: i64)
    ensures
        forall|s: &mut Inner, r: Option<Event>| #[trigger]
            call_ensures(handle_niri_event, (s, token, NiriEvent::Other, now_ms), r) ==> {
                &&& r is None
                &&& final(s).windows@ == s.windows@
                &&& final(s).focused_window == s.focused_window
                &&& final(s).workspaces@ == s.workspaces@
                &&& final(s).focused_workspace == s.focused_workspace
                &&& final(s).pinned_windows@ == s.pinned_windows@
            },
{
}

/// What subscribers are told of a window that was opened or that changed is
/// what was reported of it, with the token of its process where there is one.
pub proof fn law_opened_window_is_told(w: NiriWindow, token: Option<String>, now_ms: i64)
    ensures
        forall|s: &mut Inner, r: Option<Event>| #[trigger]
            call_ensures(
                handle_niri_event,
                (s, token, NiriEvent::WindowOpenedOrChanged { window: w }, now_ms),
                r,
            ) ==> {
                &&& r matches Some(ev)
                &&& ev.event@ == "windows"@
                &&& ev.ts == now_ms
                &&& ({
                    let told = field(ev.data@, "opened_or_changed"@);
                    &&& field(told, "id"@) == JsonView::Num(w.id as int)
                    &&& field(told, "app_id"@) == (match opt_view(w.app_id) {
                        Some(t) => JsonView::Str(t),
                        None => JsonView::Null,
                    })
                    &&& field(told, "title"@) == (match opt_view(w.title) {
                        Some(t) => JsonView::Str(t),
                        None => JsonView::Null,
                    })
                    &&& field(told, "pid"@) == (match w.pid {
                        Some(n) => JsonView::Num(n as int),
                        None => JsonView::Null,
                    })
                    &&& field(told, "workspace_id"@) == (match w.workspace_id {
                        Some(n) => JsonView::Num(n as int),
                        None => JsonView::Null,
                    })
                    &&& field(told, "is_focused"@) == JsonView::Bool(w.is_focused)
                    &&& field(told, "is_floating"@) == JsonView::Bool(w.is_floating)
                    &&& field(told, "width"@) == JsonView::Num(w.tile_size.0 as int)
                    &&& field(told, "height"@) == JsonView::Num(w.tile_size.1 as int)
                })
                &&& field(ev.data@, "activation_token"@) == (match opt_view(token) {
                    Some(t) => JsonView::Str(t),
                    None => JsonView::Null,
                })
            },
{
    reveal_strlit("opened_or_changed");
    reveal_strlit("activation_token");
    assert("opened_or_changed"@.len() == 17);
    assert("activation_token"@.len() == 16);
    let record = normalized(w);
    lemma_window_fields(record);
    assert(field(opened_view(record, opt_view(token)), "opened_or_changed"@) == window_view(record));
    match opt_view(token) {
        Some(t) => {
            assert(field(opened_view(record, Some(t)), "activation_token"@) == JsonView::Str(t));
        },
        None => {
            assert(field(opened_view(record, None), "activation_token"@) == JsonView::Null);
        },
    }
}

/// After full reports subscribers are told that everything changed.
pub proof fn law_full_reports_are_told(
    windows: Vec<NiriWindow>,
    workspaces: Vec<NiriWorkspace>,
    token: Option<String>,
    now_ms: i64,
)
    ensures
        forall|s: &mut Inner, r: Option<Event>| #[trigger]
            call_ensures(
                handle_niri_event,
                (s, token, NiriEvent::WindowsChanged { windows }, now_ms),
                r,
            ) ==> (r matches Some(ev) && ev.event@ == "windows"@ && ev.ts == now_ms && field(
                ev.data@,
                "changed"@,
            ) == JsonView::Str("all"@)),
        forall|s: &mut Inner, r: Option<Event>| #[trigger]
            call_ensures(
                handle_niri_event,
                (s, token, NiriEvent::WorkspacesChanged { workspaces }, now_ms),
                r,
            ) ==> (r matches Some(ev) && ev.event@ == "workspaces"@ && ev.ts == now_ms && field(
                ev.data@,
                "changed"@,
            ) == JsonView::Str("all"@)),
{
}

/// When the cache is built anew, subscribers are told so.
pub proof fn law_reset_is_told(now_ms: i64, r: Event)
    requires
        call_ensures(state_reset, (now_ms,), r),
    ensures
        r.event@ == "state"@,
        r.ts == now_ms,
        field(r.data@, "reset"@) == JsonView::Bool(true),
{
}

// -------------------------------------------------------------------- reports

/// The event that the bridge acts on says of a window what the line said of
/// it, with the rounded size in place of the reported one.
pub open spec fn keeps(w: NiriWindow, raw: RawWindow, size: (i32, i32)) -> bool {
    &&& w.id == raw.id
    &&& w.title == raw.title
    &&& w.app_id == raw.app_id
    &&& w.pid == raw.pid
    &&& w.workspace_id == raw.workspace_id
    &&& w.is_focused == raw.is_focused
    &&& w.is_floating == raw.is_floating
    &&& w.pos_in_scrolling_layout == raw.pos_in_scrolling_layout
    &&& w.tile_size == size
    &&& w.tile_pos_in_workspace_view == raw.tile_pos_in_workspace_view
}

/// The event that the bridge acts on is the one that was read, of the same
/// kind and with the same contents.
pub proof fn law_event_is_the_one_that_was_read(
    raw: RawEvent,
    sizes: &Vec<(i32, i32)>,
    r: NiriEvent,
)
    requires
        call_ensures(niri_event, (raw, sizes), r),
        sizes@.len() == reported_windows(raw).len(),
    ensures
        raw matches RawEvent::WindowsChanged { windows } ==> (r matches NiriEvent::WindowsChanged {
            windows: v,
        } && v@.len() == windows@.len() && forall|i: int|
            0 <= i < v@.len() ==> keeps(#[trigger] v@[i], windows@[i], sizes@[i])),
        raw matches RawEvent::WindowOpenedOrChanged { window } ==> (
        r matches NiriEvent::WindowOpenedOrChanged { window: w } && keeps(w, window, sizes@[0])),
        raw matches RawEvent::WindowClosed { id } ==> r == (NiriEvent::WindowClosed { id }),
        raw matches RawEvent::WindowFocusChanged { id } ==> r == (NiriEvent::WindowFocusChanged {
            id,
        }),
        raw matches RawEvent::WorkspacesChanged { workspaces } ==> r == (
        NiriEvent::WorkspacesChanged { workspaces }),
        raw matches RawEvent::WorkspaceActivated { id, focused } ==> r == (
        NiriEvent::WorkspaceActivated { id, focused }),
        raw matches RawEvent::WorkspaceActiveWindowChanged { workspace_id, active_window_id } ==> r
            == (NiriEvent::WorkspaceActiveWindowChanged { workspace_id, active_window_id }),
        raw is Other ==> r is Other,
{
}

/// The sizes that are to be rounded are those of the reported windows, in
/// their order.
pub proof fn law_sizes_to_round(raw: RawEvent, r: Vec<(u64, u64)>)
    requires
        call_ensures(RawEvent::tile_sizes, (&raw,), r),
    ensures
        raw matches RawEvent::WindowsChanged { windows } ==> r@.len() == windows@.len() && forall|
            i: int,
        |
            0 <= i < r@.len() ==> #[trigger] r@[i] == windows@[i].tile_size,
        raw matches RawEvent::WindowOpenedOrChanged { window } ==> r@ == seq![window.tile_size],
        !(raw is WindowsChanged) && !(raw is WindowOpenedOrChanged) ==> r@.len() == 0,
{
    if let RawEvent::WindowOpenedOrChanged { window } = raw {
        assert(r@ =~= seq![window.tile_size]);
    }
}

// --------------------------------------------------------------------- tokens

/// A token that was registered for a process is stamped onto the first event
/// of a window of that process that comes within five seconds, and onto no
/// later one.
pub proof fn law_first_window_gets_the_token(
    pid: i32,
    token: String,
    at: u64,
    ev: NiriEvent,
    again: NiriEvent,
    now: u64,
    later: u64,
)
    requires
        at <= now,
        ev matches NiriEvent::WindowOpenedOrChanged { window } && window.pid == Some(pid),
        again matches NiriEvent::WindowOpenedOrChanged { window } && window.pid == Some(pid),
    ensures
        forall|
            a: &mut ActivationBroker,
            b: &mut ActivationBroker,
            c: &mut ActivationBroker,
            r: Option<String>,
            q: Option<String>,
        |
            {
                &&& #[trigger] call_ensures(
                    ActivationBroker::register_spawn,
                    (a, pid, token, at),
                    (),
                )
                &&& *b == *final(a)
                &&& #[trigger] call_ensures(stamp, (b, &ev, now), r)
                &&& *c == *final(b)
                &&& #[trigger] call_ensures(stamp, (c, &again, later), q)
            } ==> {
                &&& now - at <= 5_000_000_000 ==> opt_view(r) == Some(token@)
                &&& now - at > 5_000_000_000 ==> r is None
                &&& q is None
            },
{
}

/// A window that names no process, and an event that is about none, is
/// stamped with nothing, and no token is lost.
pub proof fn law_nothing_else_takes_a_token(ev: NiriEvent, now: u64)
    requires
        !(ev matches NiriEvent::WindowOpenedOrChanged { window } && window.pid is Some),
    ensures
        forall|b: &mut ActivationBroker, r: Option<String>| #[trigger]
            call_ensures(stamp, (b, &ev, now), r) ==> r is None && final(b).pid_map@ == b.pid_map@,
{
}

/// The event stream opens on the one answer that the events will come.
pub proof fn law_only_handled_opens_the_stream(ack: Ack, r: Result<(), String>)
    requires
        call_ensures(check_ack, (&ack,), r),
    ensures
        r is Ok <==> ack is Handled,
{
}

/// What failed is told apart: a closed connection, a line that is no answer,
/// another answer and a refusal, each in its own words.
pub proof fn law_failed_answers_are_told(ack: Ack, r: Result<(), String>)
    requires
        call_ensures(check_ack, (&ack,), r),
    ensures
        ack is Closed ==> (r matches Err(e) && e@
            == "niri closed connection before EventStream ack"@),
        ack matches Ack::Other(words) ==> (r matches Err(e) && e@
            == "unexpected event-stream reply: "@ + words@),
        ack matches Ack::Refused(words) ==> (r matches Err(e) && e@
            == "niri rejected EventStream subscription: "@ + words@),
        ack matches Ack::Unparsed { line, why } ==> (r matches Err(e) && exists|said: Seq<char>|
            #[trigger] lies_between_blanks(line@, said) && e@ == "parsing EventStream ack: "@ + said
                + ": "@ + why@),
{
    if let Ack::Unparsed { line, why } = ack {
        lemma_trimmed_lies_between(line@);
    }
}

/// The line in which the compositor accepts opens the stream, and no other
/// line does.
pub proof fn law_only_an_accepting_line_opens_the_stream(line: &str, r: Result<(), String>)
    requires
        call_ensures(check_ack_line, (line,), r),
    ensures
        r is Ok <==> ack_kind(line@) is Handled,
        ack_kind(line@) matches AckKind::Refused(words) ==> (r matches Err(e) && e@
            == "niri rejected EventStream subscription: "@ + words),
{
}

/// A line of the stream is read as the event that stands in it: one that
/// holds windows or another one. A blank line holds none, and what cannot be
/// read is handed on with the complaint.
pub proof fn law_lines_are_read(line: &str, r: LineEvent)
    requires
        call_ensures(read_event_line, (line,), r),
    ensures
        r is Blank <==> only_blanks(line@),
        !only_blanks(line@) ==> (window_event(line@) matches Some(v) ==> (r matches LineEvent::Event(
            e,
        ) && raw_event_view(e) == v)),
        !only_blanks(line@) && window_event(line@) is None ==> (other_event(line@) matches Ok(v)
            ==> (r matches LineEvent::Event(e) && raw_event_view(e) == v)),
        !only_blanks(line@) && window_event(line@) is None ==> (other_event(line@) matches Err(why)
            ==> (r matches LineEvent::Unrecognized(text) && text@ == why)),
{
    lemma_only_blanks(line@);
}

} // verus!
