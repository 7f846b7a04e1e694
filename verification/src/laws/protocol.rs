//! The bridge's operations: what a client is answered, and what the
//! compositor is asked to do.

use vstd::prelude::*;
use vstd::string::*;

use crate::bridge::proto::{
    lemma_window_fields, window_view, workspace_view, Event, Op, Response, Window, Workspace,
    WorkspaceRef,
};
use crate::bridge::server::{
    build_spawn_command, child_pid, handle_op, next_client_id, pump, respond, snapshot_view,
    spawn_reply, unparsed, Forwarding, NiriAction, NiriOutcome, OpError, Planned, PumpStep,
    Received, Reply, SpawnCommand,
};
use crate::bridge::state::{
    enumerates, lists_windows, lists_workspaces, texts_view, windows_view, workspaces_view,
    ClientSubs, Inner,
};
use crate::json::{field, Json, JsonView};
use crate::table::lists;
use crate::text::{decimal, opt_view, views};

verus! {

broadcast use vstd::std_specs::hash::group_hash_axioms;

// --------------------------------------------------------------------- records

/// A text, or null.
pub open spec fn text_or_null(o: Option<String>) -> JsonView {
    match o {
        Some(s) => JsonView::Str(s@),
        None => JsonView::Null,
    }
}

/// A value is the record of a window, under the names of its fields.
pub open spec fn says_window(j: JsonView, w: Window) -> bool {
    &&& field(j, "id"@) == JsonView::Num(w.id as int)
    &&& field(j, "app_id"@) == text_or_null(w.app_id)
    &&& field(j, "title"@) == text_or_null(w.title)
    &&& field(j, "pid"@) == (match w.pid {
        Some(n) => JsonView::Num(n as int),
        None => JsonView::Null,
    })
    &&& field(j, "workspace_id"@) == (match w.workspace_id {
        Some(n) => JsonView::Num(n as int),
        None => JsonView::Null,
    })
    &&& field(j, "is_focused"@) == JsonView::Bool(w.is_focused)
    &&& field(j, "is_floating"@) == JsonView::Bool(w.is_floating)
    &&& field(j, "column_index"@) == (match w.column_index {
        Some(n) => JsonView::Num(n as int),
        None => JsonView::Null,
    })
    &&& field(j, "position_in_column"@) == (match w.position_in_column {
        Some(n) => JsonView::Num(n as int),
        None => JsonView::Null,
    })
    &&& field(j, "width"@) == JsonView::Num(w.width as int)
    &&& field(j, "height"@) == JsonView::Num(w.height as int)
    &&& match w.floating_position {
        Some(p) => field(field(j, "floating_position"@), "x"@) == JsonView::Float(p.x) && field(
            field(j, "floating_position"@),
            "y"@,
        ) == JsonView::Float(p.y),
        None => field(j, "floating_position"@) == JsonView::Null,
    }
}

/// A value is the record of a workspace, under the names of its fields.
pub open spec fn says_workspace(j: JsonView, w: Workspace) -> bool {
    &&& field(j, "id"@) == JsonView::Num(w.id as int)
    &&& field(j, "idx"@) == JsonView::Num(w.idx as int)
    &&& field(j, "name"@) == text_or_null(w.name)
    &&& field(j, "output"@) == text_or_null(w.output)
    &&& field(j, "is_focused"@) == JsonView::Bool(w.is_focused)
    &&& field(j, "active_window_id"@) == (match w.active_window_id {
        Some(n) => JsonView::Num(n as int),
        None => JsonView::Null,
    })
}

proof fn lemma_says_window(w: Window)
    ensures
        says_window(window_view(w), w),
{
    lemma_window_fields(w);
    reveal_strlit("x");
    reveal_strlit("y");
    assert("x"@[0] != "y"@[0]);
    if let Some(p) = w.floating_position {
        let at = field(window_view(w), "floating_position"@);
        assert(field(at, "x"@) == JsonView::Float(p.x));
        assert(field(at, "y"@) == JsonView::Float(p.y));
    }
}

proof fn lemma_says_workspace(w: Workspace)
    ensures
        says_workspace(workspace_view(w), w),
{
    reveal_strlit("id");
    reveal_strlit("idx");
    reveal_strlit("name");
    reveal_strlit("output");
    reveal_strlit("is_focused");
    reveal_strlit("active_window_id");
    assert("id"@.len() == 2);
    assert("idx"@.len() == 3);
    assert("name"@.len() == 4);
    assert("output"@.len() == 6);
    assert("is_focused"@.len() == 10);
    assert("active_window_id"@.len() == 16);
}

/// The JSON form of a window holds each of its fields under its own name.
pub proof fn law_window_record(w: Window, j: Json)
    requires
        call_ensures(Window::to_json, (&w,), j),
    ensures
        says_window(j@, w),
{
    lemma_says_window(w);
}

/// The JSON form of a workspace holds each of its fields under its own name.
pub proof fn law_workspace_record(w: Workspace, j: Json)
    requires
        call_ensures(Workspace::to_json, (&w,), j),
    ensures
        says_workspace(j@, w),
{
    lemma_says_workspace(w);
}

// --------------------------------------------------------------------- queries

/// No operation changes what is cached; one that is none of the pin operations
/// leaves the pins alone, and what is on disk.
pub proof fn law_operations_leave_the_cache(op: Op, has_broker: bool)
    ensures
        forall|s: &mut Inner, subs: &mut ClientSubs, p: Planned| #[trigger]
            call_ensures(handle_op, (s, subs, has_broker, &op), p) ==> {
                &&& final(s).windows@ == s.windows@
                &&& final(s).workspaces@ == s.workspaces@
                &&& final(s).focused_window == s.focused_window
                &&& final(s).focused_workspace == s.focused_workspace
                &&& !(op is PinAdd) && !(op is PinRemove) && !(op is PinToggle) && !(op is PinOff)
                    ==> final(s).pinned_windows@ == s.pinned_windows@ && !p.persist
            },
{
}

/// Who asks for a window is answered its record, or null where it is not
/// cached.
pub proof fn law_cached_window_is_answered(id: u64, has_broker: bool)
    ensures
        forall|s: &mut Inner, subs: &mut ClientSubs, p: Planned| #[trigger]
            call_ensures(handle_op, (s, subs, has_broker, &Op::WindowsGet { id }), p) ==> {
                &&& p.reply matches Reply::Data(d)
                &&& s.windows@.contains_key(id) ==> says_window(d@, s.windows@[id])
                &&& !s.windows@.contains_key(id) ==> d@ == JsonView::Null
                &&& final(s).windows@ == s.windows@
                &&& final(s).pinned_windows@ == s.pinned_windows@
                &&& !p.persist
            },
{
    assert forall|s: &mut Inner, subs: &mut ClientSubs, p: Planned| #[trigger]
        call_ensures(handle_op, (s, subs, has_broker, &Op::WindowsGet { id }), p)
            && s.windows@.contains_key(id) implies says_window(p.reply->Data_0@, s.windows@[id]) by {
        lemma_says_window(s.windows@[id]);
    }
}

/// A value is the record of some window of a map.
pub open spec fn says_window_of(j: JsonView, m: Map<u64, Window>) -> bool {
    exists|id: u64| #[trigger] m.contains_key(id) && says_window(j, m[id])
}

/// Items hold the record of each window of a map, and nothing else.
pub open spec fn records_windows(items: Seq<JsonView>, m: Map<u64, Window>) -> bool {
    &&& items.len() == m.dom().len()
    &&& forall|i: int| 0 <= i < items.len() ==> says_window_of(#[trigger] items[i], m)
    &&& forall|id: u64| #[trigger]
        m.contains_key(id) ==> exists|i: int|
            0 <= i < items.len() && says_window(#[trigger] items[i], m[id])
}

/// A value is the record of some workspace of a map.
pub open spec fn says_workspace_of(j: JsonView, m: Map<u64, Workspace>) -> bool {
    exists|id: u64| #[trigger] m.contains_key(id) && says_workspace(j, m[id])
}

/// Items hold the record of each workspace of a map, and nothing else.
pub open spec fn records_workspaces(items: Seq<JsonView>, m: Map<u64, Workspace>) -> bool {
    &&& items.len() == m.dom().len()
    &&& forall|i: int| 0 <= i < items.len() ==> says_workspace_of(#[trigger] items[i], m)
    &&& forall|id: u64| #[trigger]
        m.contains_key(id) ==> exists|i: int|
            0 <= i < items.len() && says_workspace(#[trigger] items[i], m[id])
}

/// A listing of the windows of a map records them.
pub proof fn lemma_lists_windows(v: Seq<Window>, m: Map<u64, Window>)
    requires
        lists_windows(v, m),
    ensures
        windows_view(v) matches JsonView::Arr(items) && records_windows(items, m),
{
    let ids = choose|ids: Seq<u64>| #[trigger]
        enumerates(ids, m.dom()) && v == ids.map_values(|id: u64| m[id]);
    let items = windows_view(v)->Arr_0;
    ids.unique_seq_to_set();
    assert forall|i: int| 0 <= i < items.len() implies says_window_of(#[trigger] items[i], m) by {
        assert(ids.to_set().contains(ids[i]));
        assert(items[i] == window_view(m[ids[i]]));
        lemma_says_window(m[ids[i]]);
        assert(m.contains_key(ids[i]));
    }
    assert forall|id: u64| #[trigger] m.contains_key(id) implies exists|i: int|
        0 <= i < items.len() && says_window(#[trigger] items[i], m[id]) by {
        assert(ids.to_set().contains(id));
        let i = choose|i: int| 0 <= i < ids.len() && ids[i] == id;
        assert(items[i] == window_view(m[id]));
        lemma_says_window(m[id]);
    }
}

proof fn lemma_lists_workspaces(v: Seq<Workspace>, m: Map<u64, Workspace>)
    requires
        lists_workspaces(v, m),
    ensures
        workspaces_view(v) matches JsonView::Arr(items) && records_workspaces(items, m),
{
    let ids = choose|ids: Seq<u64>| #[trigger]
        enumerates(ids, m.dom()) && v == ids.map_values(|id: u64| m[id]);
    let items = workspaces_view(v)->Arr_0;
    ids.unique_seq_to_set();
    assert forall|i: int| 0 <= i < items.len() implies says_workspace_of(#[trigger] items[i], m) by {
        assert(ids.to_set().contains(ids[i]));
        assert(items[i] == workspace_view(m[ids[i]]));
        lemma_says_workspace(m[ids[i]]);
        assert(m.contains_key(ids[i]));
    }
    assert forall|id: u64| #[trigger] m.contains_key(id) implies exists|i: int|
        0 <= i < items.len() && says_workspace(#[trigger] items[i], m[id]) by {
        assert(ids.to_set().contains(id));
        let i = choose|i: int| 0 <= i < ids.len() && ids[i] == id;
        assert(items[i] == workspace_view(m[id]));
        lemma_says_workspace(m[id]);
    }
}

/// Who asks for the windows, or for the workspaces, is answered the record of
/// each that is cached.
pub proof fn law_lists_are_complete(has_broker: bool)
    ensures
        forall|s: &mut Inner, subs: &mut ClientSubs, p: Planned| #[trigger]
            call_ensures(handle_op, (s, subs, has_broker, &Op::WindowsList), p) ==> {
                p.reply matches Reply::Data(d) && d@ matches JsonView::Arr(items)
                    && records_windows(items, s.windows@)
            },
        forall|s: &mut Inner, subs: &mut ClientSubs, p: Planned| #[trigger]
            call_ensures(handle_op, (s, subs, has_broker, &Op::WorkspacesList), p) ==> {
                p.reply matches Reply::Data(d) && d@ matches JsonView::Arr(items)
                    && records_workspaces(items, s.workspaces@)
            },
{
    assert forall|s: &mut Inner, subs: &mut ClientSubs, p: Planned| #[trigger]
        call_ensures(handle_op, (s, subs, has_broker, &Op::WindowsList), p) implies {
        p.reply matches Reply::Data(d) && d@ matches JsonView::Arr(items) && records_windows(
            items,
            s.windows@,
        )
    } by {
        let v = choose|v: Seq<Window>| #[trigger]
            lists_windows(v, s.windows@) && crate::bridge::server::answers(p, windows_view(v));
        lemma_lists_windows(v, s.windows@);
    }
    assert forall|s: &mut Inner, subs: &mut ClientSubs, p: Planned| #[trigger]
        call_ensures(handle_op, (s, subs, has_broker, &Op::WorkspacesList), p) implies {
        p.reply matches Reply::Data(d) && d@ matches JsonView::Arr(items) && records_workspaces(
            items,
            s.workspaces@,
        )
    } by {
        let v = choose|v: Seq<Workspace>| #[trigger]
            lists_workspaces(v, s.workspaces@) && crate::bridge::server::answers(
                p,
                workspaces_view(v),
            );
        lemma_lists_workspaces(v, s.workspaces@);
    }
}

/// Who asks for the focused workspace is answered its record, or null where
/// none has the focus or it is not cached.
pub proof fn law_focused_workspace_is_answered(has_broker: bool)
    ensures
        forall|s: &mut Inner, subs: &mut ClientSubs, p: Planned| #[trigger]
            call_ensures(handle_op, (s, subs, has_broker, &Op::WorkspacesFocused), p) ==> {
                &&& p.reply matches Reply::Data(d)
                &&& s.focused_workspace matches Some(id) ==> (if s.workspaces@.contains_key(id) {
                    says_workspace(d@, s.workspaces@[id])
                } else {
                    d@ == JsonView::Null
                })
                &&& s.focused_workspace is None ==> d@ == JsonView::Null
            },
{
    assert forall|s: &mut Inner, subs: &mut ClientSubs, p: Planned| #[trigger]
        call_ensures(handle_op, (s, subs, has_broker, &Op::WorkspacesFocused), p) implies {
        &&& p.reply matches Reply::Data(d)
        &&& s.focused_workspace matches Some(id) ==> (if s.workspaces@.contains_key(id) {
            says_workspace(d@, s.workspaces@[id])
        } else {
            d@ == JsonView::Null
        })
        &&& s.focused_workspace is None ==> d@ == JsonView::Null
    } by {
        if let Some(id) = s.focused_workspace {
            if s.workspaces@.contains_key(id) {
                lemma_says_workspace(s.workspaces@[id]);
            }
        }
    }
}

/// Who asks for the whole state is answered every window, every workspace and
/// both focuses.
pub proof fn law_whole_state_is_answered(has_broker: bool)
    ensures
        forall|s: &mut Inner, subs: &mut ClientSubs, p: Planned| #[trigger]
            call_ensures(handle_op, (s, subs, has_broker, &Op::StateSnapshot), p) ==> {
                &&& p.reply matches Reply::Data(d)
                &&& field(d@, "windows"@) matches JsonView::Arr(items) && records_windows(
                    items,
                    s.windows@,
                )
                &&& field(d@, "workspaces"@) matches JsonView::Arr(items) && records_workspaces(
                    items,
                    s.workspaces@,
                )
                &&& field(d@, "focused_window_id"@) == (match s.focused_window {
                    Some(n) => JsonView::Num(n as int),
                    None => JsonView::Null,
                })
                &&& field(d@, "focused_workspace_id"@) == (match s.focused_workspace {
                    Some(n) => JsonView::Num(n as int),
                    None => JsonView::Null,
                })
            },
{
    reveal_strlit("windows");
    reveal_strlit("workspaces");
    reveal_strlit("focused_window_id");
    reveal_strlit("focused_workspace_id");
    assert("windows"@.len() == 7);
    assert("workspaces"@.len() == 10);
    assert("focused_window_id"@.len() == 17);
    assert("focused_workspace_id"@.len() == 20);
    assert forall|s: &mut Inner, subs: &mut ClientSubs, p: Planned| #[trigger]
        call_ensures(handle_op, (s, subs, has_broker, &Op::StateSnapshot), p) implies {
        &&& p.reply matches Reply::Data(d)
        &&& field(d@, "windows"@) matches JsonView::Arr(items) && records_windows(items, s.windows@)
        &&& field(d@, "workspaces"@) matches JsonView::Arr(items) && records_workspaces(
            items,
            s.workspaces@,
        )
        &&& field(d@, "focused_window_id"@) == (match s.focused_window {
            Some(n) => JsonView::Num(n as int),
            None => JsonView::Null,
        })
        &&& field(d@, "focused_workspace_id"@) == (match s.focused_workspace {
            Some(n) => JsonView::Num(n as int),
            None => JsonView::Null,
        })
    } by {
        let (w, ws) = choose|w: Seq<Window>, ws: Seq<Workspace>|
            {
                &&& #[trigger] lists_windows(w, s.windows@)
                &&& #[trigger] lists_workspaces(ws, s.workspaces@)
                &&& crate::bridge::server::answers(p, snapshot_view(*s, w, ws))
            };
        lemma_lists_windows(w, s.windows@);
        lemma_lists_workspaces(ws, s.workspaces@);
        let d = p.reply->Data_0@;
        assert(field(d, "windows"@) == windows_view(w));
        assert(field(d, "workspaces"@) == workspaces_view(ws));
    }
}

// --------------------------------------------------------------------- actions

/// The compositor is asked to do exactly what the client asked for: to that
/// window, with those numbers, and nothing else. A column is moved by giving
/// the focus to its window first, to the place counted from one.
pub proof fn law_operations_are_forwarded(
    id: u64,
    has_broker: bool,
    workspace: WorkspaceRef,
    index: u32,
    w: i32,
    h: i32,
    x: u64,
    y: u64,
)
    ensures
        forall|s: &mut Inner, subs: &mut ClientSubs, p: Planned| #[trigger]
            call_ensures(handle_op, (s, subs, has_broker, &Op::WindowFocus { id }), p) ==> (
            p.reply matches Reply::Forward(v) && v@ == seq![NiriAction::FocusWindow { id }]),
        forall|s: &mut Inner, subs: &mut ClientSubs, p: Planned| #[trigger]
            call_ensures(handle_op, (s, subs, has_broker, &Op::WindowClose { id }), p) ==> (
            p.reply matches Reply::Forward(v) && v@ == seq![NiriAction::CloseWindow { id }]),
        forall|s: &mut Inner, subs: &mut ClientSubs, p: Planned| #[trigger]
            call_ensures(
                handle_op,
                (s, subs, has_broker, &Op::WindowMoveToWorkspace { id, workspace }),
                p,
            ) ==> (p.reply matches Reply::Forward(v) && v@ == seq![
                NiriAction::MoveWindowToWorkspace { window_id: id, reference: workspace, focus: true },
            ]),
        forall|s: &mut Inner, subs: &mut ClientSubs, p: Planned| #[trigger]
            call_ensures(handle_op, (s, subs, has_broker, &Op::WindowToggleFloating { id }), p) ==> (
            p.reply matches Reply::Forward(v) && v@ == seq![
                NiriAction::ToggleWindowFloating { id },
            ]),
        forall|s: &mut Inner, subs: &mut ClientSubs, p: Planned| #[trigger]
            call_ensures(
                handle_op,
                (s, subs, has_broker, &Op::WindowMoveColumnToIndex { id, index }),
                p,
            ) ==> (p.reply matches Reply::Forward(v) && v@ == seq![
                NiriAction::FocusWindow { id },
                NiriAction::MoveColumnToIndex {
                    index: if index == usize::MAX {
                        usize::MAX
                    } else {
                        (index + 1) as usize
                    },
                },
            ]),
        forall|s: &mut Inner, subs: &mut ClientSubs, p: Planned| #[trigger]
            call_ensures(handle_op, (s, subs, has_broker, &Op::WindowSetSize { id, w, h }), p) ==> (
            p.reply matches Reply::Forward(v) && v@ == seq![
                NiriAction::SetWindowWidth { id, width: w },
                NiriAction::SetWindowHeight { id, height: h },
            ]),
        forall|s: &mut Inner, subs: &mut ClientSubs, p: Planned| #[trigger]
            call_ensures(
                handle_op,
                (s, subs, has_broker, &Op::WindowSetFloatingPosition { id, x, y }),
                p,
            ) ==> (p.reply matches Reply::Forward(v) && v@ == seq![
                NiriAction::MoveFloatingWindow { id, x, y },
            ]),
{
}

/// Actions are sent one after the other, each after the one before it was
/// done; the client is answered once the last one was, or at the first that
/// was not.
pub proof fn law_actions_are_sent_in_turn(words: String)
    ensures
        forall|f: &mut Forwarding, r: Option<Result<Json, OpError>>| #[trigger]
            call_ensures(Forwarding::on_outcome, (f, NiriOutcome::Handled), r) && f.done
                < f.actions@.len() ==> {
                &&& final(f).actions@ == f.actions@
                &&& final(f).done == f.done + 1
                &&& r is Some <==> f.done + 1 == f.actions@.len()
                &&& r matches Some(answer) ==> (answer matches Ok(j) && j@ == JsonView::Obj(
                    Map::empty(),
                ))
            },
        forall|f: &mut Forwarding, r: Option<Result<Json, OpError>>| #[trigger]
            call_ensures(Forwarding::on_outcome, (f, NiriOutcome::Other(words)), r) && f.done
                < f.actions@.len() ==> final(f).done == f.done && (r matches Some(Err(e))
                && e.text() == "unexpected niri response: "@ + words@),
        forall|f: &mut Forwarding, r: Option<Result<Json, OpError>>| #[trigger]
            call_ensures(Forwarding::on_outcome, (f, NiriOutcome::Error(words)), r) && f.done
                < f.actions@.len() ==> final(f).done == f.done && (r matches Some(Err(e))
                && e.text() == words@),
        forall|f: &Forwarding, a: &NiriAction| #[trigger]
            call_ensures(Forwarding::current, (f,), a) && f.done < f.actions@.len() ==> *a
                == f.actions@[f.done as int],
{
}

// ---------------------------------------------------------------------- spawns

/// A process is started as the client asked, with a token where it asked for
/// one; an empty command line, and a token where none can be had, are refused.
pub proof fn law_spawns_are_planned(
    argv: Vec<String>,
    env: Vec<(String, String)>,
    token: bool,
    has_broker: bool,
)
    ensures
        forall|s: &mut Inner, subs: &mut ClientSubs, p: Planned| #[trigger]
            call_ensures(
                handle_op,
                (
                    s,
                    subs,
                    has_broker,
                    &Op::Spawn { argv, env, request_activation_token: token },
                ),
                p,
            ) ==> {
                &&& p.reply is Spawn <==> argv@.len() > 0 && (has_broker || !token)
                &&& p.reply matches Reply::Spawn(plan) ==> plan.argv@ == argv@ && plan.env@ == env@
                    && plan.mint == token
                &&& argv@.len() == 0 ==> (p.reply matches Reply::Fail(e) && e.text()
                    == "spawn requires non-empty argv"@)
                &&& argv@.len() > 0 && token && !has_broker ==> (p.reply matches Reply::Fail(e)
                    && e.text()
                    == "activation broker unavailable; bridge not started with Wayland support"@)
            },
{
}

/// The program is the first word of the command line and the rest are its
/// arguments; the token stands last among the variables, so that it wins.
pub proof fn law_command_of_a_spawn(
    argv: Vec<String>,
    env: Vec<(String, String)>,
    token: Option<&str>,
    r: SpawnCommand,
)
    requires
        call_ensures(build_spawn_command, (&argv, &env, token), r),
        argv@.len() > 0,
    ensures
        r.program@ == argv@[0]@,
        r.args@.len() == argv@.len() - 1,
        forall|i: int| 0 <= i < r.args@.len() ==> (#[trigger] r.args@[i])@ == argv@[i + 1]@,
        forall|i: int| 0 <= i < env@.len() ==> #[trigger] r.env@[i] == env@[i],
        token is None ==> r.env@.len() == env@.len(),
        token matches Some(t) ==> r.env@.len() == env@.len() + 1 && r.env@.last().0@
            == "XDG_ACTIVATION_TOKEN"@ && r.env@.last().1@ == t@,
{
    if token is Some {
        assert forall|i: int| 0 <= i < env@.len() implies #[trigger] r.env@[i] == env@[i] by {
            assert(r.env@.drop_last()[i] == r.env@[i]);
        }
    }
}

/// A child's process id is passed on where it fits, and refused otherwise.
pub proof fn law_child_pid(raw: Option<u32>, r: Result<i32, OpError>)
    requires
        call_ensures(child_pid, (raw,), r),
    ensures
        r is Ok <==> (raw matches Some(n) && n <= 0x7fff_ffff),
        r matches Ok(pid) ==> raw == Some(pid as u32) && pid >= 0,
        raw is None ==> (r matches Err(e) && e.text() == "spawned child has no pid"@),
        raw matches Some(n) ==> (n > 0x7fff_ffff ==> (r matches Err(e) && e.text()
            == "spawned child pid "@ + decimal(n as nat) + " doesn't fit in i32"@)),
{
}

/// The client is told the process and its token.
pub proof fn law_spawn_is_answered(pid: i32, token: Option<String>, r: Json)
    requires
        call_ensures(spawn_reply, (pid, &token), r),
    ensures
        field(r@, "pid"@) == JsonView::Num(pid as int),
        field(r@, "activation_token"@) == text_or_null(token),
{
    reveal_strlit("pid");
    reveal_strlit("activation_token");
    assert("pid"@.len() == 3);
    assert("activation_token"@.len() == 16);
}

// --------------------------------------------------------------- subscriptions

/// A client that subscribes to topics, or gives some up, is answered all that
/// it has from then on; nothing else changes.
pub proof fn law_subscriptions_are_answered(topics: Vec<String>, has_broker: bool, topic: Seq<char>)
    ensures
        forall|s: &mut Inner, subs: &mut ClientSubs, p: Planned| #[trigger]
            call_ensures(handle_op, (s, subs, has_broker, &Op::Subscribe { topics }), p) ==> {
                &&& final(subs).topics@.contains(topic) <==> subs.topics@.contains(topic) || views(
                    topics@,
                ).contains(topic)
                &&& p.reply matches Reply::Data(d)
                &&& field(d@, "subscribed"@) matches JsonView::Arr(items)
                &&& items.contains(JsonView::Str(topic)) <==> final(subs).topics@.contains(topic)
                &&& final(s).pinned_windows@ == s.pinned_windows@
            },
        forall|s: &mut Inner, subs: &mut ClientSubs, p: Planned| #[trigger]
            call_ensures(handle_op, (s, subs, has_broker, &Op::Unsubscribe { topics }), p) ==> {
                &&& final(subs).topics@.contains(topic) <==> subs.topics@.contains(topic) && !views(
                    topics@,
                ).contains(topic)
                &&& p.reply matches Reply::Data(d)
                &&& field(d@, "subscribed"@) matches JsonView::Arr(items)
                &&& items.contains(JsonView::Str(topic)) <==> final(subs).topics@.contains(topic)
                &&& final(s).pinned_windows@ == s.pinned_windows@
            },
{
    assert forall|all: Set<Seq<char>>, p: Planned| #[trigger]
        crate::bridge::server::subscription_effect(all, p) implies {
        &&& p.reply matches Reply::Data(d)
        &&& field(d@, "subscribed"@) matches JsonView::Arr(items)
        &&& items.contains(JsonView::Str(topic)) <==> all.contains(topic)
    } by {
        lemma_subscribed(all, p, topic);
    }
}

proof fn lemma_subscribed(all: Set<Seq<char>>, p: Planned, topic: Seq<char>)
    requires
        crate::bridge::server::subscription_effect(all, p),
    ensures
        p.reply matches Reply::Data(d) && field(d@, "subscribed"@) matches JsonView::Arr(items) && (
        items.contains(JsonView::Str(topic)) <==> all.contains(topic)),
{
    let v = choose|v: Seq<String>| #[trigger]
        lists(v, all) && crate::bridge::server::answers(
            p,
            JsonView::Obj(map!["subscribed"@ => texts_view(views(v))]),
        );
    let items = texts_view(views(v))->Arr_0;
    assert(field(p.reply->Data_0@, "subscribed"@) == texts_view(views(v)));
    if items.contains(JsonView::Str(topic)) {
        let i = choose|i: int| 0 <= i < items.len() && items[i] == JsonView::Str(topic);
        assert(v[i]@ == topic);
    }
    if all.contains(topic) {
        let i = choose|i: int| 0 <= i < v.len() && (#[trigger] v[i])@ == topic;
        assert(views(v)[i] == topic);
        assert(items[i] == JsonView::Str(topic));
    }
}

/// Any other operation leaves the subscription as it is.
pub proof fn law_subscription_is_kept(op: Op, has_broker: bool)
    requires
        !(op is Subscribe) && !(op is Unsubscribe),
    ensures
        forall|s: &mut Inner, subs: &mut ClientSubs, p: Planned| #[trigger]
            call_ensures(handle_op, (s, subs, has_broker, &op), p) ==> final(subs).topics@
                == subs.topics@,
{
}

/// A client gets the events that it subscribed to, unchanged, and no others;
/// and whatever it subscribed to, it is told when events were lost.
pub proof fn law_events_reach_their_subscribers(
    subs: &ClientSubs,
    ev: Event,
    n: u64,
    now_ms: i64,
    r: PumpStep,
    lagged: PumpStep,
    closed: PumpStep,
)
    requires
        call_ensures(pump, (subs, Received::Event(ev), now_ms), r),
        call_ensures(pump, (subs, Received::Lagged(n), now_ms), lagged),
        call_ensures(pump, (subs, Received::Closed, now_ms), closed),
    ensures
        subs.topics@.contains(ev.event@) ==> r == PumpStep::Write(ev),
        !subs.topics@.contains(ev.event@) ==> r is Skip,
        lagged matches PumpStep::Write(told) && told.event@ == "state"@ && told.ts == now_ms
            && field(told.data@, "lagged"@) == JsonView::Num(n as int),
        closed is Stop,
{
}

// --------------------------------------------------------------------- answers

/// Every answer carries the id of its request; one that went well carries the
/// data, and one that failed the reason.
pub proof fn law_answers_carry_their_request(
    id: &str,
    result: Result<Json, OpError>,
    r: Response,
    why: &str,
    u: Response,
)
    requires
        call_ensures(respond, (id, result), r),
        call_ensures(unparsed, (why,), u),
    ensures
        r.id@ == id@,
        r.ok <==> result is Ok,
        result matches Ok(j) ==> r.data == Some(j) && r.error is None,
        result matches Err(e) ==> r.data is None && opt_view(r.error) == Some(e.text()),
        u.id@ == "<unparsed>"@,
        !u.ok,
        u.data is None,
        opt_view(u.error) == Some("invalid request JSON: "@ + why@),
{
}

/// A heartbeat and the empty scratchpad are answered as such.
pub proof fn law_empty_answers(has_broker: bool)
    ensures
        forall|s: &mut Inner, subs: &mut ClientSubs, p: Planned| #[trigger]
            call_ensures(handle_op, (s, subs, has_broker, &Op::Noop), p) ==> (
            p.reply matches Reply::Data(d) && d@ == JsonView::Obj(Map::empty())),
        forall|s: &mut Inner, subs: &mut ClientSubs, p: Planned| #[trigger]
            call_ensures(handle_op, (s, subs, has_broker, &Op::ScratchpadList), p) ==> (
            p.reply matches Reply::Data(d) && d@ == JsonView::Arr(Seq::empty())),
{
}

/// Clients are numbered one after the other.
pub proof fn law_clients_are_numbered()
    ensures
        forall|counter: &mut u64, r: u64| #[trigger]
            call_ensures(next_client_id, (counter,), r) ==> r == *counter && (*counter < u64::MAX
                ==> *final(counter) == *counter + 1) && (*counter == u64::MAX ==> *final(counter)
                == 0),
{
}

} // verus!
