//! What the compositor's events do to the bridge's picture of it, and how
//! the event stream is read and reopened.

use std::collections::HashMap;

use vstd::prelude::*;
use vstd::string::*;

use crate::bridge::activation::{swept, token_for, ActivationBroker};
use crate::bridge::niri_event::{LineEvent, RawEvent};
use crate::bridge::proto::{topics, window_view, Event, FloatingPosition, Window, Workspace};
use crate::bridge::state::{enumerates, keys_of, Inner};
use crate::json::{opt_number, put, Json, JsonView};
use crate::text::{from_chars, opt_view, trim, trimmed};

verus! {

broadcast use vstd::std_specs::hash::group_hash_axioms;

/// A window as the compositor reports it. Positions in the scrolling layout
/// count from one; the tile size is rounded to whole pixels; the position in
/// the workspace is kept as bit patterns of doubles.
#[derive(Debug)]
pub struct NiriWindow {
    pub id: u64,
    pub title: Option<String>,
    pub app_id: Option<String>,
    pub pid: Option<i32>,
    pub workspace_id: Option<u64>,
    pub is_focused: bool,
    pub is_floating: bool,
    pub pos_in_scrolling_layout: Option<(usize, usize)>,
    pub tile_size: (i32, i32),
    pub tile_pos_in_workspace_view: Option<(u64, u64)>,
}

/// A workspace as the compositor reports it.
#[derive(Debug)]
pub struct NiriWorkspace {
    pub id: u64,
    pub idx: u8,
    pub name: Option<String>,
    pub output: Option<String>,
    pub is_focused: bool,
    pub active_window_id: Option<u64>,
}

/// The compositor's events, as far as the bridge acts on them.
#[allow(inconsistent_fields)]
#[derive(Debug)]
pub enum NiriEvent {
    WindowsChanged { windows: Vec<NiriWindow> },
    WindowOpenedOrChanged { window: NiriWindow },
    WindowClosed { id: u64 },
    WindowFocusChanged { id: Option<u64> },
    WorkspacesChanged { workspaces: Vec<NiriWorkspace> },
    WorkspaceActivated { id: u64, focused: bool },
    WorkspaceActiveWindowChanged { workspace_id: u64, active_window_id: Option<u64> },
    Other,
}

/// A position that counts from one, counted from zero; zero stays zero. Only
/// the low half of a number that is too large for the record is kept.
pub open spec fn zero_based(n: usize) -> u32 {
    #[verifier::truncate]
    ((if n > 0 {
        (n - 1) as usize
    } else {
        0usize
    }) as u32)
}

fn to_zero_based(n: usize) -> (r: u32)
    ensures
        r == zero_based(n),
{
    let m: usize = if n > 0 {
        n - 1
    } else {
        0
    };
    #[verifier::truncate]
    (m as u32)
}

/// The bridge's record of a reported window.
pub open spec fn normalized(w: NiriWindow) -> Window {
    Window {
        id: w.id,
        app_id: w.app_id,
        title: w.title,
        pid: w.pid,
        workspace_id: w.workspace_id,
        is_focused: w.is_focused,
        is_floating: w.is_floating,
        column_index: match w.pos_in_scrolling_layout {
            Some(p) => Some(zero_based(p.0)),
            None => None,
        },
        position_in_column: match w.pos_in_scrolling_layout {
            Some(p) => Some(zero_based(p.1)),
            None => None,
        },
        width: w.tile_size.0,
        height: w.tile_size.1,
        floating_position: if w.is_floating {
            match w.tile_pos_in_workspace_view {
                Some(p) => Some(FloatingPosition { x: p.0, y: p.1 }),
                None => None,
            }
        } else {
            None
        },
    }
}

/// The bridge's record of a reported workspace.
pub open spec fn normalized_workspace(w: NiriWorkspace) -> Workspace {
    Workspace {
        id: w.id,
        idx: w.idx,
        name: w.name,
        output: w.output,
        is_focused: w.is_focused,
        active_window_id: w.active_window_id,
    }
}

/// The bridge's record of a reported window.
pub fn normalize_window(w: &NiriWindow) -> (r: Window)
    ensures
        r == normalized(*w),
{
    let (column_index, position_in_column): (Option<u32>, Option<u32>) = match w.pos_in_scrolling_layout {
        Some(p) => (Some(to_zero_based(p.0)), Some(to_zero_based(p.1))),
        None => (None, None),
    };
    let floating_position = if w.is_floating {
        match w.tile_pos_in_workspace_view {
            Some(p) => Some(FloatingPosition { x: p.0, y: p.1 }),
            None => None,
        }
    } else {
        None
    };
    Window {
        id: w.id,
        app_id: w.app_id.clone(),
        title: w.title.clone(),
        pid: w.pid,
        workspace_id: w.workspace_id,
        is_focused: w.is_focused,
        is_floating: w.is_floating,
        column_index,
        position_in_column,
        width: w.tile_size.0,
        height: w.tile_size.1,
        floating_position,
    }
}

/// The bridge's record of a reported workspace.
pub fn normalize_workspace(w: &NiriWorkspace) -> (r: Workspace)
    ensures
        r == normalized_workspace(*w),
{
    Workspace {
        id: w.id,
        idx: w.idx,
        name: w.name.clone(),
        output: w.output.clone(),
        is_focused: w.is_focused,
        active_window_id: w.active_window_id,
    }
}

/// The cache that a full report stands for: of two reports with one id, the
/// later.
pub open spec fn collected_windows(s: Seq<NiriWindow>) -> Map<u64, Window>
    decreases s.len(),
{
    if s.len() == 0 {
        Map::empty()
    } else {
        collected_windows(s.drop_last()).insert(s.last().id, normalized(s.last()))
    }
}

/// The cache that a full report stands for: of two reports with one id, the
/// later.
pub open spec fn collected_workspaces(s: Seq<NiriWorkspace>) -> Map<u64, Workspace>
    decreases s.len(),
{
    if s.len() == 0 {
        Map::empty()
    } else {
        collected_workspaces(s.drop_last()).insert(s.last().id, normalized_workspace(s.last()))
    }
}

fn collect_windows(v: &Vec<NiriWindow>) -> (r: HashMap<u64, Window>)
    ensures
        r@ == collected_windows(v@),
{
    let mut r: HashMap<u64, Window> = HashMap::new();
    let mut i: usize = 0;
    while i < v.len()
        invariant
            i <= v@.len(),
            r@ == collected_windows(v@.take(i as int)),
        decreases v@.len() - i,
    {
        r.insert(v[i].id, normalize_window(&v[i]));
        i += 1;
        assert(v@.take(i as int).drop_last() =~= v@.take(i - 1));
    }
    assert(v@.take(v@.len() as int) =~= v@);
    r
}

fn collect_workspaces(v: &Vec<NiriWorkspace>) -> (r: HashMap<u64, Workspace>)
    ensures
        r@ == collected_workspaces(v@),
{
    let mut r: HashMap<u64, Workspace> = HashMap::new();
    let mut i: usize = 0;
    while i < v.len()
        invariant
            i <= v@.len(),
            r@ == collected_workspaces(v@.take(i as int)),
        decreases v@.len() - i,
    {
        r.insert(v[i].id, normalize_workspace(&v[i]));
        i += 1;
        assert(v@.take(i as int).drop_last() =~= v@.take(i - 1));
    }
    assert(v@.take(v@.len() as int) =~= v@);
    r
}

/// The id of a workspace that has the focus, and none where none has it. Of
/// several, any one.
pub open spec fn is_focused_workspace(m: Map<u64, Workspace>, r: Option<u64>) -> bool {
    match r {
        Some(id) => exists|k: u64| #[trigger]
            m.contains_key(k) && m[k].is_focused && m[k].id == id,
        None => forall|k: u64| #[trigger] m.contains_key(k) ==> !m[k].is_focused,
    }
}

fn find_focused(m: &HashMap<u64, Workspace>) -> (r: Option<u64>)
    ensures
        is_focused_workspace(m@, r),
{
    let ids = keys_of(m);
    let mut i: usize = 0;
    while i < ids.len()
        invariant
            i <= ids@.len(),
            enumerates(ids@, m@.dom()),
            forall|k: int| 0 <= k < i ==> !m@[#[trigger] ids@[k]].is_focused,
        decreases ids@.len() - i,
    {
        assert(ids@.to_set().contains(ids@[i as int]));
        match m.get(&ids[i]) {
            Some(w) => if w.is_focused {
                assert(m@.contains_key(ids@[i as int]));
                return Some(w.id);
            },
            None => {},
        }
        i += 1;
    }
    assert forall|k: u64| #[trigger] m@.contains_key(k) implies !m@[k].is_focused by {
        assert(ids@.to_set().contains(k));
        let j = choose|j: int| 0 <= j < ids@.len() && ids@[j] == k;
        assert(!m@[ids@[j]].is_focused);
    }
    None
}

/// The token to stamp onto the event of a window: that of the process that
/// the window reports. It is forgotten once it is handed out.
pub fn stamp(broker: &mut ActivationBroker, ev: &NiriEvent, now: u64) -> (r: Option<String>)
    ensures
        match *ev {
            NiriEvent::WindowOpenedOrChanged { window } => match window.pid {
                Some(pid) => {
                    &&& opt_view(r) == token_for(old(broker).pid_map@, pid, now)
                    &&& final(broker).pid_map@ == swept(old(broker).pid_map@, now).remove(pid)
                },
                None => r is None && final(broker).pid_map@ == old(broker).pid_map@,
            },
            _ => r is None && final(broker).pid_map@ == old(broker).pid_map@,
        },
{
    match ev {
        NiriEvent::WindowOpenedOrChanged { window } => match window.pid {
            Some(pid) => broker.take_token_for_pid(pid, now),
            None => None,
        },
        _ => None,
    }
}

/// The data of the event for a window that was opened or changed: its record,
/// and the token where there is one.
pub open spec fn opened_view(w: Window, token: Option<Seq<char>>) -> JsonView {
    match token {
        Some(t) => JsonView::Obj(
            map!["opened_or_changed"@ => window_view(w), "activation_token"@ => JsonView::Str(t)],
        ),
        None => JsonView::Obj(map!["opened_or_changed"@ => window_view(w)]),
    }
}

/// The data of the event for a full report.
pub open spec fn changed_all_view() -> JsonView {
    JsonView::Obj(map!["changed"@ => JsonView::Str("all"@)])
}

/// The event that is emitted: its topic, its time and its data.
pub open spec fn emits(r: Option<Event>, topic: Seq<char>, now_ms: i64, data: JsonView) -> bool {
    r matches Some(ev) && ev.event@ == topic && ev.ts == now_ms && ev.data@ == data
}

/// What an event of the compositor does to the cached state.
pub open spec fn event_effect(pre: Inner, post: Inner, ev: NiriEvent) -> bool {
    match ev {
        NiriEvent::WindowsChanged { windows } => {
            &&& post.windows@ == collected_windows(windows@)
            &&& post.focused_window == pre.focused_window
            &&& same_workspaces(pre, post)
        },
        NiriEvent::WindowOpenedOrChanged { window } => {
            &&& post.windows@ == pre.windows@.insert(window.id, normalized(window))
            &&& post.focused_window == (if window.is_focused {
                Some(window.id)
            } else {
                pre.focused_window
            })
            &&& same_workspaces(pre, post)
        },
        NiriEvent::WindowClosed { id } => {
            &&& post.windows@ == pre.windows@.remove(id)
            &&& post.focused_window == (if pre.focused_window == Some(id) {
                None
            } else {
                pre.focused_window
            })
            &&& same_workspaces(pre, post)
        },
        NiriEvent::WindowFocusChanged { id } => {
            &&& post.windows@ == pre.windows@
            &&& post.focused_window == id
            &&& same_workspaces(pre, post)
        },
        NiriEvent::WorkspacesChanged { workspaces } => {
            &&& same_windows(pre, post)
            &&& post.workspaces@ == collected_workspaces(workspaces@)
            &&& is_focused_workspace(post.workspaces@, post.focused_workspace)
        },
        NiriEvent::WorkspaceActivated { id, focused } => {
            &&& same_windows(pre, post)
            &&& post.workspaces@ == (if pre.workspaces@.contains_key(id) {
                pre.workspaces@.insert(id, (Workspace { is_focused: focused, ..pre.workspaces@[id] }))
            } else {
                pre.workspaces@
            })
            &&& post.focused_workspace == (if focused {
                Some(id)
            } else {
                pre.focused_workspace
            })
        },
        NiriEvent::WorkspaceActiveWindowChanged { workspace_id, active_window_id } => {
            &&& same_windows(pre, post)
            &&& post.workspaces@ == (if pre.workspaces@.contains_key(workspace_id) {
                pre.workspaces@.insert(
                    workspace_id,
                    (Workspace { active_window_id, ..pre.workspaces@[workspace_id] }),
                )
            } else {
                pre.workspaces@
            })
            &&& post.focused_workspace == pre.focused_workspace
        },
        NiriEvent::Other => same_windows(pre, post) && same_workspaces(pre, post),
    }
}

/// The windows and their focus are as they were.
pub open spec fn same_windows(pre: Inner, post: Inner) -> bool {
    post.windows@ == pre.windows@ && post.focused_window == pre.focused_window
}

/// The workspaces and their focus are as they were.
pub open spec fn same_workspaces(pre: Inner, post: Inner) -> bool {
    post.workspaces@ == pre.workspaces@ && post.focused_workspace == pre.focused_workspace
}

/// What the subscribers are told of an event of the compositor.
pub open spec fn event_emission(
    ev: NiriEvent,
    token: Option<Seq<char>>,
    now_ms: i64,
    r: Option<Event>,
) -> bool {
    match ev {
        NiriEvent::WindowsChanged { .. } => emits(r, topics::WINDOWS@, now_ms, changed_all_view()),
        NiriEvent::WindowOpenedOrChanged { window } => emits(
            r,
            topics::WINDOWS@,
            now_ms,
            opened_view(normalized(window), token),
        ),
        NiriEvent::WindowClosed { id } => emits(
            r,
            topics::WINDOWS@,
            now_ms,
            JsonView::Obj(map!["closed"@ => JsonView::Num(id as int)]),
        ),
        NiriEvent::WindowFocusChanged { id } => emits(
            r,
            topics::FOCUS@,
            now_ms,
            JsonView::Obj(map!["focused_window_id"@ => opt_number(id)]),
        ),
        NiriEvent::WorkspacesChanged { .. } => emits(
            r,
            topics::WORKSPACES@,
            now_ms,
            changed_all_view(),
        ),
        NiriEvent::WorkspaceActivated { id, focused } => emits(
            r,
            topics::WORKSPACES@,
            now_ms,
            JsonView::Obj(
                map!["activated"@ => JsonView::Num(id as int), "focused"@ => JsonView::Bool(focused)],
            ),
        ),
        NiriEvent::WorkspaceActiveWindowChanged { .. } => r is None,
        NiriEvent::Other => r is None,
    }
}

fn emit(topic: &str, now_ms: i64, data: Json) -> (r: Option<Event>)
    ensures
        emits(r, topic@, now_ms, data@),
{
    Some(Event { event: topic.to_owned(), ts: now_ms, data })
}

/// Takes an event of the compositor into the cache. The result is what the
/// subscribers are told.
pub fn handle_niri_event(
    state: &mut Inner,
    token: Option<String>,
    ev: NiriEvent,
    now_ms: i64,
) -> (r: Option<Event>)
    ensures
        event_effect(*old(state), *final(state), ev),
        final(state).pinned_windows == old(state).pinned_windows,
        event_emission(ev, opt_view(token), now_ms, r),
{
    match ev {
        NiriEvent::WindowsChanged { windows } => {
            state.windows = collect_windows(&windows);
            emit(topics::WINDOWS, now_ms, Json::single("changed", Json::text("all")))
        },
        NiriEvent::WindowOpenedOrChanged { window } => {
            let record = normalize_window(&window);
            let mut e: Vec<(String, Json)> = Vec::new();
            put(&mut e, "opened_or_changed", record.to_json());
            match token {
                Some(t) => put(&mut e, "activation_token", Json::Str(t)),
                None => {},
            }
            state.windows.insert(window.id, record);
            if window.is_focused {
                state.focused_window = Some(window.id);
            }
            emit(topics::WINDOWS, now_ms, Json::Obj(e))
        },
        NiriEvent::WindowClosed { id } => {
            state.windows.remove(&id);
            assert(state.windows@ =~= old(state).windows@.remove(id));
            if state.focused_window == Some(id) {
                state.focused_window = None;
            }
            emit(topics::WINDOWS, now_ms, Json::single("closed", Json::Uint(id)))
        },
        NiriEvent::WindowFocusChanged { id } => {
            state.focused_window = id;
            emit(
                topics::FOCUS,
                now_ms,
                Json::single("focused_window_id", Json::number_or_null(id)),
            )
        },
        NiriEvent::WorkspacesChanged { workspaces } => {
            state.workspaces = collect_workspaces(&workspaces);
            state.focused_workspace = find_focused(&state.workspaces);
            emit(topics::WORKSPACES, now_ms, Json::single("changed", Json::text("all")))
        },
        NiriEvent::WorkspaceActivated { id, focused } => {
            let known = match state.workspaces.get(&id) {
                Some(w) => Some(w.clone()),
                None => None,
            };
            match known {
                Some(w) => {
                    let mut w = w;
                    w.is_focused = focused;
                    state.workspaces.insert(id, w);
                },
                None => {},
            }
            if focused {
                state.focused_workspace = Some(id);
            }
            let mut e: Vec<(String, Json)> = Vec::new();
            put(&mut e, "activated", Json::Uint(id));
            put(&mut e, "focused", Json::Bool(focused));
            emit(topics::WORKSPACES, now_ms, Json::Obj(e))
        },
        NiriEvent::WorkspaceActiveWindowChanged { workspace_id, active_window_id } => {
            let known = match state.workspaces.get(&workspace_id) {
                Some(w) => Some(w.clone()),
                None => None,
            };
            match known {
                Some(w) => {
                    let mut w = w;
                    w.active_window_id = active_window_id;
                    state.workspaces.insert(workspace_id, w);
                },
                None => {},
            }
            None
        },
        NiriEvent::Other => None,
    }
}

/// The event that tells subscribers that the state is being built anew.
pub fn state_reset(now_ms: i64) -> (r: Event)
    ensures
        r.event@ == topics::STATE@,
        r.ts == now_ms,
        r.data@ == JsonView::Obj(map!["reset"@ => JsonView::Bool(true)]),
{
    Event {
        event: topics::STATE.to_owned(),
        ts: now_ms,
        data: Json::single("reset", Json::Bool(true)),
    }
}

// ---------------------------------------------------------- the event stream

/// How the compositor answered the request for its events.
#[derive(Debug)]
pub enum Ack {
    /// The connection was closed before an answer came.
    Closed,
    /// The line is no answer; `why` is the parser's complaint.
    Unparsed { line: String, why: String },
    Handled,
    /// Another answer, in words.
    Other(String),
    /// A refusal, in the compositor's words.
    Refused(String),
}

/// Why the event stream could not be opened, if it could not.
pub open spec fn ack_failure(ack: Ack) -> Option<Seq<char>> {
    match ack {
        Ack::Closed => Some("niri closed connection before EventStream ack"@),
        Ack::Unparsed { line, why } => Some(
            "parsing EventStream ack: "@ + trimmed(line@) + ": "@ + why@,
        ),
        Ack::Handled => None,
        Ack::Other(words) => Some("unexpected event-stream reply: "@ + words@),
        Ack::Refused(words) => Some("niri rejected EventStream subscription: "@ + words@),
    }
}

/// Accepts the answer that the events will come, and no other.
pub fn check_ack(ack: &Ack) -> (r: Result<(), String>)
    ensures
        match ack_failure(*ack) {
            None => r is Ok,
            Some(text) => r matches Err(e) && e@ == text,
        },
{
    match ack {
        Ack::Closed => Err("niri closed connection before EventStream ack".to_owned()),
        Ack::Unparsed { line, why } => {
            let t = trim(line.as_str());
            let mut s = "parsing EventStream ack: ".to_owned();
            s.append(from_chars(&t, 0, t.len()).as_str());
            s.append(": ");
            s.append(why.as_str());
            assert(t@.subrange(0, t@.len() as int) =~= t@);
            Err(s)
        },
        Ack::Handled => Ok(()),
        Ack::Other(words) => {
            let mut s = "unexpected event-stream reply: ".to_owned();
            s.append(words.as_str());
            Err(s)
        },
        Ack::Refused(words) => {
            let mut s = "niri rejected EventStream subscription: ".to_owned();
            s.append(words.as_str());
            Err(s)
        },
    }
}

/// What a line says in answer to the request for the events.
pub ghost enum AckKind {
    /// It is no answer; the text is the parser's complaint.
    Unparsed(Seq<char>),
    Handled,
    /// Another answer.
    Other,
    /// A refusal, in the compositor's words.
    Refused(Seq<char>),
}

/// What `serde_json` and `niri_ipc` read in a line.
pub uninterp spec fn ack_kind(line: Seq<char>) -> AckKind;

/// `serde_json::from_str` into a `niri_ipc::Reply`: the answer that stands in
/// a line. What kind of answer it is depends on the line alone, and so do the
/// parser's complaint and the words of a refusal. The words for another answer
/// are left open: one such answer is a hash map, which is printed in any order.
#[verifier::external_body]
fn read_ack(line: &str) -> (r: Ack)
    ensures
        match ack_kind(line@) {
            AckKind::Unparsed(w) => r matches Ack::Unparsed { line: l, why } && l@ == line@ && why@
                == w,
            AckKind::Handled => r is Handled,
            AckKind::Other => r is Other,
            AckKind::Refused(w) => r matches Ack::Refused(words) && words@ == w,
        },
{
    match serde_json::from_str::<niri_ipc::Reply>(line) {
        Ok(Ok(niri_ipc::Response::Handled)) => Ack::Handled,
        Ok(Ok(other)) => Ack::Other(format!("{other:?}")),
        Ok(Err(words)) => Ack::Refused(words),
        Err(e) => Ack::Unparsed { line: line.to_owned(), why: e.to_string() },
    }
}

/// Reads the line that answers the request for the events, and accepts the
/// answer that they will come, and no other.
pub fn check_ack_line(line: &str) -> (r: Result<(), String>)
    ensures
        match ack_kind(line@) {
            AckKind::Unparsed(w) => r matches Err(e) && e@ == "parsing EventStream ack: "@
                + trimmed(line@) + ": "@ + w,
            AckKind::Handled => r is Ok,
            AckKind::Other => r matches Err(e) && exists|words: Seq<char>|
                e@ == #[trigger] ("unexpected event-stream reply: "@ + words),
            AckKind::Refused(w) => r matches Err(e) && e@
                == "niri rejected EventStream subscription: "@ + w,
        },
{
    check_ack(&read_ack(line))
}

/// `serde_json::to_string` of `niri_ipc::Request::EventStream`: the variant's
/// name between quotes, which is how a variant without fields is written.
/// Writing it does not fail.
#[verifier::external_body]
fn encode_event_stream() -> (r: String)
    ensures
        r@ == "\"EventStream\""@,
{
    serde_json::to_string(&niri_ipc::Request::EventStream).unwrap()
}

/// The line that asks the compositor for its events.
pub fn event_stream_request() -> (r: String)
    ensures
        r@ == "\"EventStream\""@ + "\n"@,
{
    let mut s = encode_event_stream();
    s.append("\n");
    s
}

/// What reading one line of the event stream gave.
#[derive(Debug)]
pub enum LineRead {
    /// The stream ended.
    Eof,
    /// Reading failed.
    Failed(String),
    /// A line.
    Line(LineEvent),
}

/// What is done about it.
#[derive(Debug)]
pub enum ReadStep {
    /// Read on.
    Next,
    /// Hand the event on, and read on.
    Deliver(RawEvent),
    /// The stream is over.
    End,
    /// The stream is broken.
    Fail(String),
}

/// Counts what the stream gave.
#[derive(Debug)]
pub struct StreamReader {
    pub events_read: u64,
    pub events_skipped: u64,
}

impl StreamReader {
    /// Nothing was read.
    pub fn new() -> (r: Self)
        ensures
            r.events_read == 0,
            r.events_skipped == 0,
    {
        StreamReader { events_read: 0, events_skipped: 0 }
    }

    /// Decides about a line. What is not recognized is counted and skipped;
    /// the events after it still arrive.
    pub fn on_line(&mut self, line: LineRead) -> (r: ReadStep)
        requires
            line matches LineRead::Line(LineEvent::Event(_)) ==> old(self).events_read < u64::MAX,
            line matches LineRead::Line(LineEvent::Unrecognized(_)) ==> old(self).events_skipped
                < u64::MAX,
        ensures
            final(self).events_read == old(self).events_read + (match line {
                LineRead::Line(LineEvent::Event(_)) => 1int,
                _ => 0,
            }),
            final(self).events_skipped == old(self).events_skipped + (match line {
                LineRead::Line(LineEvent::Unrecognized(_)) => 1int,
                _ => 0,
            }),
            match line {
                LineRead::Eof => r is End,
                LineRead::Failed(words) => r matches ReadStep::Fail(text) && text@
                    == "read_line: "@ + words@,
                LineRead::Line(LineEvent::Blank) => r is Next,
                LineRead::Line(LineEvent::Unrecognized(_)) => r is Next,
                LineRead::Line(LineEvent::Event(e)) => r == ReadStep::Deliver(e),
            },
    {
        match line {
            LineRead::Eof => ReadStep::End,
            LineRead::Failed(words) => {
                let mut s = "read_line: ".to_owned();
                s.append(words.as_str());
                ReadStep::Fail(s)
            },
            LineRead::Line(LineEvent::Blank) => ReadStep::Next,
            LineRead::Line(LineEvent::Unrecognized(_)) => {
                self.events_skipped = self.events_skipped + 1;
                ReadStep::Next
            },
            LineRead::Line(LineEvent::Event(e)) => {
                self.events_read = self.events_read + 1;
                ReadStep::Deliver(e)
            },
        }
    }
}

/// The seconds to wait after so many failures in a row.
pub open spec fn delay_after(failures: int) -> u64 {
    if failures <= 0 {
        1
    } else if failures == 1 {
        2
    } else if failures == 2 {
        4
    } else {
        5
    }
}

/// How often in a row the event stream could not be opened.
#[derive(Debug)]
pub struct Backoff {
    pub attempt: u32,
}

impl Backoff {
    /// Nothing failed yet.
    pub fn new() -> (r: Self)
        ensures
            r.attempt == 0,
    {
        Backoff { attempt: 0 }
    }

    /// Takes whether the stream was opened before it ended. The result is the
    /// number of seconds to wait before it is opened again.
    pub fn next_delay(&mut self, opened: bool) -> (r: u64)
        ensures
            final(self).attempt == (if opened {
                0
            } else if old(self).attempt == u32::MAX {
                u32::MAX as int
            } else {
                old(self).attempt + 1
            }),
            r == delay_after(final(self).attempt as int),
    {
        if opened {
            self.attempt = 0;
        } else {
            self.attempt = self.attempt.saturating_add(1);
        }
        let shift: u32 = if self.attempt < 3 {
            self.attempt
        } else {
            3
        };
        let base: u64 = 1u64 << shift;
        proof {
            assert(1u64 << 0u32 == 1) by (bit_vector);
            assert(1u64 << 1u32 == 2) by (bit_vector);
            assert(1u64 << 2u32 == 4) by (bit_vector);
            assert(1u64 << 3u32 == 8) by (bit_vector);
        }
        if base < 5 {
            base
        } else {
            5
        }
    }
}

// ---------------------------------------------------------------------- laws

proof fn lemma_collected_windows(s: Seq<NiriWindow>)
    ensures
        forall|id: u64| #[trigger]
            collected_windows(s).contains_key(id) ==> collected_windows(s)[id].id == id,
    decreases s.len(),
{
    if s.len() > 0 {
        lemma_collected_windows(s.drop_last());
    }
}

proof fn lemma_collected_workspaces(s: Seq<NiriWorkspace>)
    ensures
        forall|id: u64| #[trigger]
            collected_workspaces(s).contains_key(id) ==> collected_workspaces(s)[id].id == id,
    decreases s.len(),
{
    if s.len() > 0 {
        lemma_collected_workspaces(s.drop_last());
    }
}

/// Every event keeps each record under its own id.
pub proof fn law_events_keep_ids(pre: Inner, post: Inner, ev: NiriEvent)
    requires
        pre.wf(),
        event_effect(pre, post, ev),
    ensures
        post.wf(),
{
    match ev {
        NiriEvent::WindowsChanged { windows } => {
            lemma_collected_windows(windows@);
        },
        NiriEvent::WorkspacesChanged { workspaces } => {
            lemma_collected_workspaces(workspaces@);
        },
        _ => {},
    }
}

/// A full report replaces everything that was cached: what the cache holds
/// after it does not depend on what it held before.
pub proof fn law_full_report_is_authoritative(
    one: Inner,
    other: Inner,
    after_one: Inner,
    after_other: Inner,
    windows: Vec<NiriWindow>,
)
    requires
        event_effect(one, after_one, NiriEvent::WindowsChanged { windows }),
        event_effect(other, after_other, NiriEvent::WindowsChanged { windows }),
    ensures
        after_one.windows@ == after_other.windows@,
{
}

/// A window that was closed is no longer cached and no longer has the focus.
pub proof fn law_closed_window_is_gone(pre: Inner, post: Inner, id: u64)
    requires
        event_effect(pre, post, NiriEvent::WindowClosed { id }),
    ensures
        !post.windows@.contains_key(id),
        post.focused_window != Some(id),
        forall|other: u64| #[trigger]
            pre.windows@.contains_key(other) && other != id ==> post.windows@.contains_key(other)
                && post.windows@[other] == pre.windows@[other],
{
}

/// The waits never shrink while the failures go on, and stay within five
/// seconds.
pub proof fn law_backoff_grows_to_its_cap(fewer: int, more: int)
    requires
        fewer <= more,
    ensures
        1 <= delay_after(fewer) <= delay_after(more) <= 5,
{
}

} // verus!
