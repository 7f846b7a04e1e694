//! Wire protocol between the bridge and its clients.
//!
//! Framing: one JSON object per line on the Unix socket, no length prefix.
//! The records here are narrower than the compositor's own, so that a change
//! there is absorbed by the bridge and clients keep working.

pub mod topics;

use vstd::prelude::*;
use vstd::string::*;

use crate::json::{field, has_field, opt_number, opt_text, put, Json, JsonView};
use crate::text::opt_view;

verus! {

/// Client to bridge.
#[derive(Debug)]
pub struct Request {
    /// Chosen by the client; the bridge echoes it in the matching response.
    pub id: String,
    pub op: Op,
}

/// Bridge to client: the answer to a request, or an event that was fanned
/// out.
#[derive(Debug)]
pub enum ServerMessage {
    Response(Response),
    Event(Event),
}

/// The answer to one request.
#[derive(Debug)]
pub struct Response {
    pub id: String,
    pub ok: bool,
    pub data: Option<Json>,
    pub error: Option<String>,
}

impl Response {
    /// The answer to a request that was carried out.
    pub fn ok(id: &str, data: Json) -> (r: Self)
        ensures
            r.id@ == id@,
            r.ok,
            r.data == Some(data),
            r.error is None,
    {
        Response { id: id.to_owned(), ok: true, data: Some(data), error: None }
    }

    /// The answer to a request that was refused or failed.
    pub fn err(id: &str, error: &str) -> (r: Self)
        ensures
            r.id@ == id@,
            !r.ok,
            r.data is None,
            opt_view(r.error) == Some(error@),
    {
        Response { id: id.to_owned(), ok: false, data: None, error: Some(error.to_owned()) }
    }
}

/// The operations that the bridge accepts.
#[derive(Debug)]
pub enum Op {
    WindowsList,
    WindowsGet { id: u64 },
    WorkspacesList,
    WorkspacesFocused,
    /// Windows, workspaces and focus in one round-trip.
    StateSnapshot,
    WindowFocus { id: u64 },
    WindowClose { id: u64 },
    WindowMoveToWorkspace { id: u64, workspace: WorkspaceRef },
    WindowToggleFloating { id: u64 },
    /// `index` counts from zero, as `Window::column_index` does.
    WindowMoveColumnToIndex { id: u64, index: u32 },
    WindowSetSize { id: u64, w: i32, h: i32 },
    /// `x` and `y` are bit patterns of doubles.
    WindowSetFloatingPosition { id: u64, x: u64, y: u64 },
    PinAdd { window_id: u64 },
    PinRemove { window_id: u64 },
    PinToggle { window_id: u64 },
    PinOff,
    PinList,
    ScratchpadList,
    Spawn { argv: Vec<String>, env: Vec<(String, String)>, request_activation_token: bool },
    Subscribe { topics: Vec<String> },
    Unsubscribe { topics: Vec<String> },
    /// A heartbeat: clients use it to detect a dead bridge.
    Noop,
}

/// Bridge to client, fanned out; the topic tells what `data` holds.
#[derive(Debug)]
pub struct Event {
    pub event: String,
    /// Milliseconds since the epoch, at the time of emission.
    pub ts: i64,
    pub data: Json,
}

impl Clone for Event {
    fn clone(&self) -> (r: Self)
        ensures
            r.event == self.event,
            r.ts == self.ts,
            r.data@ == self.data@,
    {
        Event { event: self.event.clone(), ts: self.ts, data: self.data.clone() }
    }
}

/// A position of a floating window: bit patterns of two doubles.
#[derive(Debug, Clone, Copy, PartialEq, Eq, Structural)]
pub struct FloatingPosition {
    pub x: u64,
    pub y: u64,
}

/// The bridge's record of a window.
#[derive(Debug)]
pub struct Window {
    pub id: u64,
    pub app_id: Option<String>,
    pub title: Option<String>,
    pub pid: Option<i32>,
    pub workspace_id: Option<u64>,
    pub is_focused: bool,
    pub is_floating: bool,
    /// Column in the scrolling layout, from zero.
    pub column_index: Option<u32>,
    /// Tile within the column, from zero.
    pub position_in_column: Option<u32>,
    pub width: i32,
    pub height: i32,
    pub floating_position: Option<FloatingPosition>,
}

impl Clone for Window {
    fn clone(&self) -> (r: Self)
        ensures
            r == *self,
    {
        Window {
            id: self.id,
            app_id: self.app_id.clone(),
            title: self.title.clone(),
            pid: self.pid,
            workspace_id: self.workspace_id,
            is_focused: self.is_focused,
            is_floating: self.is_floating,
            column_index: self.column_index,
            position_in_column: self.position_in_column,
            width: self.width,
            height: self.height,
            floating_position: self.floating_position,
        }
    }
}

/// The bridge's record of a workspace.
#[derive(Debug)]
pub struct Workspace {
    pub id: u64,
    pub idx: u8,
    pub name: Option<String>,
    pub output: Option<String>,
    pub is_focused: bool,
    pub active_window_id: Option<u64>,
}

impl Clone for Workspace {
    fn clone(&self) -> (r: Self)
        ensures
            r == *self,
    {
        Workspace {
            id: self.id,
            idx: self.idx,
            name: self.name.clone(),
            output: self.output.clone(),
            is_focused: self.is_focused,
            active_window_id: self.active_window_id,
        }
    }
}

/// A workspace by id (stable while it lives), by index (from one, as in key
/// bindings) or by name.
#[derive(Debug)]
pub enum WorkspaceRef {
    Id { id: u64 },
    Idx { idx: u8 },
    Name { name: String },
}

impl Clone for WorkspaceRef {
    fn clone(&self) -> (r: Self)
        ensures
            r == *self,
    {
        match self {
            WorkspaceRef::Id { id } => WorkspaceRef::Id { id: *id },
            WorkspaceRef::Idx { idx } => WorkspaceRef::Idx { idx: *idx },
            WorkspaceRef::Name { name } => WorkspaceRef::Name { name: name.clone() },
        }
    }
}

/// The JSON form of an optional small number.
pub open spec fn opt_small(o: Option<u32>) -> JsonView {
    match o {
        Some(n) => JsonView::Num(n as int),
        None => JsonView::Null,
    }
}

/// The JSON form of an optional process id.
pub open spec fn opt_pid(o: Option<i32>) -> JsonView {
    match o {
        Some(n) => JsonView::Num(n as int),
        None => JsonView::Null,
    }
}

/// The JSON form of an optional position.
pub open spec fn opt_position(o: Option<FloatingPosition>) -> JsonView {
    match o {
        Some(p) => JsonView::Obj(
            map!["x"@ => JsonView::Float(p.x), "y"@ => JsonView::Float(p.y)],
        ),
        None => JsonView::Null,
    }
}

/// The JSON form of a window record.
pub open spec fn window_view(w: Window) -> JsonView {
    JsonView::Obj(
        map![
            "id"@ => JsonView::Num(w.id as int),
            "app_id"@ => opt_text(opt_view(w.app_id)),
            "title"@ => opt_text(opt_view(w.title)),
            "pid"@ => opt_pid(w.pid),
            "workspace_id"@ => opt_number(w.workspace_id),
            "is_focused"@ => JsonView::Bool(w.is_focused),
            "is_floating"@ => JsonView::Bool(w.is_floating),
            "column_index"@ => opt_small(w.column_index),
            "position_in_column"@ => opt_small(w.position_in_column),
            "width"@ => JsonView::Num(w.width as int),
            "height"@ => JsonView::Num(w.height as int),
            "floating_position"@ => opt_position(w.floating_position),
        ],
    )
}

/// The JSON form of a workspace record.
pub open spec fn workspace_view(w: Workspace) -> JsonView {
    JsonView::Obj(
        map![
            "id"@ => JsonView::Num(w.id as int),
            "idx"@ => JsonView::Num(w.idx as int),
            "name"@ => opt_text(opt_view(w.name)),
            "output"@ => opt_text(opt_view(w.output)),
            "is_focused"@ => JsonView::Bool(w.is_focused),
            "active_window_id"@ => opt_number(w.active_window_id),
        ],
    )
}

fn small_or_null(n: Option<u32>) -> (r: Json)
    ensures
        r@ == opt_small(n),
{
    match n {
        Some(n) => Json::Uint(n as u64),
        None => Json::Null,
    }
}

impl Window {
    /// The record's JSON form.
    pub fn to_json(&self) -> (r: Json)
        ensures
            r@ == window_view(*self),
    {
        let mut e: Vec<(String, Json)> = Vec::new();
        put(&mut e, "id", Json::Uint(self.id));
        put(&mut e, "app_id", Json::text_or_null(&self.app_id));
        put(&mut e, "title", Json::text_or_null(&self.title));
        let pid = match self.pid {
            Some(p) => Json::signed(p),
            None => Json::Null,
        };
        put(&mut e, "pid", pid);
        put(&mut e, "workspace_id", Json::number_or_null(self.workspace_id));
        put(&mut e, "is_focused", Json::Bool(self.is_focused));
        put(&mut e, "is_floating", Json::Bool(self.is_floating));
        put(&mut e, "column_index", small_or_null(self.column_index));
        put(&mut e, "position_in_column", small_or_null(self.position_in_column));
        put(&mut e, "width", Json::signed(self.width));
        put(&mut e, "height", Json::signed(self.height));
        let position = match self.floating_position {
            Some(p) => {
                let mut xy: Vec<(String, Json)> = Vec::new();
                put(&mut xy, "x", Json::Float(p.x));
                put(&mut xy, "y", Json::Float(p.y));
                Json::Obj(xy)
            },
            None => Json::Null,
        };
        put(&mut e, "floating_position", position);
        Json::Obj(e)
    }
}

impl Workspace {
    /// The record's JSON form.
    pub fn to_json(&self) -> (r: Json)
        ensures
            r@ == workspace_view(*self),
    {
        let mut e: Vec<(String, Json)> = Vec::new();
        put(&mut e, "id", Json::Uint(self.id));
        put(&mut e, "idx", Json::Uint(self.idx as u64));
        put(&mut e, "name", Json::text_or_null(&self.name));
        put(&mut e, "output", Json::text_or_null(&self.output));
        put(&mut e, "is_focused", Json::Bool(self.is_focused));
        put(&mut e, "active_window_id", Json::number_or_null(self.active_window_id));
        Json::Obj(e)
    }
}

/// A window record's JSON form is read back as it was meant.
pub proof fn lemma_window_fields(w: Window)
    ensures
        has_field(window_view(w), "id"@),
        field(window_view(w), "id"@) == JsonView::Num(w.id as int),
        field(window_view(w), "app_id"@) == opt_text(opt_view(w.app_id)),
        field(window_view(w), "title"@) == opt_text(opt_view(w.title)),
        field(window_view(w), "pid"@) == opt_pid(w.pid),
        field(window_view(w), "workspace_id"@) == opt_number(w.workspace_id),
        field(window_view(w), "is_focused"@) == JsonView::Bool(w.is_focused),
        field(window_view(w), "is_floating"@) == JsonView::Bool(w.is_floating),
        field(window_view(w), "column_index"@) == opt_small(w.column_index),
        field(window_view(w), "position_in_column"@) == opt_small(w.position_in_column),
        field(window_view(w), "width"@) == JsonView::Num(w.width as int),
        field(window_view(w), "height"@) == JsonView::Num(w.height as int),
        field(window_view(w), "floating_position"@) == opt_position(w.floating_position),
{
    reveal_strlit("id");
    reveal_strlit("app_id");
    reveal_strlit("title");
    reveal_strlit("pid");
    reveal_strlit("workspace_id");
    reveal_strlit("is_focused");
    reveal_strlit("is_floating");
    reveal_strlit("column_index");
    reveal_strlit("position_in_column");
    reveal_strlit("width");
    reveal_strlit("height");
    reveal_strlit("floating_position");
    assert("id"@.len() == 2);
    assert("app_id"@.len() == 6);
    assert("title"@.len() == 5);
    assert("pid"@.len() == 3);
    assert("workspace_id"@.len() == 12);
    assert("is_focused"@.len() == 10);
    assert("is_floating"@.len() == 11);
    assert("column_index"@.len() == 12);
    assert("position_in_column"@.len() == 18);
    assert("width"@.len() == 5);
    assert("height"@.len() == 6);
    assert("floating_position"@.len() == 17);
    assert("column_index"@[0] != "workspace_id"@[0]);
    assert("app_id"@[0] != "height"@[0]);
    assert("title"@[0] != "width"@[0]);
}

} // verus!
