//! The lines of the compositor's event stream: which of them are events, and
//! what these say.

use niri_ipc::Event;
use vstd::prelude::*;
use vstd::string::*;

use crate::bridge::niri_conn::{NiriEvent, NiriWindow, NiriWorkspace};
use crate::text::{all_space, is_blank, opt_view};

verus! {

// ------------------------------------------------------------ what events say

/// A window as an event reports it. Sizes and positions are kept as bit
/// patterns of doubles.
#[derive(Debug)]
pub struct RawWindow {
    pub id: u64,
    pub title: Option<String>,
    pub app_id: Option<String>,
    pub pid: Option<i32>,
    pub workspace_id: Option<u64>,
    pub is_focused: bool,
    pub is_floating: bool,
    pub pos_in_scrolling_layout: Option<(usize, usize)>,
    pub tile_size: (u64, u64),
    pub tile_pos_in_workspace_view: Option<(u64, u64)>,
}

/// An event, as far as the bridge acts on it.
#[allow(inconsistent_fields)]
#[derive(Debug)]
pub enum RawEvent {
    WindowsChanged { windows: Vec<RawWindow> },
    WindowOpenedOrChanged { window: RawWindow },
    WindowClosed { id: u64 },
    WindowFocusChanged { id: Option<u64> },
    WorkspacesChanged { workspaces: Vec<NiriWorkspace> },
    WorkspaceActivated { id: u64, focused: bool },
    WorkspaceActiveWindowChanged { workspace_id: u64, active_window_id: Option<u64> },
    Other,
}

/// What is reported of a window.
pub ghost struct RawWindowView {
    pub id: u64,
    pub title: Option<Seq<char>>,
    pub app_id: Option<Seq<char>>,
    pub pid: Option<i32>,
    pub workspace_id: Option<u64>,
    pub is_focused: bool,
    pub is_floating: bool,
    pub pos_in_scrolling_layout: Option<(usize, usize)>,
    pub tile_size: (u64, u64),
    pub tile_pos_in_workspace_view: Option<(u64, u64)>,
}

/// What is reported of a workspace.
pub ghost struct WorkspaceView {
    pub id: u64,
    pub idx: u8,
    pub name: Option<Seq<char>>,
    pub output: Option<Seq<char>>,
    pub is_focused: bool,
    pub active_window_id: Option<u64>,
}

/// What an event says.
#[allow(inconsistent_fields)]
pub ghost enum RawEventView {
    WindowsChanged { windows: Seq<RawWindowView> },
    WindowOpenedOrChanged { window: RawWindowView },
    WindowClosed { id: u64 },
    WindowFocusChanged { id: Option<u64> },
    WorkspacesChanged { workspaces: Seq<WorkspaceView> },
    WorkspaceActivated { id: u64, focused: bool },
    WorkspaceActiveWindowChanged { workspace_id: u64, active_window_id: Option<u64> },
    Other,
}

/// What is reported of a window.
pub open spec fn raw_window_view(w: RawWindow) -> RawWindowView {
    RawWindowView {
        id: w.id,
        title: opt_view(w.title),
        app_id: opt_view(w.app_id),
        pid: w.pid,
        workspace_id: w.workspace_id,
        is_focused: w.is_focused,
        is_floating: w.is_floating,
        pos_in_scrolling_layout: w.pos_in_scrolling_layout,
        tile_size: w.tile_size,
        tile_pos_in_workspace_view: w.tile_pos_in_workspace_view,
    }
}

/// What is reported of a workspace.
pub open spec fn workspace_view(w: NiriWorkspace) -> WorkspaceView {
    WorkspaceView {
        id: w.id,
        idx: w.idx,
        name: opt_view(w.name),
        output: opt_view(w.output),
        is_focused: w.is_focused,
        active_window_id: w.active_window_id,
    }
}

/// What an event says.
pub open spec fn raw_event_view(e: RawEvent) -> RawEventView {
    match e {
        RawEvent::WindowsChanged { windows } => RawEventView::WindowsChanged {
            windows: windows@.map_values(|w: RawWindow| raw_window_view(w)),
        },
        RawEvent::WindowOpenedOrChanged { window } => RawEventView::WindowOpenedOrChanged {
            window: raw_window_view(window),
        },
        RawEvent::WindowClosed { id } => RawEventView::WindowClosed { id },
        RawEvent::WindowFocusChanged { id } => RawEventView::WindowFocusChanged { id },
        RawEvent::WorkspacesChanged { workspaces } => RawEventView::WorkspacesChanged {
            workspaces: workspaces@.map_values(|w: NiriWorkspace| workspace_view(w)),
        },
        RawEvent::WorkspaceActivated { id, focused } => RawEventView::WorkspaceActivated {
            id,
            focused,
        },
        RawEvent::WorkspaceActiveWindowChanged {
            workspace_id,
            active_window_id,
        } => RawEventView::WorkspaceActiveWindowChanged { workspace_id, active_window_id },
        RawEvent::Other => RawEventView::Other,
    }
}

// ------------------------------------------------------------- reading a line

/// The event about the records of windows that `serde_json` and `niri_ipc`
/// read in a line, if it is one.
pub uninterp spec fn window_event(line: Seq<char>) -> Option<RawEventView>;

/// What `serde_json` and `niri_ipc` read in a line that holds no windows: the
/// event, or the parser's complaint.
pub uninterp spec fn other_event(line: Seq<char>) -> Result<RawEventView, Seq<char>>;

/// The event that stands in a line, or the parser's complaint.
pub open spec fn line_event(line: Seq<char>) -> Result<RawEventView, Seq<char>> {
    match window_event(line) {
        Some(e) => Ok(e),
        None => other_event(line),
    }
}

/// `serde_json::from_str` into a `niri_ipc::Event`, as far as it gives one of
/// the two events that hold windows: the event, with its fields as they are and
/// doubles by `to_bits`. It depends on the line alone. Which lines are such
/// events, and what they say, is not stated.
#[verifier::external_body]
fn read_window_event(line: &str) -> (r: Option<RawEvent>)
    ensures
        match r {
            Some(e) => window_event(line@) == Some(raw_event_view(e)),
            None => window_event(line@) is None,
        },
{
    let read = |w: niri_ipc::Window| RawWindow {
        id: w.id, title: w.title, app_id: w.app_id, pid: w.pid, workspace_id: w.workspace_id,
        is_focused: w.is_focused, is_floating: w.is_floating,
        pos_in_scrolling_layout: w.layout.pos_in_scrolling_layout,
        tile_size: (w.layout.tile_size.0.to_bits(), w.layout.tile_size.1.to_bits()),
        tile_pos_in_workspace_view:
            w.layout.tile_pos_in_workspace_view.map(|(x, y)| (x.to_bits(), y.to_bits())),
    };
    match serde_json::from_str(line) {
        Ok(Event::WindowsChanged { windows: v }) =>
            Some(RawEvent::WindowsChanged { windows: v.into_iter().map(read).collect() }),
        Ok(Event::WindowOpenedOrChanged { window }) =>
            Some(RawEvent::WindowOpenedOrChanged { window: read(window) }),
        _ => None,
    }
}

/// `serde_json::from_str` into a `niri_ipc::Event`, as far as it gives an event
/// that holds no windows: the event, with its fields as they are, or the
/// parser's complaint. Every event that is not told apart here is `Other`, those
/// that hold windows among them. The result depends on the line alone. Which
/// lines are events, and what they say, is not stated.
#[verifier::external_body]
fn read_other_event(line: &str) -> (r: Result<RawEvent, String>)
    ensures
        match r {
            Ok(e) => other_event(line@) == Ok::<RawEventView, Seq<char>>(raw_event_view(e)),
            Err(why) => other_event(line@) == Err::<RawEventView, Seq<char>>(why@),
        },
{
    let read = |niri_ipc::Workspace { id, idx, name, output, is_focused, active_window_id, .. }|
        NiriWorkspace { id, idx, name, output, is_focused, active_window_id };
    let event: Event = serde_json::from_str(line).map_err(|e| e.to_string())?;
    Ok(match event {
        Event::WindowClosed { id } => RawEvent::WindowClosed { id },
        Event::WindowFocusChanged { id } => RawEvent::WindowFocusChanged { id },
        Event::WorkspacesChanged { workspaces } =>
            RawEvent::WorkspacesChanged { workspaces: workspaces.into_iter().map(read).collect() },
        Event::WorkspaceActivated { id, focused } => RawEvent::WorkspaceActivated { id, focused },
        Event::WorkspaceActiveWindowChanged { workspace_id, active_window_id } =>
            RawEvent::WorkspaceActiveWindowChanged { workspace_id, active_window_id },
        _ => RawEvent::Other,
    })
}

fn read_event(line: &str) -> (r: Result<RawEvent, String>)
    ensures
        match r {
            Ok(e) => line_event(line@) == Ok::<RawEventView, Seq<char>>(raw_event_view(e)),
            Err(why) => line_event(line@) == Err::<RawEventView, Seq<char>>(why@),
        },
{
    match read_window_event(line) {
        Some(e) => Ok(e),
        None => read_other_event(line),
    }
}

/// What a line of the event stream is.
#[derive(Debug)]
pub enum LineEvent {
    /// Only whitespace.
    Blank,
    /// Something that is not known, with the parser's complaint: the
    /// compositor may be newer.
    Unrecognized(String),
    Event(RawEvent),
}

/// Reads a line of the event stream.
pub fn read_event_line(line: &str) -> (r: LineEvent)
    ensures
        match r {
            LineEvent::Blank => all_space(line@),
            LineEvent::Unrecognized(why) => !all_space(line@) && line_event(line@) == Err::<
                RawEventView,
                Seq<char>,
            >(why@),
            LineEvent::Event(e) => !all_space(line@) && line_event(line@) == Ok::<
                RawEventView,
                Seq<char>,
            >(raw_event_view(e)),
        },
{
    if is_blank(line) {
        return LineEvent::Blank;
    }
    match read_event(line) {
        Ok(e) => LineEvent::Event(e),
        Err(why) => LineEvent::Unrecognized(why),
    }
}

// -------------------------------------------------------------- rounded sizes

/// The windows that an event reports.
pub open spec fn reported_windows(e: RawEvent) -> Seq<RawWindow> {
    match e {
        RawEvent::WindowsChanged { windows } => windows@,
        RawEvent::WindowOpenedOrChanged { window } => seq![window],
        _ => Seq::empty(),
    }
}

/// A reported window, with its tile size rounded to whole pixels.
pub open spec fn sized_window(w: RawWindow, size: (i32, i32)) -> NiriWindow {
    NiriWindow {
        id: w.id,
        title: w.title,
        app_id: w.app_id,
        pid: w.pid,
        workspace_id: w.workspace_id,
        is_focused: w.is_focused,
        is_floating: w.is_floating,
        pos_in_scrolling_layout: w.pos_in_scrolling_layout,
        tile_size: size,
        tile_pos_in_workspace_view: w.tile_pos_in_workspace_view,
    }
}

/// `ev` says what was reported, with the sizes in place of the reported ones.
pub open spec fn is_sized(ev: NiriEvent, raw: RawEvent, sizes: Seq<(i32, i32)>) -> bool {
    match raw {
        RawEvent::WindowsChanged { windows } => ev matches NiriEvent::WindowsChanged { windows: v }
            && v@ == Seq::new(windows@.len(), |i: int| sized_window(windows@[i], sizes[i])),
        RawEvent::WindowOpenedOrChanged { window } => ev == (NiriEvent::WindowOpenedOrChanged {
            window: sized_window(window, sizes[0]),
        }),
        RawEvent::WindowClosed { id } => ev == (NiriEvent::WindowClosed { id }),
        RawEvent::WindowFocusChanged { id } => ev == (NiriEvent::WindowFocusChanged { id }),
        RawEvent::WorkspacesChanged { workspaces } => ev == (NiriEvent::WorkspacesChanged {
            workspaces,
        }),
        RawEvent::WorkspaceActivated { id, focused } => ev == (NiriEvent::WorkspaceActivated {
            id,
            focused,
        }),
        RawEvent::WorkspaceActiveWindowChanged { workspace_id, active_window_id } => ev == (
        NiriEvent::WorkspaceActiveWindowChanged { workspace_id, active_window_id }),
        RawEvent::Other => ev is Other,
    }
}

impl RawEvent {
    /// The tile sizes of the windows that the event reports, as bit patterns
    /// of doubles.
    pub fn tile_sizes(&self) -> (r: Vec<(u64, u64)>)
        ensures
            r@ == reported_windows(*self).map_values(|w: RawWindow| w.tile_size),
    {
        let mut r: Vec<(u64, u64)> = Vec::new();
        match self {
            RawEvent::WindowsChanged { windows } => {
                let mut i: usize = 0;
                while i < windows.len()
                    invariant
                        i <= windows@.len(),
                        r@.len() == i,
                        forall|j: int| 0 <= j < i ==> #[trigger] r@[j] == windows@[j].tile_size,
                    decreases windows@.len() - i,
                {
                    r.push(windows[i].tile_size);
                    i += 1;
                }
            },
            RawEvent::WindowOpenedOrChanged { window } => {
                r.push(window.tile_size);
            },
            _ => {},
        }
        assert(r@ =~= reported_windows(*self).map_values(|w: RawWindow| w.tile_size));
        r
    }
}

fn size_window(w: &RawWindow, size: (i32, i32)) -> (r: NiriWindow)
    ensures
        r == sized_window(*w, size),
{
    NiriWindow {
        id: w.id,
        title: w.title.clone(),
        app_id: w.app_id.clone(),
        pid: w.pid,
        workspace_id: w.workspace_id,
        is_focused: w.is_focused,
        is_floating: w.is_floating,
        pos_in_scrolling_layout: w.pos_in_scrolling_layout,
        tile_size: size,
        tile_pos_in_workspace_view: w.tile_pos_in_workspace_view,
    }
}

/// The event that the bridge acts on: what was reported, with the rounded
/// tile size of each window that is reported, in order.
pub fn niri_event(raw: RawEvent, sizes: &Vec<(i32, i32)>) -> (r: NiriEvent)
    requires
        sizes@.len() == reported_windows(raw).len(),
    ensures
        is_sized(r, raw, sizes@),
{
    match raw {
        RawEvent::WindowsChanged { windows } => {
            let mut v: Vec<NiriWindow> = Vec::new();
            let mut i: usize = 0;
            while i < windows.len()
                invariant
                    i <= windows@.len(),
                    sizes@.len() == windows@.len(),
                    v@.len() == i,
                    forall|j: int|
                        0 <= j < i ==> #[trigger] v@[j] == sized_window(windows@[j], sizes@[j]),
                decreases windows@.len() - i,
            {
                v.push(size_window(&windows[i], sizes[i]));
                i += 1;
            }
            assert(v@ =~= Seq::new(
                windows@.len(),
                |i: int| sized_window(windows@[i], sizes@[i]),
            ));
            NiriEvent::WindowsChanged { windows: v }
        },
        RawEvent::WindowOpenedOrChanged { window } => NiriEvent::WindowOpenedOrChanged {
            window: size_window(&window, sizes[0]),
        },
        RawEvent::WindowClosed { id } => NiriEvent::WindowClosed { id },
        RawEvent::WindowFocusChanged { id } => NiriEvent::WindowFocusChanged { id },
        RawEvent::WorkspacesChanged { workspaces } => NiriEvent::WorkspacesChanged { workspaces },
        RawEvent::WorkspaceActivated { id, focused } => NiriEvent::WorkspaceActivated {
            id,
            focused,
        },
        RawEvent::WorkspaceActiveWindowChanged {
            workspace_id,
            active_window_id,
        } => NiriEvent::WorkspaceActiveWindowChanged { workspace_id, active_window_id },
        RawEvent::Other => NiriEvent::Other,
    }
}

// ------------------------------------------------------------------------ laws

/// The event in a line that is handed on, if there is one.
pub open spec fn handed_on(line: Seq<char>) -> Option<RawEventView> {
    if all_space(line) {
        None
    } else {
        match line_event(line) {
            Ok(e) => Some(e),
            Err(_) => None,
        }
    }
}

/// The events that are handed on of lines, in order.
pub open spec fn events_of(lines: Seq<Seq<char>>) -> Seq<RawEventView>
    decreases lines.len(),
{
    if lines.len() == 0 {
        Seq::empty()
    } else {
        let earlier = events_of(lines.drop_last());
        match handed_on(lines.last()) {
            Some(e) => earlier.push(e),
            None => earlier,
        }
    }
}

proof fn lemma_events_of(a: Seq<Seq<char>>, b: Seq<Seq<char>>)
    ensures
        events_of(a + b) == events_of(a) + events_of(b),
    decreases b.len(),
{
    if b.len() == 0 {
        assert(a + b =~= a);
        assert(events_of(a) + events_of(b) =~= events_of(a));
    } else {
        lemma_events_of(a, b.drop_last());
        assert((a + b).drop_last() =~= a + b.drop_last());
        assert(events_of(a + b) =~= events_of(a) + events_of(b));
    }
}

/// A line that is no event is passed over: what stands before and behind it
/// is handed on as if it were not there. The event in any other line is handed
/// on in its place.
pub proof fn law_unknown_lines_are_passed_over(
    before: Seq<Seq<char>>,
    line: Seq<char>,
    after: Seq<Seq<char>>,
)
    ensures
        handed_on(line) is None ==> events_of(before.push(line) + after) == events_of(
            before + after,
        ),
        handed_on(line) matches Some(e) ==> events_of(before.push(line) + after) == events_of(
            before,
        ).push(e) + events_of(after),
{
    lemma_events_of(before.push(line), after);
    lemma_events_of(before, after);
    assert(before.push(line).drop_last() =~= before);
}

} // verus!
