use iris::bridge::activation::{
    ActivationBroker, BrokerState, TokenEntry, PID_TOKEN_MATCH_WINDOW, PID_TOKEN_TTL,
};
use iris::bridge::niri_conn::{
    check_ack, check_ack_line, event_stream_request, handle_niri_event, normalize_window, normalize_workspace, stamp, state_reset, Ack,
    Backoff, LineRead, NiriEvent, NiriWindow, NiriWorkspace, ReadStep, StreamReader,
};
use iris::bridge::pinned::{
    auto_unpin, read_or_default, resolve_pin, restore, restore_on_startup, resync_after_lag,
    to_file, unpin_notice, PersistedPin, PinFile,
};
use iris::bridge::proto::{
    topics, Event, FloatingPosition, Op, Response, Window, Workspace, WorkspaceRef,
};
use iris::bridge::niri_event::{niri_event, read_event_line, LineEvent, RawEvent};
use iris::bridge::sampler::{compute_session_end, Sampler};
use iris::bridge::server::{
    build_spawn_command, child_pid, handle_op, next_client_id, pump, respond, spawn_reply, try_pin,
    unparsed, Forwarding, NiriAction, NiriOutcome, OpError, Planned, PumpStep, Received, Reply,
};
use iris::bridge::state::{ClientSubs, Inner};
use iris::bridge::{
    ensure_single_instance, pid_file_text, pid_path, recorded_pid, runtime_dir, socket_path,
    Warmup, WarmupInput,
};
use iris::client::default_socket_path;
use iris::json::Json;

const SECOND: u64 = 1_000_000_000;

// ------------------------------------------------------------------ activation

#[test]
fn register_and_take_round_trip() {
    let mut b = ActivationBroker::new();
    b.register_spawn(1234, "tok-A".into(), 100 * SECOND);
    assert_eq!(b.take_token_for_pid(1234, 101 * SECOND).as_deref(), Some("tok-A"));
    assert!(b.take_token_for_pid(1234, 101 * SECOND).is_none());
}

#[test]
fn unknown_pid_returns_none() {
    let mut b = ActivationBroker::new();
    assert!(b.take_token_for_pid(9999, 0).is_none());
}

#[test]
fn expired_entries_are_swept() {
    let mut b = ActivationBroker::new();
    let now = 1000 * SECOND;
    b.pid_map.insert(
        42,
        TokenEntry { token: "stale".into(), inserted_at: now - PID_TOKEN_TTL - SECOND },
    );
    assert!(b.take_token_for_pid(42, now).is_none());
    assert!(b.pid_map.is_empty());
}

#[test]
fn sweeping_spares_the_young_and_takes_the_old() {
    let mut b = ActivationBroker::new();
    let now = 1000 * SECOND;
    b.pid_map.insert(1, TokenEntry { token: "old".into(), inserted_at: now - PID_TOKEN_TTL });
    b.pid_map.insert(2, TokenEntry { token: "young".into(), inserted_at: now - PID_TOKEN_TTL + 1 });
    b.register_spawn(3, "new".into(), now);
    assert_eq!(b.pid_map.len(), 2);
    assert!(b.pid_map.contains_key(&2));
    assert!(b.pid_map.contains_key(&3));
}

#[test]
fn multiple_pids_are_independent() {
    let mut b = ActivationBroker::new();
    b.register_spawn(1, "one".into(), 5);
    b.register_spawn(2, "two".into(), 6);
    assert_eq!(b.take_token_for_pid(2, 7).as_deref(), Some("two"));
    assert_eq!(b.take_token_for_pid(1, 7).as_deref(), Some("one"));
}

#[test]
fn entry_outside_match_window_is_not_returned() {
    let mut b = ActivationBroker::new();
    let now = 1000 * SECOND;
    b.pid_map.insert(
        7,
        TokenEntry {
            token: "tok-late".into(),
            inserted_at: now - PID_TOKEN_MATCH_WINDOW - SECOND,
        },
    );
    assert!(b.take_token_for_pid(7, now).is_none());
    assert!(b.pid_map.is_empty());
}

#[test]
fn token_is_handed_out_at_the_very_end_of_the_window() {
    let mut b = ActivationBroker::new();
    b.register_spawn(7, "tok".into(), 0);
    assert_eq!(b.take_token_for_pid(7, PID_TOKEN_MATCH_WINDOW).as_deref(), Some("tok"));
    b.register_spawn(7, "tok".into(), 0);
    assert!(b.take_token_for_pid(7, PID_TOKEN_MATCH_WINDOW + 1).is_none());
}

#[test]
fn register_overwrites_existing_pid() {
    let mut b = ActivationBroker::new();
    b.register_spawn(100, "first".into(), 1);
    b.register_spawn(100, "second".into(), 2);
    assert_eq!(b.take_token_for_pid(100, 3).as_deref(), Some("second"));
    assert!(b.take_token_for_pid(100, 3).is_none());
}

#[test]
fn minting_takes_the_last_token_or_fails() {
    let mut s = BrokerState::new();
    s.begin();
    assert_eq!(
        s.finish().unwrap_err(),
        "compositor did not emit activation token after roundtrip"
    );
    s.begin();
    assert!(!s.on_done("a".into()));
    assert!(s.on_done("b".into()));
    assert_eq!(s.finish().unwrap(), "b");
    assert!(s.pending_token.is_none());
}

// ------------------------------------------------------------------- niri_conn

fn niri_window(id: u64, pid: Option<i32>) -> NiriWindow {
    NiriWindow {
        id,
        title: Some("t".into()),
        app_id: Some("foot".into()),
        pid,
        workspace_id: Some(1),
        is_focused: false,
        is_floating: false,
        pos_in_scrolling_layout: None,
        tile_size: (0, 0),
        tile_pos_in_workspace_view: None,
    }
}

fn rounded(size: (f64, f64)) -> (i32, i32) {
    (size.0.round() as i32, size.1.round() as i32)
}

#[test]
fn normalize_window_extracts_layout_fields() {
    let mut w = niri_window(99, Some(1));
    w.pos_in_scrolling_layout = Some((3, 1));
    w.tile_size = rounded((950.4, 720.6));
    let p = normalize_window(&w);
    assert_eq!(p.column_index, Some(2));
    assert_eq!(p.position_in_column, Some(0));
    assert_eq!(p.width, 950);
    assert_eq!(p.height, 721);
    assert_eq!(p.floating_position, None);
}

#[test]
fn normalize_window_floating_captures_position() {
    let mut w = niri_window(7, Some(2));
    w.is_floating = true;
    w.pos_in_scrolling_layout = None;
    w.tile_size = rounded((400.0, 300.0));
    w.tile_pos_in_workspace_view = Some((150.5f64.to_bits(), 200.25f64.to_bits()));
    let p = normalize_window(&w);
    assert_eq!(p.column_index, None);
    assert_eq!(p.position_in_column, None);
    assert_eq!(p.width, 400);
    assert_eq!(p.height, 300);
    assert_eq!(
        p.floating_position,
        Some(FloatingPosition { x: 150.5f64.to_bits(), y: 200.25f64.to_bits() })
    );
}

#[test]
fn normalize_window_keeps_zero_and_drops_position_of_tiled_windows() {
    let mut w = niri_window(7, None);
    w.pos_in_scrolling_layout = Some((0, 5));
    w.tile_pos_in_workspace_view = Some((1, 2));
    let p = normalize_window(&w);
    assert_eq!(p.column_index, Some(0));
    assert_eq!(p.position_in_column, Some(4));
    assert_eq!(p.floating_position, None);
}

fn str_at<'a>(j: &'a Json, key: &str) -> Option<&'a str> {
    j.get(key).and_then(|v| v.as_str())
}

fn u64_at(j: &Json, key: &str) -> Option<u64> {
    j.get(key).and_then(|v| v.as_u64())
}

fn open_window(state: &mut Inner, broker: Option<&mut ActivationBroker>, w: NiriWindow) -> Event {
    let ev = NiriEvent::WindowOpenedOrChanged { window: w };
    let token = match broker {
        Some(b) => stamp(b, &ev, 10),
        None => None,
    };
    handle_niri_event(state, token, ev, 5).unwrap()
}

#[test]
fn window_opened_stamps_token_when_pid_matches() {
    let mut state = Inner::new();
    let mut broker = ActivationBroker::new();
    broker.register_spawn(4242, "tok-spawn".into(), 9);
    let ev = open_window(&mut state, Some(&mut broker), niri_window(1, Some(4242)));
    assert_eq!(ev.event, "windows");
    assert_eq!(ev.ts, 5);
    assert_eq!(str_at(&ev.data, "activation_token"), Some("tok-spawn"));
    assert_eq!(u64_at(ev.data.get("opened_or_changed").unwrap(), "id"), Some(1));
    assert!(broker.take_token_for_pid(4242, 10).is_none());
}

#[test]
fn window_opened_without_match_omits_token() {
    let mut state = Inner::new();
    let mut broker = ActivationBroker::new();
    let ev = open_window(&mut state, Some(&mut broker), niri_window(2, Some(99)));
    assert!(ev.data.get("activation_token").is_none());
}

#[test]
fn window_opened_without_pid_omits_token() {
    let mut state = Inner::new();
    let mut broker = ActivationBroker::new();
    broker.register_spawn(4242, "tok-orphan".into(), 9);
    let ev = open_window(&mut state, Some(&mut broker), niri_window(3, None));
    assert!(ev.data.get("activation_token").is_none());
    assert_eq!(broker.take_token_for_pid(4242, 10).as_deref(), Some("tok-orphan"));
}

#[test]
fn window_opened_without_broker_omits_token() {
    let mut state = Inner::new();
    let ev = open_window(&mut state, None, niri_window(4, Some(4242)));
    assert!(ev.data.get("activation_token").is_none());
}

#[test]
fn events_build_up_and_tear_down_the_cache() {
    let mut s = Inner::new();
    let mut focused = niri_window(1, None);
    focused.is_focused = true;
    open_window(&mut s, None, focused);
    open_window(&mut s, None, niri_window(2, None));
    assert_eq!(s.windows.len(), 2);
    assert_eq!(s.focused_window, Some(1));

    let ev = handle_niri_event(&mut s, None, NiriEvent::WindowClosed { id: 1 }, 0).unwrap();
    assert_eq!(u64_at(&ev.data, "closed"), Some(1));
    assert!(!s.windows.contains_key(&1));
    assert_eq!(s.focused_window, None);

    let ev = handle_niri_event(&mut s, None, NiriEvent::WindowFocusChanged { id: Some(2) }, 0)
        .unwrap();
    assert_eq!(ev.event, "focus");
    assert_eq!(u64_at(&ev.data, "focused_window_id"), Some(2));
    assert_eq!(s.focused_window, Some(2));

    let ev = handle_niri_event(
        &mut s,
        None,
        NiriEvent::WindowsChanged { windows: vec![niri_window(9, None)] },
        0,
    )
    .unwrap();
    assert_eq!(str_at(&ev.data, "changed"), Some("all"));
    assert_eq!(s.windows.len(), 1);
    assert_eq!(s.windows[&9].id, 9);
    assert!(handle_niri_event(&mut s, None, NiriEvent::Other, 0).is_none());
}

fn niri_workspace(id: u64, focused: bool) -> NiriWorkspace {
    NiriWorkspace {
        id,
        idx: 1,
        name: Some("w".into()),
        output: None,
        is_focused: focused,
        active_window_id: None,
    }
}

#[test]
fn workspace_events_follow_the_focus() {
    let mut s = Inner::new();
    let ev = handle_niri_event(
        &mut s,
        None,
        NiriEvent::WorkspacesChanged {
            workspaces: vec![niri_workspace(10, false), niri_workspace(20, true)],
        },
        0,
    )
    .unwrap();
    assert_eq!(ev.event, "workspaces");
    assert_eq!(s.focused_workspace, Some(20));

    let ev = handle_niri_event(
        &mut s,
        None,
        NiriEvent::WorkspaceActivated { id: 10, focused: true },
        0,
    )
    .unwrap();
    assert_eq!(u64_at(&ev.data, "activated"), Some(10));
    assert_eq!(ev.data.get("focused").and_then(|v| v.as_bool()), Some(true));
    assert_eq!(s.focused_workspace, Some(10));
    assert!(s.workspaces[&10].is_focused);

    let none = handle_niri_event(
        &mut s,
        None,
        NiriEvent::WorkspaceActiveWindowChanged { workspace_id: 10, active_window_id: Some(7) },
        0,
    );
    assert!(none.is_none());
    assert_eq!(s.workspaces[&10].active_window_id, Some(7));
    assert_eq!(normalize_workspace(&niri_workspace(3, true)).name.as_deref(), Some("w"));
}

#[test]
fn reset_event_tells_of_the_reset() {
    let ev = state_reset(42);
    assert_eq!(ev.event, "state");
    assert_eq!(ev.ts, 42);
    assert_eq!(ev.data.get("reset").and_then(|v| v.as_bool()), Some(true));
}

#[test]
fn only_a_handled_ack_opens_the_stream() {
    assert!(check_ack(&Ack::Handled).is_ok());
    assert_eq!(
        check_ack(&Ack::Closed).unwrap_err(),
        "niri closed connection before EventStream ack"
    );
    assert_eq!(
        check_ack(&Ack::Unparsed { line: "  hm \n".into(), why: "bad".into() }).unwrap_err(),
        "parsing EventStream ack: hm: bad"
    );
    assert_eq!(
        check_ack(&Ack::Other("Version".into())).unwrap_err(),
        "unexpected event-stream reply: Version"
    );
    assert_eq!(
        check_ack(&Ack::Refused("no".into())).unwrap_err(),
        "niri rejected EventStream subscription: no"
    );
}

#[test]
fn answer_to_the_request_for_events_is_read_from_its_line() {
    assert_eq!(event_stream_request(), "\"EventStream\"\n");
    assert_eq!(check_ack_line("{\"Ok\":\"Handled\"}\n"), Ok(()));
    assert_eq!(
        check_ack_line("{\"Err\":\"not now\"}\n").unwrap_err(),
        "niri rejected EventStream subscription: not now"
    );
    assert_eq!(
        check_ack_line("{\"Ok\":{\"Version\":\"25.11\"}}\n").unwrap_err(),
        "unexpected event-stream reply: Version(\"25.11\")"
    );
    assert_eq!(
        check_ack_line(" [\n").unwrap_err(),
        format!(
            "parsing EventStream ack: [: {}",
            serde_json::from_str::<niri_ipc::Reply>(" [\n").unwrap_err()
        )
    );
    assert!(check_ack_line("\n").unwrap_err().starts_with("parsing EventStream ack: : EOF"));
}

#[test]
fn unknown_lines_do_not_end_the_stream() {
    let mut r = StreamReader::new();
    let mut on = |line: &str| r.on_line(LineRead::Line(read_event_line(line)));
    assert!(matches!(
        on("{\"WindowClosed\":{\"id\":3}}\n"),
        ReadStep::Deliver(RawEvent::WindowClosed { id: 3 })
    ));
    assert!(matches!(on("{\"CastsChanged\":{\"casts\":[]}}\n"), ReadStep::Next));
    assert!(matches!(on(" \t\n"), ReadStep::Next));
    assert!(matches!(
        on("{\"WindowFocusChanged\":{\"id\":null}}\n"),
        ReadStep::Deliver(RawEvent::WindowFocusChanged { id: None })
    ));
    assert_eq!(r.events_read, 2);
    assert_eq!(r.events_skipped, 1);
    assert!(matches!(r.on_line(LineRead::Eof), ReadStep::End));
    match r.on_line(LineRead::Failed("reset".into())) {
        ReadStep::Fail(text) => assert_eq!(text, "read_line: reset"),
        other => panic!("{other:?}"),
    }
}

const WINDOW: &str = "{\"id\":5,\"title\":\"t\",\"app_id\":null,\"pid\":-7,\
    \"workspace_id\":2,\"is_focused\":true,\"is_floating\":false,\"is_urgent\":true,\
    \"layout\":{\"pos_in_scrolling_layout\":[3,1],\"tile_size\":[950.4,720.6],\
    \"window_size\":[900,700],\"tile_pos_in_workspace_view\":[1.5,-2.25],\
    \"window_offset_in_tile\":[4.0,4.0]},\"focus_timestamp\":null}";

fn event_in(line: &str) -> RawEvent {
    match read_event_line(line) {
        LineEvent::Event(e) => e,
        other => panic!("{other:?}"),
    }
}

#[test]
fn windows_are_read_from_their_lines() {
    let e = event_in(&format!("{{\"WindowOpenedOrChanged\":{{\"window\":{WINDOW}}}}}\n"));
    assert_eq!(e.tile_sizes(), vec![(950.4f64.to_bits(), 720.6f64.to_bits())]);
    let NiriEvent::WindowOpenedOrChanged { window } = niri_event(e, &vec![(950, 721)]) else {
        panic!("another event");
    };
    assert_eq!(window.id, 5);
    assert_eq!(window.title.as_deref(), Some("t"));
    assert_eq!(window.app_id, None);
    assert_eq!(window.pid, Some(-7));
    assert_eq!(window.workspace_id, Some(2));
    assert!(window.is_focused);
    assert!(!window.is_floating);
    assert_eq!(window.pos_in_scrolling_layout, Some((3, 1)));
    assert_eq!(window.tile_size, (950, 721));
    assert_eq!(
        window.tile_pos_in_workspace_view,
        Some((1.5f64.to_bits(), (-2.25f64).to_bits()))
    );
    let e = event_in(&format!("{{\"WindowsChanged\":{{\"windows\":[{WINDOW},{WINDOW}]}}}}\n"));
    assert_eq!(e.tile_sizes().len(), 2);
    let NiriEvent::WindowsChanged { windows } = niri_event(e, &vec![(1, 2), (3, 4)]) else {
        panic!("another event");
    };
    assert_eq!(windows.len(), 2);
    assert_eq!((windows[0].id, windows[0].tile_size), (5, (1, 2)));
    assert_eq!((windows[1].id, windows[1].tile_size), (5, (3, 4)));
}

#[test]
fn other_events_are_read_from_their_lines() {
    let e = event_in(
        "{\"WorkspacesChanged\":{\"workspaces\":[{\"id\":9,\"idx\":2,\"name\":\"n\",\
        \"output\":\"DP-1\",\"is_urgent\":true,\"is_active\":true,\"is_focused\":false,\
        \"active_window_id\":5}]}}\n",
    );
    assert!(e.tile_sizes().is_empty());
    let NiriEvent::WorkspacesChanged { workspaces } = niri_event(e, &vec![]) else {
        panic!("another event");
    };
    assert_eq!(workspaces.len(), 1);
    assert_eq!((workspaces[0].id, workspaces[0].idx), (9, 2));
    assert_eq!(workspaces[0].name.as_deref(), Some("n"));
    assert_eq!(workspaces[0].output.as_deref(), Some("DP-1"));
    assert!(!workspaces[0].is_focused);
    assert_eq!(workspaces[0].active_window_id, Some(5));
    assert!(matches!(
        niri_event(event_in("{\"WindowFocusChanged\":{\"id\":4}}"), &vec![]),
        NiriEvent::WindowFocusChanged { id: Some(4) }
    ));
    assert!(matches!(
        niri_event(event_in("{\"WorkspaceActivated\":{\"id\":4,\"focused\":true}}"), &vec![]),
        NiriEvent::WorkspaceActivated { id: 4, focused: true }
    ));
    assert!(matches!(
        niri_event(
            event_in(
                "{\"WorkspaceActiveWindowChanged\":{\"workspace_id\":4,\"active_window_id\":6}}"
            ),
            &vec![]
        ),
        NiriEvent::WorkspaceActiveWindowChanged { workspace_id: 4, active_window_id: Some(6) }
    ));
    assert!(matches!(
        niri_event(event_in("{\"OverviewOpenedOrClosed\":{\"is_open\":true}}"), &vec![]),
        NiriEvent::Other
    ));
    match read_event_line("{\"WindowClosed\":{}}") {
        LineEvent::Unrecognized(why) => assert!(why.starts_with("missing field `id`"), "{why}"),
        other => panic!("{other:?}"),
    }
    assert!(matches!(read_event_line(""), LineEvent::Blank));
}

#[test]
fn backoff_doubles_up_to_five_seconds_and_starts_over() {
    let mut b = Backoff::new();
    let waits: Vec<u64> = (0..5).map(|_| b.next_delay(false)).collect();
    assert_eq!(waits, vec![2, 4, 5, 5, 5]);
    assert_eq!(b.next_delay(true), 1);
    assert_eq!(b.next_delay(false), 2);
}

// ---------------------------------------------------------------------- pinned

fn mk_window(id: u64, app_id: &str, title: &str) -> Window {
    Window {
        id,
        app_id: Some(app_id.into()),
        title: Some(title.into()),
        pid: None,
        workspace_id: Some(1),
        is_focused: false,
        is_floating: true,
        column_index: None,
        position_in_column: None,
        width: 800,
        height: 600,
        floating_position: None,
    }
}

fn pin(app_id: &str, title: &str) -> PersistedPin {
    PersistedPin { app_id: app_id.into(), title: title.into() }
}

#[test]
fn resolve_pin_unique_app_id() {
    let live = vec![mk_window(1, "kitty", "shell")];
    let p = PersistedPin { app_id: "kitty".into(), title: "stale".into() };
    assert_eq!(resolve_pin(&p, &live), Some(1));
}

#[test]
fn resolve_pin_multi_match_resolved_by_title() {
    let live = vec![
        mk_window(1, "kitty", "/home/rushi"),
        mk_window(2, "kitty", "/home/rushi/code"),
    ];
    let p = PersistedPin { app_id: "kitty".into(), title: "/home/rushi/code".into() };
    assert_eq!(resolve_pin(&p, &live), Some(2));
}

#[test]
fn resolve_pin_multi_match_no_title_drops() {
    let live = vec![mk_window(1, "kitty", "shell"), mk_window(2, "kitty", "shell")];
    let p = PersistedPin { app_id: "kitty".into(), title: "shell".into() };
    assert_eq!(resolve_pin(&p, &live), None);
}

#[test]
fn resolve_pin_no_app_id_match_drops() {
    let live = vec![mk_window(1, "kitty", "shell")];
    let p = PersistedPin { app_id: "firefox".into(), title: "x".into() };
    assert_eq!(resolve_pin(&p, &live), None);
}

#[test]
fn resolve_pin_drops_tiled_match() {
    let mut tiled = mk_window(1, "kitty", "shell");
    tiled.is_floating = false;
    let live = vec![tiled];
    let p = PersistedPin { app_id: "kitty".into(), title: "shell".into() };
    assert_eq!(resolve_pin(&p, &live), None);
}

#[test]
fn read_file_missing_returns_default() {
    let f = read_or_default(None);
    assert!(f.pinned.is_empty());
    assert_eq!(f.version, 1);
}

#[test]
fn restore_keeps_what_is_found_and_drops_the_rest() {
    let live = vec![mk_window(1, "kitty", "a"), mk_window(2, "firefox", "b")];
    let pins = vec![pin("firefox", "old title"), pin("gone", "x")];
    let r = restore(&pins, &live);
    assert_eq!(r.ids.len(), 1);
    assert!(r.ids.contains(&2));
    assert_eq!(r.kept.len(), 1);
    assert_eq!(r.kept[0].app_id, "firefox");
    assert_eq!(r.kept[0].title, "old title");
}

fn floating_state() -> Inner {
    let mut s = Inner::new();
    s.windows.insert(1, mk_window(1, "kitty", "shell"));
    let mut tiled = mk_window(2, "foot", "tiled");
    tiled.is_floating = false;
    s.windows.insert(2, tiled);
    s.focused_window = Some(1);
    s.focused_workspace = Some(10);
    s
}

#[test]
fn pins_survive_being_written_and_restored() {
    let mut s = floating_state();
    s.pinned_windows.insert(1);
    s.pinned_windows.insert(77);
    let file = to_file(&s);
    assert_eq!(file.version, 1);
    assert_eq!(file.pinned.len(), 1);
    assert_eq!(file.pinned[0].app_id, "kitty");
    assert_eq!(file.pinned[0].title, "shell");
    let mut later = floating_state();
    let written = restore_on_startup(&mut later, &file).unwrap();
    assert!(later.pinned_windows.contains(&1));
    assert_eq!(later.pinned_windows.len(), 1);
    assert_eq!(written.pinned.len(), 1);
}

#[test]
fn nothing_is_restored_from_an_empty_file() {
    let mut s = floating_state();
    s.pinned_windows.insert(1);
    assert!(restore_on_startup(&mut s, &PinFile::default()).is_none());
    assert!(s.pinned_windows.contains(&1));
}

fn opened(w: &Window, topic: &str) -> Event {
    Event { event: topic.into(), ts: 0, data: Json::single("opened_or_changed", w.to_json()) }
}

#[test]
fn tiled_window_loses_its_pin_once() {
    let mut s = floating_state();
    s.pinned_windows.insert(1);
    s.windows.get_mut(&1).unwrap().is_floating = false;
    let ev = opened(&s.windows[&1].clone(), topics::WINDOWS);
    assert_eq!(auto_unpin(&mut s, &ev).as_deref(), Some("kitty"));
    assert!(s.pinned_windows.is_empty());
    assert!(auto_unpin(&mut s, &ev).is_none());
    assert_eq!(unpin_notice("kitty"), "kitty: window left floating mode");
}

#[test]
fn stale_report_does_not_take_a_pin() {
    let mut s = floating_state();
    s.pinned_windows.insert(1);
    let mut reported = s.windows[&1].clone();
    reported.is_floating = false;
    assert!(auto_unpin(&mut s, &opened(&reported, topics::WINDOWS)).is_none());
    assert!(auto_unpin(&mut s, &opened(&reported, topics::FOCUS)).is_none());
    assert!(s.pinned_windows.contains(&1));
}

#[test]
fn resync_drops_pins_on_tiled_and_closed_windows() {
    let mut s = floating_state();
    s.pinned_windows.insert(1);
    s.pinned_windows.insert(2);
    s.pinned_windows.insert(99);
    let mut names = resync_after_lag(&mut s);
    names.sort();
    assert_eq!(names, vec!["?".to_string(), "foot".to_string()]);
    assert_eq!(s.pinned_windows.len(), 1);
    assert!(s.pinned_windows.contains(&1));
}

// --------------------------------------------------------------------- sampler

#[test]
fn session_end_same_id_returns_none() {
    assert_eq!(compute_session_end(Some(1), Some(1), 5, 300), None);
}

#[test]
fn session_end_different_id_returns_duration() {
    assert_eq!(compute_session_end(Some(1), Some(2), 5, 300), Some((1, 1500)));
}

#[test]
fn session_end_to_none_returns_duration() {
    assert_eq!(compute_session_end(Some(1), None, 3, 300), Some((1, 900)));
}

#[test]
fn session_end_first_sample_is_none() {
    assert_eq!(compute_session_end(None, Some(1), 0, 300), None);
}

#[test]
fn session_end_none_to_none_is_none() {
    assert_eq!(compute_session_end(None, None, 0, 300), None);
}

#[test]
fn sampler_counts_a_session_and_ends_it() {
    let mut s = floating_state();
    let mut sampler = Sampler::new(300);
    for _ in 0..3 {
        let evs = sampler.tick(&s, 7);
        assert_eq!(evs.len(), 1);
        assert_eq!(evs[0].event, "focus.sample");
        assert_eq!(u64_at(&evs[0].data, "window_id"), Some(1));
        assert_eq!(str_at(&evs[0].data, "app_id"), Some("kitty"));
        assert_eq!(u64_at(&evs[0].data, "interval_ms"), Some(300));
    }
    s.focused_window = Some(2);
    let evs = sampler.tick(&s, 8);
    assert_eq!(evs.len(), 2);
    assert_eq!(evs[0].event, "focus.session_end");
    assert_eq!(u64_at(&evs[0].data, "window_id"), Some(1));
    assert_eq!(u64_at(&evs[0].data, "duration_ms"), Some(900));
    assert_eq!(u64_at(&evs[1].data, "window_id"), Some(2));
    s.focused_window = None;
    let evs = sampler.tick(&s, 9);
    assert_eq!(evs.len(), 1);
    assert_eq!(u64_at(&evs[0].data, "duration_ms"), Some(300));
    assert!(sampler.tick(&s, 10).is_empty());
}

#[test]
fn long_counts_matter_only_where_a_session_ends() {
    assert_eq!(compute_session_end(Some(1), Some(1), u64::MAX, u64::MAX), None);
    assert_eq!(compute_session_end(None, Some(1), u64::MAX, u64::MAX), None);
    let mut s = floating_state();
    let mut sampler = Sampler { prev: Some(1), prev_ticks: u64::MAX - 1, interval_ms: 300 };
    assert!(sampler.can_tick(&s));
    assert_eq!(sampler.tick(&s, 0).len(), 1);
    assert_eq!(sampler.prev_ticks, u64::MAX);
    assert!(!sampler.can_tick(&s));
    s.focused_window = Some(2);
    assert!(!sampler.can_tick(&s));
    sampler.reset();
    assert!(sampler.can_tick(&s));
}

#[test]
fn reset_drops_the_running_session() {
    let mut s = floating_state();
    let mut sampler = Sampler::new(300);
    sampler.tick(&s, 0);
    sampler.on_event("windows");
    assert_eq!(sampler.prev_ticks, 1);
    sampler.on_event("state");
    assert_eq!(sampler.prev, None);
    assert_eq!(sampler.prev_ticks, 0);
    s.focused_window = None;
    assert!(sampler.tick(&s, 0).is_empty());
}

// ---------------------------------------------------------------------- server

fn seeded() -> Inner {
    let mut s = Inner::new();
    s.windows.insert(
        1,
        Window {
            id: 1,
            app_id: Some("foot".into()),
            title: Some("hello".into()),
            pid: Some(42),
            workspace_id: Some(10),
            is_focused: true,
            is_floating: false,
            column_index: Some(0),
            position_in_column: Some(0),
            width: 800,
            height: 600,
            floating_position: None,
        },
    );
    s.workspaces.insert(
        10,
        Workspace {
            id: 10,
            idx: 1,
            name: Some("code".into()),
            output: Some("DP-1".into()),
            is_focused: true,
            active_window_id: Some(1),
        },
    );
    s.focused_window = Some(1);
    s.focused_workspace = Some(10);
    s
}

fn ask(s: &mut Inner, op: Op) -> Planned {
    let mut subs = ClientSubs::default();
    handle_op(s, &mut subs, false, &op)
}

fn data(p: Planned) -> Json {
    match p.reply {
        Reply::Data(j) => j,
        Reply::Fail(e) => panic!("refused: {}", e.message()),
        _ => panic!("not answered at once"),
    }
}

fn refusal(p: Planned) -> String {
    match p.reply {
        Reply::Fail(e) => e.message(),
        _ => panic!("not refused"),
    }
}

fn actions(p: Planned) -> Vec<NiriAction> {
    match p.reply {
        Reply::Forward(v) => v,
        _ => panic!("not forwarded"),
    }
}

#[test]
fn windows_list_returns_seeded_window() {
    let j = data(ask(&mut seeded(), Op::WindowsList));
    let items = j.as_array().unwrap();
    assert_eq!(str_at(&items[0], "app_id"), Some("foot"));
    assert_eq!(u64_at(&items[0], "id"), Some(1));
}

#[test]
fn state_snapshot_returns_full_picture() {
    let j = data(ask(&mut seeded(), Op::StateSnapshot));
    assert_eq!(u64_at(&j, "focused_window_id"), Some(1));
    assert_eq!(u64_at(&j, "focused_workspace_id"), Some(10));
    assert_eq!(j.get("windows").unwrap().as_array().unwrap().len(), 1);
    assert_eq!(j.get("workspaces").unwrap().as_array().unwrap().len(), 1);
}

#[test]
fn single_records_are_found_or_null() {
    let mut s = seeded();
    assert_eq!(u64_at(&data(ask(&mut s, Op::WindowsGet { id: 1 })), "id"), Some(1));
    assert!(matches!(data(ask(&mut s, Op::WindowsGet { id: 2 })), Json::Null));
    assert_eq!(str_at(&data(ask(&mut s, Op::WorkspacesFocused)), "name"), Some("code"));
    s.focused_workspace = None;
    assert!(matches!(data(ask(&mut s, Op::WorkspacesFocused)), Json::Null));
    assert_eq!(data(ask(&mut s, Op::WorkspacesList)).as_array().unwrap().len(), 1);
}

#[test]
fn invalid_json_returns_error_response_not_disconnect() {
    let resp = unparsed("expected ident at line 1 column 2");
    assert_eq!(resp.id, "<unparsed>");
    assert!(!resp.ok);
    assert_eq!(
        resp.error.unwrap(),
        "invalid request JSON: expected ident at line 1 column 2"
    );
    let resp2 = respond("recover", Ok(data(ask(&mut seeded(), Op::Noop))));
    assert_eq!(resp2.id, "recover");
    assert!(resp2.ok);
}

#[test]
fn subscribe_then_event_arrives_filtered() {
    let mut s = seeded();
    let mut subs = ClientSubs::default();
    let p = handle_op(&mut s, &mut subs, false, &Op::Subscribe { topics: vec!["focus".into()] });
    let ack = data(p);
    assert_eq!(ack.get("subscribed").unwrap().as_array().unwrap().len(), 1);
    let ignored = Event {
        event: topics::WORKSPACES.into(),
        ts: 0,
        data: Json::single("ignored", Json::Bool(true)),
    };
    assert!(matches!(pump(&subs, Received::Event(ignored), 0), PumpStep::Skip));
    let wanted = Event {
        event: topics::FOCUS.into(),
        ts: 1,
        data: Json::single("focused_window_id", Json::Uint(1)),
    };
    match pump(&subs, Received::Event(wanted), 0) {
        PumpStep::Write(got) => {
            assert_eq!(got.event, "focus");
            assert_eq!(got.ts, 1);
            assert_eq!(u64_at(&got.data, "focused_window_id"), Some(1));
        }
        _ => panic!("not delivered"),
    }
}

#[test]
fn unsubscribe_stops_delivery() {
    let mut s = seeded();
    let mut subs = ClientSubs::default();
    handle_op(&mut s, &mut subs, false, &Op::Subscribe { topics: vec!["focus".into()] });
    handle_op(&mut s, &mut subs, false, &Op::Subscribe { topics: vec!["focus".into()] });
    let p = handle_op(&mut s, &mut subs, false, &Op::Unsubscribe { topics: vec!["focus".into()] });
    assert!(data(p).get("subscribed").unwrap().as_array().unwrap().is_empty());
    let ev = Event { event: topics::FOCUS.into(), ts: 0, data: Json::empty_object() };
    assert!(matches!(pump(&subs, Received::Event(ev), 0), PumpStep::Skip));
}

#[test]
fn lagging_client_is_told_and_closed_channel_ends_the_pump() {
    let subs = ClientSubs::default();
    match pump(&subs, Received::Lagged(12), 99) {
        PumpStep::Write(ev) => {
            assert_eq!(ev.event, "state");
            assert_eq!(ev.ts, 99);
            assert_eq!(u64_at(&ev.data, "lagged"), Some(12));
        }
        _ => panic!("no hint"),
    }
    assert!(matches!(pump(&subs, Received::Closed, 0), PumpStep::Stop));
}

#[test]
fn pin_list_starts_empty_and_scratchpad_list_returns_stub() {
    let mut s = seeded();
    assert!(data(ask(&mut s, Op::PinList)).as_array().unwrap().is_empty());
    assert!(data(ask(&mut s, Op::ScratchpadList)).as_array().unwrap().is_empty());
}

#[test]
fn pin_toggle_refuses_tiled_window() {
    let p = ask(&mut floating_state(), Op::PinToggle { window_id: 2 });
    assert!(!p.persist);
    assert!(refusal(p).contains("only floating windows can be pinned"));
}

#[test]
fn pin_toggle_floating_succeeds_and_list_returns_record() {
    let mut s = floating_state();
    let p = ask(&mut s, Op::PinToggle { window_id: 1 });
    assert!(p.persist);
    assert_eq!(data(p).get("pinned").and_then(|v| v.as_bool()), Some(true));
    let list = data(ask(&mut s, Op::PinList));
    let arr = list.as_array().unwrap();
    assert_eq!(arr.len(), 1);
    assert_eq!(u64_at(&arr[0], "id"), Some(1));
    assert_eq!(str_at(&arr[0], "app_id"), Some("kitty"));
    let p = ask(&mut s, Op::PinToggle { window_id: 1 });
    assert_eq!(data(p).get("pinned").and_then(|v| v.as_bool()), Some(false));
    assert!(s.pinned_windows.is_empty());
}

#[test]
fn pin_off_returns_count_and_clears_set() {
    let mut s = floating_state();
    assert!(ask(&mut s, Op::PinAdd { window_id: 1 }).persist);
    let p = ask(&mut s, Op::PinOff);
    assert!(p.persist);
    assert_eq!(u64_at(&data(p), "n_unpinned"), Some(1));
    assert_eq!(s.pinned_windows.len(), 0);
}

#[test]
fn pin_remove_unknown_id_is_idempotent_success() {
    let p = ask(&mut floating_state(), Op::PinRemove { window_id: 999 });
    assert!(!p.persist);
    assert_eq!(data(p).get("pinned").and_then(|v| v.as_bool()), Some(false));
}

#[test]
fn pin_add_drops_stale_pin_when_window_now_tiled() {
    let mut s = floating_state();
    s.pinned_windows.insert(1);
    s.windows.get_mut(&1).unwrap().is_floating = false;
    let p = ask(&mut s, Op::PinAdd { window_id: 1 });
    assert!(p.persist);
    assert!(refusal(p).contains("no longer floating"));
    assert_eq!(s.pinned_windows.len(), 0);
}

#[test]
fn pin_add_tells_new_from_known_and_refuses_with_the_reason() {
    let mut s = floating_state();
    let o = try_pin(&mut s, 1);
    assert!(o.mutated);
    assert!(o.result.unwrap());
    let o = try_pin(&mut s, 1);
    assert!(!o.mutated);
    assert!(!o.result.unwrap());
    assert_eq!(try_pin(&mut s, 5).result.unwrap_err().message(), "no window with id 5");
    s.pinned_windows.clear();
    s.windows.get_mut(&1).unwrap().app_id = Some("".into());
    assert_eq!(
        try_pin(&mut s, 1).result.unwrap_err().message(),
        "cannot pin window 1: it reports no app_id, so we couldn't restore the pin across bridge restarts"
    );
    s.windows.get_mut(&1).unwrap().app_id = None;
    assert!(matches!(try_pin(&mut s, 1).result, Err(OpError::NoAppId(1))));
}

#[test]
fn actions_are_forwarded_in_order() {
    let mut s = seeded();
    assert!(matches!(
        actions(ask(&mut s, Op::WindowFocus { id: 4 }))[..],
        [NiriAction::FocusWindow { id: 4 }]
    ));
    assert!(matches!(
        actions(ask(&mut s, Op::WindowClose { id: 4 }))[..],
        [NiriAction::CloseWindow { id: 4 }]
    ));
    assert!(matches!(
        actions(ask(&mut s, Op::WindowToggleFloating { id: 4 }))[..],
        [NiriAction::ToggleWindowFloating { id: 4 }]
    ));
    assert!(matches!(
        actions(ask(
            &mut s,
            Op::WindowMoveToWorkspace { id: 4, workspace: WorkspaceRef::Idx { idx: 2 } }
        ))[..],
        [NiriAction::MoveWindowToWorkspace {
            window_id: 4,
            reference: WorkspaceRef::Idx { idx: 2 },
            focus: true
        }]
    ));
    assert!(matches!(
        actions(ask(&mut s, Op::WindowMoveColumnToIndex { id: 4, index: 0 }))[..],
        [NiriAction::FocusWindow { id: 4 }, NiriAction::MoveColumnToIndex { index: 1 }]
    ));
    assert!(matches!(
        actions(ask(&mut s, Op::WindowSetSize { id: 4, w: 800, h: 600 }))[..],
        [
            NiriAction::SetWindowWidth { id: 4, width: 800 },
            NiriAction::SetWindowHeight { id: 4, height: 600 }
        ]
    ));
    assert!(matches!(
        actions(ask(&mut s, Op::WindowSetFloatingPosition { id: 4, x: 1, y: 2 }))[..],
        [NiriAction::MoveFloatingWindow { id: 4, x: 1, y: 2 }]
    ));
}

#[test]
fn forwarding_stops_at_the_first_failure() {
    let two = || Forwarding {
        actions: vec![
            NiriAction::FocusWindow { id: 4 },
            NiriAction::MoveColumnToIndex { index: 1 },
        ],
        done: 0,
    };
    let mut f = two();
    assert!(matches!(f.current(), NiriAction::FocusWindow { id: 4 }));
    assert!(f.on_outcome(NiriOutcome::Handled).is_none());
    assert!(matches!(f.current(), NiriAction::MoveColumnToIndex { index: 1 }));
    assert!(f.on_outcome(NiriOutcome::Handled).unwrap().is_ok());

    let mut f = two();
    let e = f.on_outcome(NiriOutcome::Other("Version(..)".into())).unwrap().err().unwrap();
    assert_eq!(e.message(), "unexpected niri response: Version(..)");
    let mut f = two();
    let e = f.on_outcome(NiriOutcome::Error("niri returned error: x".into())).unwrap().err().unwrap();
    assert_eq!(e.message(), "niri returned error: x");
}

fn spawn_op(argv: &[&str], token: bool) -> Op {
    Op::Spawn {
        argv: argv.iter().map(|s| s.to_string()).collect(),
        env: vec![],
        request_activation_token: token,
    }
}

#[test]
fn spawn_without_token_returns_pid() {
    let p = ask(&mut seeded(), spawn_op(&["/usr/bin/env", "true"], false));
    let plan = match p.reply {
        Reply::Spawn(plan) => plan,
        _ => panic!("not spawned"),
    };
    assert!(!plan.mint);
    assert_eq!(plan.argv, vec!["/usr/bin/env".to_string(), "true".to_string()]);
    let pid = child_pid(Some(4321)).unwrap();
    let reply = spawn_reply(pid, &None);
    assert_eq!(u64_at(&reply, "pid"), Some(4321));
    assert!(matches!(reply.get("activation_token"), Some(Json::Null)));
}

#[test]
fn spawn_requesting_token_without_broker_errors_clearly() {
    let p = ask(&mut seeded(), spawn_op(&["/usr/bin/env", "true"], true));
    assert!(refusal(p).contains("broker"));
}

#[test]
fn spawn_empty_argv_errors() {
    assert!(refusal(ask(&mut seeded(), spawn_op(&[], false))).contains("argv"));
}

#[test]
fn spawn_with_broker_registers_pid_to_token() {
    let mut s = seeded();
    let mut subs = ClientSubs::default();
    let p = handle_op(&mut s, &mut subs, true, &spawn_op(&["/usr/bin/env", "true"], true));
    assert!(matches!(p.reply, Reply::Spawn(ref plan) if plan.mint));
    let token = "fake-token-1".to_string();
    let pid = child_pid(Some(77)).unwrap();
    let mut broker = ActivationBroker::new();
    broker.register_spawn(pid, token.clone(), 0);
    let reply = spawn_reply(pid, &Some(token.clone()));
    assert_eq!(str_at(&reply, "activation_token"), Some("fake-token-1"));
    assert_eq!(broker.take_token_for_pid(pid, 1).as_deref(), Some(token.as_str()));
}

#[test]
fn child_without_usable_pid_is_an_error() {
    assert_eq!(child_pid(None).unwrap_err().message(), "spawned child has no pid");
    assert_eq!(
        child_pid(Some(3_000_000_000)).unwrap_err().message(),
        "spawned child pid 3000000000 doesn't fit in i32"
    );
    assert_eq!(child_pid(Some(2_147_483_647)).unwrap(), i32::MAX);
}

#[test]
fn build_spawn_command_plants_token_and_env() {
    let env = vec![("CALLER_SET".to_string(), "yes".to_string())];
    let cmd = build_spawn_command(
        &vec!["/usr/bin/env".to_string(), "true".to_string()],
        &env,
        Some("tok-abc"),
    );
    assert_eq!(cmd.program, "/usr/bin/env");
    assert_eq!(cmd.args, vec!["true".to_string()]);
    let envs: std::collections::HashMap<String, String> = cmd.env.into_iter().collect();
    assert_eq!(envs.get("XDG_ACTIVATION_TOKEN").map(String::as_str), Some("tok-abc"));
    assert_eq!(envs.get("CALLER_SET").map(String::as_str), Some("yes"));
}

#[test]
fn build_spawn_command_omits_token_when_none() {
    let cmd = build_spawn_command(
        &vec!["/usr/bin/env".to_string(), "true".to_string()],
        &vec![],
        None,
    );
    let has_token = cmd.env.iter().any(|(k, _)| k == "XDG_ACTIVATION_TOKEN");
    assert!(!has_token, "no token requested, so no variable should be set");
}

#[test]
fn minted_token_wins_over_the_callers() {
    let env = vec![("XDG_ACTIVATION_TOKEN".to_string(), "mine".to_string())];
    let cmd = build_spawn_command(&vec!["a".to_string()], &env, Some("minted"));
    let envs: std::collections::HashMap<String, String> = cmd.env.into_iter().collect();
    assert_eq!(envs["XDG_ACTIVATION_TOKEN"], "minted");
}

#[test]
fn noop_works_as_heartbeat() {
    for i in 0..3 {
        let id = i.to_string();
        let resp = respond(&id, Ok(data(ask(&mut seeded(), Op::Noop))));
        assert_eq!(resp.id, i.to_string());
        assert!(resp.ok);
    }
}

#[test]
fn responses_echo_the_id_and_carry_one_of_data_and_error() {
    let ok = Response::ok("a", Json::Bool(true));
    assert!(ok.ok && ok.data.is_some() && ok.error.is_none() && ok.id == "a");
    let err = respond("b", Err(OpError::EmptyArgv));
    assert!(!err.ok && err.data.is_none() && err.id == "b");
    assert_eq!(err.error.as_deref(), Some("spawn requires non-empty argv"));
}

#[test]
fn client_numbers_count_up_and_start_over() {
    let mut n = 1u64;
    assert_eq!(next_client_id(&mut n), 1);
    assert_eq!(next_client_id(&mut n), 2);
    n = u64::MAX;
    assert_eq!(next_client_id(&mut n), u64::MAX);
    assert_eq!(n, 0);
}

// ----------------------------------------------------------------------- state

#[test]
fn with_mut_persists_writes_to_with() {
    let mut s = Inner::new();
    s.windows.insert(1, mk_window(1, "foot", "t"));
    s.focused_window = Some(1);
    assert_eq!(s.windows.len(), 1);
    assert_eq!(s.focused_window, Some(1));
}

#[test]
fn client_subs_topic_filter() {
    let mut subs = ClientSubs::default();
    assert!(!subs.matches("windows"));
    subs.topics.insert("windows".into());
    subs.topics.insert("focus".into());
    assert!(subs.matches("windows"));
    assert!(subs.matches("focus"));
    assert!(!subs.matches("workspaces"));
}

// --------------------------------------------------------------------- startup

#[test]
fn second_bridge_refuses_to_start() {
    assert_eq!(recorded_pid(Some(" 1234\n")), Some(1234));
    assert_eq!(recorded_pid(Some("garbage")), None);
    assert_eq!(recorded_pid(Some("99999999999")), None);
    assert_eq!(recorded_pid(None), None);
    assert_eq!(recorded_pid(Some(&pid_file_text(4242))), Some(4242));
    assert!(ensure_single_instance(Some(7), false).is_ok());
    assert!(ensure_single_instance(None, true).is_ok());
    assert_eq!(
        ensure_single_instance(Some(7), true).unwrap_err(),
        "another iris bridge is already running (pid 7); refusing to start"
    );
}

#[test]
fn runtime_dir_prefers_the_environment() {
    assert_eq!(runtime_dir(Some("/a".into()), Some("/b".into())).unwrap(), "/a");
    assert_eq!(runtime_dir(None, Some("/b".into())).unwrap(), "/b");
    assert_eq!(
        runtime_dir(None, None).unwrap_err(),
        "XDG_RUNTIME_DIR not set and no fallback available"
    );
}

#[test]
fn client_looks_where_the_bridge_listens() {
    for (from_env, fallback) in [(Some("/run/a"), Some("/b")), (None, Some("/run/b/"))] {
        let own = |o: Option<&str>| o.map(String::from);
        let dir = runtime_dir(own(from_env), own(fallback)).unwrap();
        let path = default_socket_path(own(from_env), own(fallback)).unwrap();
        assert_eq!(path, socket_path(&dir));
    }
    assert_eq!(socket_path("/run/a"), "/run/a/iris.sock");
    assert_eq!(pid_path("/run/a"), "/run/a/iris.pid");
    assert_eq!(
        default_socket_path(None, None).unwrap_err(),
        "XDG_RUNTIME_DIR not set and no runtime dir fallback available"
    );
}

#[test]
fn warmup_waits_for_windows_then_for_quiet() {
    let w = Warmup::start(true);
    assert_eq!(w, Warmup::Waiting);
    let w = w.step(&WarmupInput::Event("focus".into()));
    assert_eq!(w, Warmup::Waiting);
    let w = w.step(&WarmupInput::Event("windows".into()));
    assert_eq!(w, Warmup::Settling);
    let w = w.step(&WarmupInput::Event("focus".into()));
    assert_eq!(w, Warmup::Settling);
    assert_eq!(w.step(&WarmupInput::Quiet), Warmup::Done);
    assert_eq!(Warmup::start(false), Warmup::Settling);
    assert_eq!(Warmup::Waiting.step(&WarmupInput::Deadline), Warmup::Done);
    assert_eq!(Warmup::Settling.step(&WarmupInput::Broken), Warmup::Done);
}
