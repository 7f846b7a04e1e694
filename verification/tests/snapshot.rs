use std::collections::HashSet;

use iris::bridge::proto::{Event, FloatingPosition, Op, Window, Workspace};
use iris::json::{put, Json};
use iris::snapshot::load::{
    add_listed_ids, build_spawn_argv, compute_clear_set, describe_op, find_partners, layout_ops,
    match_pairs, match_summary, pair_respawned, respawn_summary, respawned, spawn_timeout_secs,
    spawn_token, Respawn, RespawnStep, SpawnOutcome,
};
use iris::snapshot::matcher::{PendingSpawns, Registered};
use iris::snapshot::save::{
    attach_hooks, build_snapshot, hook_sources, resolve_target, save_summary, target_windows,
    LiveState,
};
use iris::snapshot::schema::{
    HookData, Snapshot, Timestamp, WindowEntry, WorkspaceMeta, SCHEMA_VERSION,
};
use iris::snapshot::store::{list_snapshots, snapshot_file, snapshot_path, validate_name};
use iris::snapshot::template::{expand, fill, Found};
use iris::snapshot::{confirmed, parse_var, resolve_editor};
use iris::table::NameTable;

const NOW: Timestamp = Timestamp { secs: 1_750_000_000, nanos: 7 };

// ------------------------------------------------------------------------ load

fn mk_live(id: u64, ws: u64, app: &str, title: &str) -> Window {
    Window {
        id,
        app_id: Some(app.into()),
        title: Some(title.into()),
        pid: None,
        workspace_id: Some(ws),
        is_focused: false,
        is_floating: false,
        column_index: Some(0),
        position_in_column: Some(0),
        width: 100,
        height: 100,
        floating_position: None,
    }
}

fn mk_saved(save_id: u64, app: &str, title: &str) -> WindowEntry {
    WindowEntry {
        save_id,
        app_id: Some(app.into()),
        title: Some(title.into()),
        column_index: Some(0),
        position_in_column: Some(0),
        is_floating: false,
        is_focused: false,
        width: 100,
        height: 100,
        floating: None,
        hook: None,
    }
}

fn at(x: f64, y: f64) -> FloatingPosition {
    FloatingPosition { x: x.to_bits(), y: y.to_bits() }
}

#[test]
fn clear_set_excludes_pin_and_scratchpad() {
    let live = vec![
        mk_live(1, 10, "a", "x"),
        mk_live(2, 10, "b", "y"),
        mk_live(3, 10, "c", "z"),
        mk_live(99, 99, "wrong-ws", "n/a"),
    ];
    let pinned: HashSet<u64> = [2u64].into_iter().collect();
    let scratch: HashSet<u64> = [3u64].into_iter().collect();
    let matched: HashSet<u64> = HashSet::new();
    let close = compute_clear_set(&live, 10, &pinned, &scratch, &matched);
    assert_eq!(close, vec![1]);
}

#[test]
fn clear_set_empty_when_workspace_empty() {
    let live: Vec<Window> = vec![];
    let close =
        compute_clear_set(&live, 10, &HashSet::new(), &HashSet::new(), &HashSet::new());
    assert!(close.is_empty());
}

#[test]
fn clear_set_excludes_matched_windows() {
    let live = vec![mk_live(1, 10, "foot", "shell"), mk_live(2, 10, "stray-app", "x")];
    let matched: HashSet<u64> = [1u64].into_iter().collect();
    let close = compute_clear_set(&live, 10, &HashSet::new(), &HashSet::new(), &matched);
    assert_eq!(close, vec![2]);
}

#[test]
fn match_pairs_simple() {
    let saved = vec![mk_saved(1, "foot", "a"), mk_saved(2, "firefox", "b")];
    let live = vec![mk_live(10, 1, "firefox", "b"), mk_live(20, 1, "foot", "a")];
    let pairs = match_pairs(&saved, &live);
    assert_eq!(pairs.len(), 2);
    assert_eq!(pairs[0].0.save_id, 1);
    assert_eq!(pairs[0].1.id, 20);
    assert_eq!(pairs[1].0.save_id, 2);
    assert_eq!(pairs[1].1.id, 10);
}

#[test]
fn match_pairs_duplicates_pair_in_order() {
    let saved = vec![mk_saved(1, "foot", "same"), mk_saved(2, "foot", "same")];
    let live = vec![mk_live(100, 1, "foot", "same"), mk_live(200, 1, "foot", "same")];
    let pairs = match_pairs(&saved, &live);
    assert_eq!(pairs.len(), 2);
    assert_eq!(pairs[0].1.id, 100);
    assert_eq!(pairs[1].1.id, 200);
}

#[test]
fn match_pairs_unmatched_dropped() {
    let saved = vec![mk_saved(1, "foot", "a"), mk_saved(2, "missing-app", "b")];
    let live = vec![mk_live(10, 1, "foot", "a")];
    let pairs = match_pairs(&saved, &live);
    assert_eq!(pairs.len(), 1);
    assert_eq!(pairs[0].0.save_id, 1);
}

#[test]
fn match_pairs_more_live_than_saved_leaves_extras() {
    let saved = vec![mk_saved(1, "foot", "a")];
    let live = vec![mk_live(10, 1, "foot", "a"), mk_live(20, 1, "foot", "a")];
    let pairs = match_pairs(&saved, &live);
    assert_eq!(pairs.len(), 1);
    assert_eq!(pairs[0].1.id, 10);
}

#[test]
fn match_pairs_title_mismatch_is_unmatched() {
    let saved = vec![mk_saved(1, "foot", "a")];
    let live = vec![mk_live(10, 1, "foot", "b")];
    let pairs = match_pairs(&saved, &live);
    assert!(pairs.is_empty());
}

#[test]
fn match_pairs_handles_none_app_id() {
    let mut s = mk_saved(1, "foot", "a");
    s.app_id = None;
    let mut l = mk_live(10, 1, "foot", "a");
    l.app_id = None;
    let saved = [s];
    let live = [l];
    let pairs = match_pairs(&saved, &live);
    assert_eq!(pairs.len(), 1);
}

#[test]
fn partners_are_positions() {
    let saved = [mk_saved(1, "a", "x"), mk_saved(2, "b", "x"), mk_saved(3, "a", "x")];
    let live = [mk_live(7, 1, "a", "x"), mk_live(8, 1, "a", "x")];
    assert_eq!(find_partners(&saved, &live), vec![Some(0), None, Some(1)]);
}

fn op_names(ops: &[Op]) -> Vec<&'static str> {
    ops.iter()
        .map(|op| match op {
            Op::WindowMoveToWorkspace { .. } => "window.move_to_workspace",
            Op::WindowToggleFloating { .. } => "window.toggle_floating",
            Op::WindowMoveColumnToIndex { .. } => "window.move_column_to_index",
            Op::WindowSetSize { .. } => "window.set_size",
            Op::WindowSetFloatingPosition { .. } => "window.set_floating_position",
            Op::WindowFocus { .. } => "window.focus",
            _ => "",
        })
        .collect()
}

#[test]
fn apply_layout_emits_ops_in_correct_order() {
    let mut saved_a = mk_saved(1, "foot", "a");
    saved_a.is_focused = true;
    saved_a.width = 800;
    saved_a.height = 600;
    let mut saved_b = mk_saved(2, "foot", "b");
    saved_b.column_index = Some(1);
    saved_b.width = 700;
    saved_b.height = 500;
    let live_a = mk_live(10, 99, "foot", "a");
    let live_b = mk_live(20, 99, "foot", "b");
    let pairs: Vec<(&WindowEntry, &Window)> = vec![(&saved_a, &live_a), (&saved_b, &live_b)];
    let ops = layout_ops(&pairs, Some(1), 1);
    assert_eq!(
        op_names(&ops),
        vec![
            "window.move_to_workspace",
            "window.move_to_workspace",
            "window.move_column_to_index",
            "window.move_column_to_index",
            "window.set_size",
            "window.set_size",
            "window.focus",
        ]
    );
    assert!(matches!(ops[4], Op::WindowSetSize { id: 10, w: 800, h: 600 }));
    assert!(matches!(ops[6], Op::WindowFocus { id: 10 }));
    assert_eq!(describe_op(&ops[0]), "move id=10 to workspace");
    assert_eq!(describe_op(&ops[2]), "move column id=20 to first");
    assert_eq!(describe_op(&ops[5]), "size id=20");
    assert_eq!(describe_op(&ops[6]), "focus id=10");
}

#[test]
fn apply_layout_toggles_floating_only_when_state_differs() {
    let mut saved_floating = mk_saved(1, "foot", "a");
    saved_floating.column_index = None;
    saved_floating.position_in_column = None;
    saved_floating.is_floating = true;
    saved_floating.width = 400;
    saved_floating.height = 300;
    saved_floating.floating = Some(at(10.0, 20.0));
    let mut live = mk_live(10, 1, "foot", "a");
    live.is_floating = true;
    let ops = layout_ops(&vec![(&saved_floating, &live)], None, 1);
    let names = op_names(&ops);
    assert!(!names.contains(&"window.toggle_floating"));
    assert!(!names.contains(&"window.move_column_to_index"));
    assert!(names.contains(&"window.set_floating_position"));
    live.is_floating = false;
    let ops = layout_ops(&vec![(&saved_floating, &live)], None, 1);
    assert!(op_names(&ops).contains(&"window.toggle_floating"));
    match ops.last().unwrap() {
        Op::WindowSetFloatingPosition { id, x, y } => {
            assert_eq!(*id, 10);
            assert_eq!(f64::from_bits(*x), 10.0);
            assert_eq!(f64::from_bits(*y), 20.0);
        }
        other => panic!("{other:?}"),
    }
    assert_eq!(describe_op(ops.last().unwrap()), "floating-position id=10");
}

#[test]
fn apply_layout_orders_columns_descending_to_first() {
    let mk = |sid: u64, col: u32, title: &str| {
        let mut e = mk_saved(sid, "foot", title);
        e.column_index = Some(col);
        e
    };
    let s0 = mk(1, 0, "a");
    let s1 = mk(2, 1, "b");
    let s2 = mk(3, 2, "c");
    let l0 = mk_live(10, 1, "foot", "a");
    let l1 = mk_live(20, 1, "foot", "b");
    let l2 = mk_live(30, 1, "foot", "c");
    let ops = layout_ops(&vec![(&s0, &l0), (&s1, &l1), (&s2, &l2)], None, 1);
    let mut ids = Vec::new();
    for op in &ops {
        if let Op::WindowMoveColumnToIndex { id, index } = op {
            assert_eq!(*index, 0);
            ids.push(*id);
        }
    }
    assert_eq!(ids, vec![30, 20, 10]);
}

#[test]
fn apply_layout_dedups_same_column_to_one_move() {
    let s0 = mk_saved(1, "foot", "top");
    let mut s1 = mk_saved(2, "foot", "bot");
    s1.position_in_column = Some(1);
    let l0 = mk_live(10, 1, "foot", "top");
    let l1 = mk_live(20, 1, "foot", "bot");
    let ops = layout_ops(&vec![(&s0, &l0), (&s1, &l1)], None, 1);
    let moves: Vec<u64> = ops
        .iter()
        .filter_map(|op| match op {
            Op::WindowMoveColumnToIndex { id, .. } => Some(*id),
            _ => None,
        })
        .collect();
    assert_eq!(moves, vec![10]);
}

#[test]
fn schema_floating_position_round_trips_through_match() {
    let mut s = mk_saved(1, "foot", "a");
    s.is_floating = true;
    s.floating = Some(at(10.0, 20.0));
    let l = mk_live(10, 1, "foot", "a");
    let saved = [s];
    let live = [l];
    let pairs = match_pairs(&saved, &live);
    assert_eq!(pairs.len(), 1);
    assert!(pairs[0].0.is_floating);
    assert!(!pairs[0].1.is_floating);
}

#[test]
fn build_spawn_argv_uses_hook_when_present() {
    let mut entry = mk_saved(1, "kitty", "shell");
    entry.hook = Some(HookData::Terminal {
        app_id: "kitty".into(),
        cwd: Some("/home/rushi".into()),
        argv_fallback: vec!["kitty".into()],
    });
    let argv = build_spawn_argv(&entry).unwrap();
    assert_eq!(argv, vec!["kitty", "--directory", "/home/rushi"]);
}

#[test]
fn build_spawn_argv_falls_back_to_app_id_when_no_hook() {
    let entry = mk_saved(1, "firefox", "GitHub");
    assert!(entry.hook.is_none());
    let argv = build_spawn_argv(&entry).unwrap();
    assert_eq!(argv, vec!["firefox"]);
}

#[test]
fn build_spawn_argv_no_hook_no_app_id_errors() {
    let mut entry = mk_saved(1, "ignored", "ignored");
    entry.app_id = None;
    let err = build_spawn_argv(&entry).unwrap_err();
    assert!(err.message().contains("nothing to spawn"));
}

#[test]
fn generic_record_is_started_whatever_the_application() {
    let mut entry = mk_saved(1, "kitty", "shell");
    entry.hook = Some(HookData::Generic { argv: vec!["kitty".into(), "-1".into()], cwd: None });
    assert_eq!(build_spawn_argv(&entry).unwrap(), vec!["kitty", "-1"]);
}

fn object(entries: Vec<(&str, Json)>) -> Json {
    let mut o = Vec::new();
    for (k, v) in entries {
        put(&mut o, k, v);
    }
    Json::Obj(o)
}

#[test]
fn listed_ids_are_numbers_or_records() {
    let mut ids: HashSet<u64> = [7u64].into_iter().collect();
    add_listed_ids(
        &mut ids,
        &Json::Arr(vec![
            Json::Uint(1),
            object(vec![("id", Json::Uint(2)), ("title", Json::text("t"))]),
            Json::Null,
            Json::text("3"),
        ]),
    );
    add_listed_ids(&mut ids, &Json::Null);
    let want: HashSet<u64> = [1u64, 2, 7].into_iter().collect();
    assert_eq!(ids, want);
}

#[test]
fn saved_windows_are_started_then_awaited() {
    let mut broken = mk_saved(2, "x", "y");
    broken.app_id = None;
    let entries = [mk_saved(1, "a", "1"), broken, mk_saved(3, "b", "2"), mk_saved(4, "c", "3")];
    let mut r = Respawn::new();
    match r.step(&entries) {
        RespawnStep::Spawn { position, argv } => {
            assert_eq!(position, 0);
            assert_eq!(argv, vec!["a"]);
        }
        other => panic!("{other:?}"),
    }
    let ok = |t: &str| Some(object(vec![("activation_token", Json::text(t))]));
    assert_eq!(r.on_spawned(ok("t1")).as_deref(), Some("t1"));
    match r.step(&entries) {
        RespawnStep::PassOver { position, why } => {
            assert_eq!(position, 1);
            assert_eq!(why, "entry has no hook and no app_id; nothing to spawn");
        }
        other => panic!("{other:?}"),
    }
    assert!(matches!(r.step(&entries), RespawnStep::Spawn { position: 2, .. }));
    assert!(r.on_spawned(None).is_none());
    assert!(matches!(r.step(&entries), RespawnStep::Spawn { position: 3, .. }));
    assert_eq!(r.on_spawned(ok("t3")).as_deref(), Some("t3"));
    assert!(matches!(r.step(&entries), RespawnStep::Wait { position: 0 }));
    r.on_waited(Some(50));
    assert!(matches!(r.step(&entries), RespawnStep::Wait { position: 3 }));
    r.on_waited(None);
    assert!(matches!(r.step(&entries), RespawnStep::Finished));
    assert_eq!(
        r.outcomes,
        vec![
            SpawnOutcome::Window(50),
            SpawnOutcome::NoArgv,
            SpawnOutcome::Failed,
            SpawnOutcome::NoWindow,
        ]
    );
    let found = respawned(&r.outcomes);
    assert_eq!(found, vec![(0, 50)]);
    let live = [mk_live(50, 1, "a", "other"), mk_live(51, 1, "z", "z")];
    let pairs = pair_respawned(&entries, &found, &live);
    assert_eq!(pairs.len(), 1);
    assert_eq!(pairs[0].0.save_id, 1);
    assert_eq!(pairs[0].1.id, 50);
    assert!(pair_respawned(&entries, &vec![(0, 9)], &live).is_empty());
}

#[test]
fn answer_without_token_is_not_awaited() {
    let entries = [mk_saved(1, "a", "1")];
    let mut r = Respawn::new();
    r.step(&entries);
    assert!(r.on_spawned(Some(object(vec![("activation_token", Json::Null)]))).is_none());
    assert_eq!(r.outcomes, vec![SpawnOutcome::NoToken]);
    assert!(matches!(r.step(&entries), RespawnStep::Finished));
    assert_eq!(spawn_token(&Json::Null), None);
    assert_eq!(spawn_timeout_secs(None), 5);
    assert_eq!(spawn_timeout_secs(Some(60)), 60);
}

#[test]
fn load_target_is_the_named_or_the_saved_workspace() {
    let ws = vec![mk_workspace(10, 1, None, false), mk_workspace(20, 2, Some("web"), true)];
    let pick = iris::snapshot::load::resolve_target;
    assert_eq!(pick(&ws, None, 2).unwrap().id, 20);
    assert_eq!(pick(&ws, Some("1"), 2).unwrap().id, 10);
    assert_eq!(pick(&ws, Some("web"), 1).unwrap().idx, 2);
    assert_eq!(
        pick(&ws, None, 9).unwrap_err().message(),
        "workspace idx 9 from snapshot not present on this niri"
    );
    assert_eq!(
        pick(&ws, Some("a \"b\""), 1).unwrap_err().message(),
        "no workspace named \"a \\\"b\\\"\""
    );
}

#[test]
fn summaries_count_what_is_missing() {
    let (line, notice) = match_summary("w", 2, 3);
    assert_eq!(line, "loaded snapshot w (no-respawn): 2/3 windows placed, 1 unmatched");
    assert_eq!(notice, "w (2/3 placed)");
    assert_eq!(match_summary("w", 3, 3).0, "loaded snapshot w (no-respawn): 3/3 windows placed");
    let (line, notice) = respawn_summary("w", 1, 2, 4);
    assert_eq!(line, "loaded snapshot w: 1/4 respawned, 2 timed out");
    assert_eq!(notice, "w (1/4 respawned, 2 timed out)");
    assert_eq!(respawn_summary("w", 4, 4, 4).1, "w (4/4 respawned)");
    assert_eq!(
        save_summary("w", 12, 3),
        "saved snapshot w (12 windows from workspace idx 3)"
    );
}

// --------------------------------------------------------------------- matcher

fn windows_event(token: Option<&str>, window_id: Option<u64>) -> Event {
    let record = match window_id {
        Some(id) => object(vec![("id", Json::Uint(id)), ("title", Json::text("irrelevant"))]),
        None => object(vec![("title", Json::text("no id"))]),
    };
    let mut data = vec![("opened_or_changed", record)];
    if let Some(t) = token {
        data.push(("activation_token", Json::text(t)));
    }
    Event { event: "windows".into(), ts: 0, data: object(data) }
}

type Sender = tokio::sync::oneshot::Sender<u64>;
type Receiver = tokio::sync::oneshot::Receiver<u64>;

fn register(pending: &mut PendingSpawns<Sender>, token: &str) -> Receiver {
    let (tx, rx) = tokio::sync::oneshot::channel();
    if let Registered::Resolved { waiter, window_id } = pending.register(token.into(), tx) {
        waiter.send(window_id).unwrap();
    }
    rx
}

fn deliver(pending: &mut PendingSpawns<Sender>, ev: &Event) {
    if let Some((tx, id)) = pending.dispatch(ev) {
        let _ = tx.send(id);
    }
}

#[test]
fn register_then_dispatch_fires_oneshot() {
    let mut pending = PendingSpawns::new();
    let mut rx = register(&mut pending, "tok-A");
    deliver(&mut pending, &windows_event(Some("tok-A"), Some(42)));
    assert_eq!(rx.try_recv().unwrap(), 42);
    assert_eq!(pending.pending_count(), 0);
}

#[test]
fn dispatch_with_no_match_leaves_rx_pending() {
    let mut pending = PendingSpawns::new();
    let mut rx = register(&mut pending, "tok-A");
    deliver(&mut pending, &windows_event(Some("tok-OTHER"), Some(42)));
    assert!(rx.try_recv().is_err());
    assert_eq!(pending.pending_count(), 1);
}

#[test]
fn out_of_order_dispatch_resolves_correct_token() {
    let mut pending = PendingSpawns::new();
    let mut rx_a = register(&mut pending, "tok-A");
    let mut rx_b = register(&mut pending, "tok-B");
    deliver(&mut pending, &windows_event(Some("tok-B"), Some(20)));
    deliver(&mut pending, &windows_event(Some("tok-A"), Some(10)));
    assert_eq!(rx_a.try_recv().unwrap(), 10);
    assert_eq!(rx_b.try_recv().unwrap(), 20);
}

#[test]
fn event_without_activation_token_is_ignored() {
    let mut pending = PendingSpawns::new();
    let mut rx = register(&mut pending, "tok-A");
    deliver(&mut pending, &windows_event(None, Some(42)));
    assert!(rx.try_recv().is_err());
}

#[test]
fn event_with_token_but_no_window_id_is_ignored() {
    let mut pending = PendingSpawns::new();
    let mut rx = register(&mut pending, "tok-A");
    deliver(&mut pending, &windows_event(Some("tok-A"), None));
    assert!(rx.try_recv().is_err());
    assert_eq!(pending.pending_count(), 1);
}

#[test]
fn non_windows_event_is_ignored() {
    let mut pending = PendingSpawns::new();
    let mut rx = register(&mut pending, "tok-A");
    let mut ev = windows_event(Some("tok-A"), Some(42));
    ev.event = "focus".into();
    deliver(&mut pending, &ev);
    assert!(rx.try_recv().is_err());
}

#[test]
fn duplicate_register_aborts_previous() {
    let mut pending = PendingSpawns::new();
    let mut rx_first = register(&mut pending, "tok-A");
    let mut rx_second = register(&mut pending, "tok-A");
    assert!(matches!(
        rx_first.try_recv(),
        Err(tokio::sync::oneshot::error::TryRecvError::Closed)
    ));
    deliver(&mut pending, &windows_event(Some("tok-A"), Some(99)));
    assert_eq!(rx_second.try_recv().unwrap(), 99);
}

#[test]
fn early_arrival_is_resolved_on_register() {
    let mut pending = PendingSpawns::new();
    deliver(&mut pending, &windows_event(Some("tok-A"), Some(42)));
    let mut rx = register(&mut pending, "tok-A");
    assert_eq!(rx.try_recv().unwrap(), 42);
    assert_eq!(pending.pending_count(), 0);
}

#[test]
fn early_arrival_does_not_leak_into_unrelated_register() {
    let mut pending = PendingSpawns::new();
    deliver(&mut pending, &windows_event(Some("tok-A"), Some(42)));
    let mut rx_b = register(&mut pending, "tok-B");
    assert!(rx_b.try_recv().is_err());
    let mut rx_a = register(&mut pending, "tok-A");
    assert_eq!(rx_a.try_recv().unwrap(), 42);
}

#[test]
fn drop_pendingspawns_cancels_all_oneshots() {
    let mut pending = PendingSpawns::new();
    let mut rx1 = register(&mut pending, "tok-A");
    let mut rx2 = register(&mut pending, "tok-B");
    drop(pending);
    assert!(matches!(
        rx1.try_recv(),
        Err(tokio::sync::oneshot::error::TryRecvError::Closed)
    ));
    assert!(matches!(
        rx2.try_recv(),
        Err(tokio::sync::oneshot::error::TryRecvError::Closed)
    ));
}

// ------------------------------------------------------------------------- mod

#[test]
fn parse_var_basic_keyvalue() {
    assert_eq!(
        parse_var("wrkdir=/home/rushi").unwrap(),
        ("wrkdir".to_string(), "/home/rushi".to_string())
    );
}

#[test]
fn parse_var_empty_value_allowed() {
    assert_eq!(parse_var("foo=").unwrap(), ("foo".to_string(), "".to_string()));
}

#[test]
fn parse_var_value_with_equals_split_on_first() {
    assert_eq!(parse_var("query=a=b").unwrap(), ("query".to_string(), "a=b".to_string()));
}

#[test]
fn parse_var_no_equals_errors() {
    let err = parse_var("nokey").unwrap_err();
    assert!(err.contains("KEY=VALUE"));
    assert_eq!(parse_var("a \"b\"").unwrap_err(), "--var value \"a \\\"b\\\"\" must be KEY=VALUE");
}

#[test]
fn parse_var_empty_key_errors() {
    let err = parse_var("=value").unwrap_err();
    assert!(err.contains("empty key"));
}

#[test]
fn parse_var_rejects_hyphenated_key() {
    let err = parse_var("some-key=value").unwrap_err();
    assert!(err.contains("[A-Za-z0-9_]"));
}

#[test]
fn parse_var_rejects_dotted_key() {
    let err = parse_var("a.b=value").unwrap_err();
    assert!(err.contains("[A-Za-z0-9_]"));
}

#[test]
fn parse_var_accepts_underscore_and_digits() {
    assert_eq!(parse_var("wrk_dir2=/x").unwrap(), ("wrk_dir2".to_string(), "/x".to_string()));
}

#[test]
fn only_clear_answers_mean_yes() {
    for line in ["y\n", " Y ", "yes\r\n", "YES"] {
        assert!(confirmed(line), "{line:?}");
    }
    for line in ["", "\n", "n", "Yes", "yes please"] {
        assert!(!confirmed(line), "{line:?}");
    }
}

#[test]
fn editor_is_taken_from_the_environment_first() {
    let some = |s: &str| Some(s.to_string());
    assert_eq!(resolve_editor(some("ed"), some("vis"), true, true, true, true).unwrap(), "ed");
    assert_eq!(resolve_editor(some(""), some("vis"), true, true, true, true).unwrap(), "vis");
    assert_eq!(resolve_editor(None, some(""), true, true, true, true).unwrap(), "nvim");
    assert_eq!(resolve_editor(None, None, false, true, true, true).unwrap(), "vim");
    assert_eq!(resolve_editor(None, None, false, false, true, true).unwrap(), "vi");
    assert_eq!(resolve_editor(None, None, false, false, false, true).unwrap(), "nano");
    assert_eq!(
        resolve_editor(None, None, false, false, false, false).unwrap_err(),
        "no editor found: set $EDITOR or install one of nvim/vim/vi/nano on PATH"
    );
}

// ------------------------------------------------------------------------ save

fn mk_window(
    id: u64,
    workspace_id: u64,
    app_id: &str,
    col: Option<u32>,
    pos: Option<u32>,
    is_floating: bool,
    is_focused: bool,
) -> Window {
    Window {
        id,
        app_id: Some(app_id.into()),
        title: Some(format!("title-{id}")),
        pid: Some(1000 + id as i32),
        workspace_id: Some(workspace_id),
        is_focused,
        is_floating,
        column_index: col,
        position_in_column: pos,
        width: 800,
        height: 600,
        floating_position: if is_floating { Some(at(50.0, 60.0)) } else { None },
    }
}

fn mk_workspace(id: u64, idx: u8, name: Option<&str>, focused: bool) -> Workspace {
    Workspace {
        id,
        idx,
        name: name.map(String::from),
        output: Some("DP-1".into()),
        is_focused: focused,
        active_window_id: None,
    }
}

#[test]
fn resolve_default_picks_focused_workspace() {
    let live = LiveState {
        windows: vec![],
        workspaces: vec![
            mk_workspace(10, 1, Some("a"), false),
            mk_workspace(20, 2, Some("b"), true),
        ],
        focused_window_id: None,
        focused_workspace_id: Some(20),
    };
    let t = resolve_target(&live, None).unwrap();
    assert_eq!(t.id, 20);
    assert_eq!(t.idx, 2);
}

#[test]
fn resolve_explicit_idx() {
    let live = LiveState {
        windows: vec![],
        workspaces: vec![mk_workspace(10, 1, None, false), mk_workspace(20, 2, None, true)],
        focused_window_id: None,
        focused_workspace_id: Some(20),
    };
    let t = resolve_target(&live, Some("1")).unwrap();
    assert_eq!(t.id, 10);
}

#[test]
fn resolve_explicit_name() {
    let live = LiveState {
        windows: vec![],
        workspaces: vec![mk_workspace(10, 1, Some("code"), true)],
        focused_window_id: None,
        focused_workspace_id: Some(10),
    };
    let t = resolve_target(&live, Some("code")).unwrap();
    assert_eq!(t.id, 10);
}

#[test]
fn resolve_missing_idx_errors() {
    let live = LiveState {
        windows: vec![],
        workspaces: vec![mk_workspace(10, 1, None, true)],
        focused_window_id: None,
        focused_workspace_id: Some(10),
    };
    let err = resolve_target(&live, Some("9")).unwrap_err();
    assert!(err.message().contains("idx"));
    assert_eq!(err.message(), "no workspace with idx 9");
}

#[test]
fn resolve_no_focus_no_workspace_errors() {
    let mut live = LiveState {
        windows: vec![],
        workspaces: vec![mk_workspace(10, 1, None, false)],
        focused_window_id: None,
        focused_workspace_id: None,
    };
    let err = resolve_target(&live, None).unwrap_err();
    assert!(err.message().contains("--workspace"));
    live.focused_workspace_id = Some(77);
    assert_eq!(
        resolve_target(&live, None).unwrap_err().message(),
        "focused workspace id 77 not in cache"
    );
    assert_eq!(
        resolve_target(&live, Some("300")).unwrap_err().message(),
        "no workspace named \"300\""
    );
}

#[test]
fn build_filters_to_target_workspace_and_assigns_save_ids() {
    let live = LiveState {
        windows: vec![
            mk_window(1, 10, "foot", Some(0), Some(0), false, false),
            mk_window(2, 99, "wrong-ws", Some(0), Some(0), false, false),
            mk_window(3, 10, "firefox", Some(1), Some(0), false, true),
        ],
        workspaces: vec![mk_workspace(10, 1, None, true)],
        focused_window_id: Some(3),
        focused_workspace_id: Some(10),
    };
    let target = resolve_target(&live, None).unwrap();
    let snap = build_snapshot("test", target, &live, &HashSet::new(), NOW);
    assert_eq!(snap.windows.len(), 2);
    assert_eq!(snap.windows[0].app_id.as_deref(), Some("foot"));
    assert_eq!(snap.windows[0].save_id, 1);
    assert_eq!(snap.windows[1].app_id.as_deref(), Some("firefox"));
    assert_eq!(snap.windows[1].save_id, 2);
    assert_eq!(snap.workspace.focused_save_id, Some(2));
    assert_eq!(snap.saved_at, NOW);
    assert_eq!(snap.version, SCHEMA_VERSION);
    assert_eq!(snap.workspace.output.as_deref(), Some("DP-1"));
}

#[test]
fn build_handles_floating_window_capture() {
    let live = LiveState {
        windows: vec![mk_window(1, 10, "foot", None, None, true, true)],
        workspaces: vec![mk_workspace(10, 1, None, true)],
        focused_window_id: Some(1),
        focused_workspace_id: Some(10),
    };
    let target = resolve_target(&live, None).unwrap();
    let snap = build_snapshot("f", target, &live, &HashSet::new(), NOW);
    assert_eq!(snap.windows.len(), 1);
    assert!(snap.windows[0].is_floating);
    assert_eq!(snap.windows[0].floating, Some(at(50.0, 60.0)));
}

#[test]
fn build_for_non_focused_workspace_yields_no_focused_save_id() {
    let live = LiveState {
        windows: vec![
            mk_window(1, 10, "foot", Some(0), Some(0), false, false),
            mk_window(2, 10, "firefox", Some(1), Some(0), false, false),
            mk_window(3, 20, "other", Some(0), Some(0), false, true),
        ],
        workspaces: vec![mk_workspace(10, 1, None, false), mk_workspace(20, 2, None, true)],
        focused_window_id: Some(3),
        focused_workspace_id: Some(20),
    };
    let target = resolve_target(&live, Some("1")).unwrap();
    let snap = build_snapshot("non-focused", target, &live, &HashSet::new(), NOW);
    assert_eq!(snap.windows.len(), 2);
    assert_eq!(snap.workspace.focused_save_id, None);
}

#[test]
fn build_excludes_protected_ids() {
    let live = LiveState {
        windows: vec![
            mk_window(1, 10, "foot", Some(0), Some(0), false, false),
            mk_window(2, 10, "Slack", Some(1), Some(0), false, false),
            mk_window(3, 10, "firefox", Some(2), Some(0), false, true),
        ],
        workspaces: vec![mk_workspace(10, 1, None, true)],
        focused_window_id: Some(3),
        focused_workspace_id: Some(10),
    };
    let target = resolve_target(&live, None).unwrap();
    let mut protected = HashSet::new();
    protected.insert(2);
    let snap = build_snapshot("p", target, &live, &protected, NOW);
    assert_eq!(snap.windows.len(), 2, "Slack should be filtered out");
    let app_ids: Vec<&str> =
        snap.windows.iter().filter_map(|w| w.app_id.as_deref()).collect();
    assert_eq!(app_ids, vec!["foot", "firefox"]);
}

#[test]
fn build_empty_workspace_has_no_focused_save_id() {
    let live = LiveState {
        windows: vec![],
        workspaces: vec![mk_workspace(10, 1, None, true)],
        focused_window_id: None,
        focused_workspace_id: Some(10),
    };
    let target = resolve_target(&live, None).unwrap();
    let snap = build_snapshot("empty", target, &live, &HashSet::new(), NOW);
    assert!(snap.windows.is_empty());
    assert_eq!(snap.workspace.focused_save_id, None);
}

#[test]
fn windows_are_saved_by_column_tile_and_id() {
    let all = vec![
        mk_window(5, 10, "e", None, None, true, false),
        mk_window(4, 10, "d", Some(1), Some(0), false, false),
        mk_window(3, 10, "c", Some(0), Some(1), false, false),
        mk_window(2, 10, "b", Some(0), Some(0), false, false),
        mk_window(1, 10, "a", Some(0), Some(0), false, false),
    ];
    let ids: Vec<u64> =
        target_windows(&all, 10, &HashSet::new()).iter().map(|w| w.id).collect();
    assert_eq!(ids, vec![1, 2, 3, 4, 5]);
}

#[test]
fn hooks_go_to_the_windows_they_were_captured_of() {
    let live = LiveState {
        windows: vec![
            mk_window(9, 10, "same", Some(1), Some(0), false, false),
            mk_window(3, 10, "same", Some(0), Some(0), false, false),
        ],
        workspaces: vec![mk_workspace(10, 1, None, true)],
        focused_window_id: None,
        focused_workspace_id: Some(10),
    };
    let target = resolve_target(&live, None).unwrap();
    let ws = target_windows(&live.windows, target.id, &HashSet::new());
    let mut snap = build_snapshot("h", target, &live, &HashSet::new(), NOW);
    assert_eq!(hook_sources(&snap.windows, &ws), vec![Some(0), Some(1)]);
    let captured =
        vec![Some(HookData::Generic { argv: vec!["first".into()], cwd: None }), None];
    attach_hooks(&mut snap, captured);
    assert_eq!(build_spawn_argv(&snap.windows[0]).unwrap(), vec!["first"]);
    assert!(snap.windows[1].hook.is_none());
    assert_eq!(snap.windows[1].title.as_deref(), Some("title-9"));
}

// ---------------------------------------------------------------------- schema

#[test]
fn rejects_unsupported_version() {
    let snap = Snapshot {
        version: 99,
        name: "x".into(),
        saved_at: NOW,
        workspace: WorkspaceMeta { index: 1, name: None, output: None, focused_save_id: None },
        windows: vec![],
    };
    let mut other = snap.clone();
    let err = snap.check_version().unwrap_err();
    assert!(err.contains("version"));
    assert_eq!(err, "snapshot version 99 not supported (expected 1)");
    other.version = 1;
    assert_eq!(other.check_version().unwrap().name, "x");
}

// ----------------------------------------------------------------------- store

#[test]
fn validate_name_accepts_allowed() {
    assert!(validate_name("work_ws1").is_ok());
    assert!(validate_name("home.ws-2").is_ok());
    assert!(validate_name("a").is_ok());
}

#[test]
fn validate_name_rejects_traversal_and_weird_chars() {
    assert!(validate_name("").is_err());
    assert!(validate_name("..").is_err());
    assert!(validate_name(".hidden").is_err());
    assert!(validate_name("a/b").is_err());
    assert!(validate_name("a b").is_err());
}

#[test]
fn refused_names_say_why() {
    assert_eq!(validate_name("").unwrap_err().message(), "snapshot name cannot be empty");
    assert_eq!(validate_name(".x").unwrap_err().message(), "snapshot name cannot start with '.'");
    assert_eq!(
        validate_name("a\nb").unwrap_err().message(),
        "snapshot name \"a\\nb\" contains characters outside [A-Za-z0-9_.-]"
    );
    assert_eq!(snapshot_file("w.1").unwrap(), "w.1.toml");
    assert!(snapshot_file("w/1").is_err());
    assert_eq!(snapshot_path("/d", "w").unwrap(), "/d/w.toml");
    assert_eq!(snapshot_path("/d/", "w").unwrap(), "/d/w.toml");
}

#[test]
fn list_in_missing_dir_returns_empty() {
    assert!(list_snapshots(&vec![]).is_empty());
}

#[test]
fn list_in_skips_non_toml_files() {
    let files = vec!["a.toml".to_string(), "b.txt".to_string(), "c.toml.bak".to_string()];
    assert_eq!(list_snapshots(&files), vec!["a".to_string()]);
}

#[test]
fn snapshots_are_listed_in_alphabetical_order() {
    let files: Vec<String> =
        ["b.toml", "aa.toml", ".toml", "a.toml", "B.toml"].iter().map(|s| s.to_string()).collect();
    assert_eq!(list_snapshots(&files), vec!["B", "a", "aa", "b"]);
}

// -------------------------------------------------------------------- template

fn vars(pairs: &[(&str, &str)]) -> NameTable<String> {
    let mut t = NameTable::new();
    for (k, v) in pairs {
        t.insert(k.to_string(), v.to_string());
    }
    t
}

#[test]
fn single_variable_substitution() {
    let out = expand(r#"cwd = "{{wrkdir}}""#, &vars(&[("wrkdir", "/home/rushi/code")])).unwrap();
    assert_eq!(out, r#"cwd = "/home/rushi/code""#);
}

#[test]
fn multiple_variables_in_same_input() {
    let src = r#"argv = ["{{bin}}", "--directory", "{{wrkdir}}"]"#;
    let out = expand(src, &vars(&[("bin", "kitty"), ("wrkdir", "/proj")])).unwrap();
    assert_eq!(out, r#"argv = ["kitty", "--directory", "/proj"]"#);
}

#[test]
fn same_variable_used_twice_replaces_both() {
    let src = "a = \"{{x}}\"\nb = \"{{x}}\"";
    let out = expand(src, &vars(&[("x", "Y")])).unwrap();
    assert_eq!(out, "a = \"Y\"\nb = \"Y\"");
}

#[test]
fn default_fallback_when_var_absent() {
    let out = expand(r#"cwd = "{{wrkdir:/tmp}}""#, &vars(&[])).unwrap();
    assert_eq!(out, r#"cwd = "/tmp""#);
}

#[test]
fn default_overridden_when_var_present() {
    let out =
        expand(r#"cwd = "{{wrkdir:/tmp}}""#, &vars(&[("wrkdir", "/home/rushi/proj")])).unwrap();
    assert_eq!(out, r#"cwd = "/home/rushi/proj""#);
}

#[test]
fn missing_var_with_no_default_errors() {
    let err = expand(r#"cwd = "{{wrkdir}}""#, &vars(&[])).unwrap_err();
    let msg = err.message();
    assert!(msg.contains("wrkdir"), "error should name the variable: {msg}");
    assert!(msg.contains("--var"), "error should hint at the fix: {msg}");
}

#[test]
fn default_with_spaces_and_slashes_preserved() {
    let out = expand(r#"x = "{{path:/usr/local/bin}}""#, &vars(&[])).unwrap();
    assert_eq!(out, r#"x = "/usr/local/bin""#);
}

#[test]
fn default_with_embedded_colons_preserved() {
    let out = expand(r#"x = "{{addr:127.0.0.1:8080}}""#, &vars(&[])).unwrap();
    assert_eq!(out, r#"x = "127.0.0.1:8080""#);
}

#[test]
fn whitespace_around_name_is_trimmed() {
    let out = expand(r#"x = "{{  name  }}""#, &vars(&[("name", "alice")])).unwrap();
    assert_eq!(out, r#"x = "alice""#);
}

#[test]
fn no_placeholders_passes_through_unchanged() {
    let src = r#"
version = 1
[workspace]
index = 1
"#;
    let out = expand(src, &vars(&[])).unwrap();
    assert_eq!(out, src);
}

#[test]
fn empty_default_is_valid() {
    let out = expand(r#"x = "{{name:}}""#, &vars(&[])).unwrap();
    assert_eq!(out, r#"x = """#);
}

#[test]
fn first_missing_variable_wins_in_error() {
    let err = expand(
        r#"a = "{{first}}"
b = "{{second}}""#,
        &vars(&[]),
    )
    .unwrap_err();
    let msg = err.message();
    assert!(msg.contains("first"), "error should name first undefined: {msg}");
}

#[test]
fn placeholder_anywhere_substitutes() {
    let src = r#"
[table_{{section}}]
elem = ["{{a}}", "{{b}}"]
# comment with {{c}}
"#;
    let out =
        expand(src, &vars(&[("section", "X"), ("a", "1"), ("b", "2"), ("c", "see")])).unwrap();
    assert!(out.contains("[table_X]"));
    assert!(out.contains(r#"["1", "2"]"#));
    assert!(out.contains("# comment with see"));
}

#[test]
fn text_around_placeholders_keeps_its_characters() {
    let out = expand("\u{e9}{{x}}\u{1f600}{{ y :z}}\u{df}", &vars(&[("x", "\u{fc}")])).unwrap();
    assert_eq!(out, "\u{e9}\u{fc}\u{1f600}z\u{df}");
    assert_eq!(expand("{ {x} } {{-}}", &vars(&[])).unwrap(), "{ {x} } {{-}}");
}

#[test]
fn found_matches_are_replaced_one_by_one() {
    let found = vec![
        Found { start: 1, end: 4, first: Some(" n ".into()), second: None },
        Found { start: 5, end: 5, first: None, second: Some("D".into()) },
    ];
    assert_eq!(fill("a###b!", &found, &vars(&[("n", "N")])).unwrap(), "aNbD!");
    assert_eq!(
        fill("a###b!", &found, &vars(&[])).unwrap_err().message(),
        "unknown variable {{n}} (pass --var n=...)"
    );
}

#[test]
fn unknown_variable_is_refused_wherever_it_stands() {
    for text in ["{{b}}", "{{{b}}", "x {{a:1}} {{b}}", "{{-}} {{b}}", "{{a:{}} {{b}}"] {
        let err = expand(text, &vars(&[])).unwrap_err();
        assert_eq!(err.message(), "unknown variable {{b}} (pass --var b=...)");
    }
    assert_eq!(expand("{{a:{{b}}", &vars(&[])).unwrap(), "{{b");
}

#[test]
fn placeholder_is_replaced_between_what_stands_around_it() {
    let out = expand("l } {{ n_1\t: d:e }} } r", &vars(&[])).unwrap();
    assert_eq!(out, "l }  d:e  } r");
    let out = expand("l } {{ n_1\t: d:e }} } r", &vars(&[("n_1", "{{n}}")])).unwrap();
    assert_eq!(out, "l } {{n}} } r");
}
