use iris::bridge::proto::{Response, Window};
use iris::client::{outcome_of, result_of, PendingRequests, ResponseOutcome};
use iris::config::{load, Config, FocusConfig};
use iris::json::{put, Json};
use iris::notify::{mode_from_flags, set_mode, should_emit, EmitMode};
use iris::order::{is_text_before, stable_order, PlaceKey};
use iris::paths::{logs_to_prune, state_dir, LogFile};
use iris::pin::{list_rows, off_summary, toggle_summary, toggle_target};
use iris::table::{NameSet, NameTable};
use iris::text::{decimal_string, parse_i32, parse_u8, signed_decimal_string, to_chars, trim};

// ---------------------------------------------------------------------- client

#[test]
fn request_response_round_trip() {
    let mut p = PendingRequests::new();
    let id = p.begin("caller");
    assert_eq!(id, "1");
    let answer = Response::ok(&id, Json::single("hello", Json::text("world")));
    let (who, outcome) = p.on_response(answer).unwrap();
    assert_eq!(who, "caller");
    let data = result_of(outcome).ok().unwrap();
    assert_eq!(data.get("hello").and_then(|v| v.as_str()), Some("world"));
    assert!(p.on_response(Response::ok("1", Json::Null)).is_none());
}

#[test]
fn bridge_error_surfaces_as_err() {
    let mut p = PendingRequests::new();
    let id = p.begin(());
    let (_, outcome) = p.on_response(Response::err(&id, "some bridge problem")).unwrap();
    let msg = result_of(outcome).err().unwrap();
    assert!(msg.contains("some bridge problem"), "got: {msg}");
    assert_eq!(msg, "bridge: some bridge problem");
}

#[test]
fn in_flight_request_unblocks_when_bridge_closes() {
    let mut p = PendingRequests::new();
    p.begin(1);
    let second = p.begin(2);
    p.begin(3);
    p.cancel(&second);
    let mut told: Vec<(i32, String)> = p
        .on_close()
        .into_iter()
        .map(|(who, o)| (who, result_of(o).err().unwrap()))
        .collect();
    told.sort();
    let text = "bridge: bridge connection closed before response arrived".to_string();
    assert_eq!(told, vec![(1, text.clone()), (3, text)]);
    assert!(p.on_close().is_empty());
    assert_eq!(p.begin(4), "4");
}

#[test]
fn answers_without_content_have_a_meaning() {
    let bare = |ok| Response { id: "1".into(), ok, data: None, error: None };
    assert!(matches!(outcome_of(bare(true)), ResponseOutcome::Done(Json::Null)));
    match outcome_of(bare(false)) {
        ResponseOutcome::Refused(e) => assert_eq!(e, "unknown error"),
        ResponseOutcome::Done(_) => panic!("accepted"),
    }
}

// ---------------------------------------------------------------------- config

fn with_config(contents: Option<&str>) -> Config {
    let parsed: Option<toml::Table> = contents.and_then(|c| toml::from_str(c).ok());
    load(parsed.map(|t| {
        let ms = t
            .get("focus")
            .and_then(|f| f.get("sample_interval_ms"))
            .and_then(|v| v.as_integer());
        Config {
            focus: match ms {
                Some(ms) => FocusConfig { sample_interval_ms: ms as u64 },
                None => FocusConfig::default(),
            },
        }
    }))
}

#[test]
fn missing_file_returns_defaults() {
    assert_eq!(with_config(None).focus.sample_interval_ms, 300);
}

#[test]
fn valid_config_parses() {
    let cfg = with_config(Some("[focus]\nsample_interval_ms = 1000\n"));
    assert_eq!(cfg.focus.sample_interval_ms, 1000);
}

#[test]
fn invalid_toml_returns_defaults() {
    let cfg = with_config(Some("this is not valid toml"));
    assert_eq!(cfg.focus.sample_interval_ms, 300);
}

#[test]
fn missing_field_uses_field_default() {
    let cfg = with_config(Some(""));
    assert_eq!(cfg.focus.sample_interval_ms, 300);
}

#[test]
fn zero_interval_clamps_to_floor() {
    let cfg = with_config(Some("[focus]\nsample_interval_ms = 0\n"));
    assert_eq!(cfg.focus.sample_interval_ms, 50);
}

// ---------------------------------------------------------------------- notify

#[test]
fn anyhow_chain_format_matches_expected() {
    let e = anyhow::Error::msg("a").context("b").context("c");
    assert_eq!(format!("{e:#}"), "c: b: a");
}

#[test]
fn never_mode_short_circuits() {
    let mut stored = 0u8;
    set_mode(&mut stored, EmitMode::Never);
    assert!(!should_emit(stored, false));
    assert!(!should_emit(stored, true));
}

#[test]
fn notices_follow_the_switches() {
    assert_eq!(mode_from_flags(true, false), EmitMode::Force);
    assert_eq!(mode_from_flags(false, true), EmitMode::Never);
    assert_eq!(mode_from_flags(true, true), EmitMode::Auto);
    assert_eq!(mode_from_flags(false, false), EmitMode::Auto);
    let mut stored = 9u8;
    assert!(!should_emit(stored, false));
    set_mode(&mut stored, EmitMode::Auto);
    assert!(should_emit(stored, false));
    assert!(!should_emit(stored, true));
    set_mode(&mut stored, EmitMode::Force);
    assert!(should_emit(stored, true));
}

// ----------------------------------------------------------------------- paths

#[test]
fn prune_old_logs_keeps_most_recent_n() {
    let now: i128 = 1_000_000;
    let mut files: Vec<LogFile> = (0..10)
        .map(|i| LogFile {
            name: format!("iris.log.2026-06-{:02}", i + 1),
            modified: now - (10 - i) as i128 * 100,
        })
        .collect();
    files.push(LogFile { name: "unrelated.txt".into(), modified: 0 });
    let gone = logs_to_prune(&files, 7);
    let remaining: std::collections::BTreeSet<String> = files
        .iter()
        .enumerate()
        .filter(|(i, _)| !gone.contains(i))
        .map(|(_, f)| f.name.clone())
        .filter(|n| n.starts_with("iris.log"))
        .collect();
    let expected: std::collections::BTreeSet<String> =
        (3..10).map(|i| format!("iris.log.2026-06-{:02}", i + 1)).collect();
    assert_eq!(remaining, expected, "should keep exactly the 7 newest by mtime");
    assert!(!gone.contains(&10));
}

#[test]
fn prune_old_logs_keep_more_than_present_is_noop() {
    let files: Vec<LogFile> =
        (0..3).map(|i| LogFile { name: format!("iris.log.{i}"), modified: 5 }).collect();
    assert!(logs_to_prune(&files, 7).is_empty());
}

#[test]
fn logs_of_one_age_are_given_up_by_name() {
    let files: Vec<LogFile> = ["iris.log.b", "iris.log.c", "iris.log.a"]
        .iter()
        .map(|n| LogFile { name: n.to_string(), modified: 5 })
        .collect();
    assert_eq!(logs_to_prune(&files, 1), vec![0, 2]);
}

#[test]
fn state_dir_falls_back_to_the_data_directory() {
    assert_eq!(state_dir(Some("/s".into()), "/d".into()), "/s");
    assert_eq!(state_dir(None, "/d".into()), "/d/logs");
    assert_eq!(state_dir(None, "/d/".into()), "/d/logs");
}

// ------------------------------------------------------------------------- pin

fn window(id: u64, app_id: Option<&str>) -> Window {
    Window {
        id,
        app_id: app_id.map(String::from),
        title: Some("t".into()),
        pid: None,
        workspace_id: None,
        is_focused: false,
        is_floating: true,
        column_index: None,
        position_in_column: None,
        width: 1,
        height: -1,
        floating_position: None,
    }
}

fn state(focused: Option<u64>) -> Json {
    let mut o = Vec::new();
    put(&mut o, "focused_window_id", Json::number_or_null(focused));
    put(
        &mut o,
        "windows",
        Json::Arr(vec![window(1, Some("foot")).to_json(), window(2, None).to_json()]),
    );
    Json::Obj(o)
}

#[test]
fn focused_window_is_toggled() {
    assert_eq!(toggle_target(&state(Some(1))).unwrap(), (1, "foot".to_string()));
    assert_eq!(toggle_target(&state(Some(2))).unwrap(), (2, "?".to_string()));
    assert_eq!(toggle_target(&state(Some(3))).unwrap(), (3, "?".to_string()));
    assert_eq!(toggle_target(&state(None)).unwrap_err(), "no focused window");
    let on = Json::single("pinned", Json::Bool(true));
    assert_eq!(
        toggle_summary("foot", 1, &on),
        ("pinned foot (1)".to_string(), "foot: pinned".to_string())
    );
    assert_eq!(toggle_summary("foot", 1, &Json::Null).1, "foot: unpinned");
}

#[test]
fn pins_are_listed_row_by_row() {
    let rows = list_rows(&Json::Arr(vec![window(1, Some("foot")).to_json(), Json::Null]));
    assert_eq!(rows.len(), 2);
    assert_eq!((rows[0].app_id.as_str(), rows[0].title.as_str()), ("foot", "t"));
    assert_eq!((rows[1].app_id.as_str(), rows[1].title.as_str()), ("?", ""));
    assert!(list_rows(&Json::Null).is_empty());
}

#[test]
fn unpinning_all_is_told_only_where_there_was_one() {
    let n = |k| Json::single("n_unpinned", Json::Uint(k));
    assert_eq!(
        off_summary(&n(2)),
        ("unpinned 2 windows".to_string(), Some("2 windows".to_string()))
    );
    assert_eq!(off_summary(&n(0)), ("unpinned 0 windows".to_string(), None));
    assert_eq!(off_summary(&Json::Null).0, "unpinned 0 windows");
}

// -------------------------------------------------------------- small machinery

#[test]
fn numbers_are_written_and_read() {
    assert_eq!(decimal_string(0), "0");
    assert_eq!(decimal_string(u64::MAX), "18446744073709551615");
    assert_eq!(signed_decimal_string(i32::MIN), "-2147483648");
    assert_eq!(parse_u8("255"), Some(255));
    assert_eq!(parse_u8("256"), None);
    assert_eq!(parse_u8("+7"), Some(7));
    assert_eq!(parse_u8(""), None);
    assert_eq!(parse_u8("1a"), None);
    assert_eq!(parse_i32(&to_chars("-12")), Some(-12));
    assert_eq!(parse_i32(&to_chars("2147483648")), None);
    assert_eq!(trim(" \t\u{a0}x y\n"), vec!['x', ' ', 'y']);
}

#[test]
fn names_are_kept_once() {
    let mut s = NameSet::new();
    assert!(s.insert("a".into()));
    assert!(!s.insert("a".into()));
    assert!(s.contains("a") && !s.contains("b"));
    assert!(s.remove("a"));
    assert!(!s.remove("a"));
    let mut t = NameTable::new();
    assert_eq!(t.insert("k".into(), 1), None);
    assert_eq!(t.insert("k".into(), 2), Some(1));
    assert_eq!(t.len(), 1);
    assert_eq!(t.get("k"), Some(&2));
    assert_eq!(t.remove("k"), Some(2));
    assert_eq!(t.remove("k"), None);
}

#[test]
fn order_is_stable_and_alphabetical() {
    assert!(is_text_before("a", "b"));
    assert!(is_text_before("a", "aa"));
    assert!(!is_text_before("b", "a"));
    assert!(!is_text_before("a", "a"));
    let key = |column, tile, id| PlaceKey { column, tile, id };
    let keys = vec![key(1, 0, 5), key(0, 1, 1), key(0, 0, 9), key(0, 0, 2), key(0, 0, 2)];
    assert_eq!(stable_order(&keys), vec![3, 4, 2, 1, 0]);
}

#[test]
fn commands_to_come_are_refused() {
    let e = iris::scratchpad::run(iris::scratchpad::ScratchpadArgs {
        command: iris::scratchpad::ScratchpadCmd::List,
    });
    assert_eq!(
        e.unwrap_err(),
        "`iris scratchpad` not implemented yet (planned for weekend 6)"
    );
    let e = iris::time::run(iris::time::TimeArgs { command: iris::time::TimeCmd::Watch });
    assert!(e.unwrap_err().starts_with("`iris time` not implemented yet"));
}

#[test]
fn window_records_hold_every_field() {
    let mut w = window(7, Some("foot"));
    w.pid = Some(42);
    w.column_index = Some(3);
    let j = w.to_json();
    assert_eq!(j.get("id").and_then(|v| v.as_u64()), Some(7));
    assert_eq!(j.get("pid").and_then(|v| v.as_u64()), Some(42));
    assert_eq!(j.get("column_index").and_then(|v| v.as_u64()), Some(3));
    assert_eq!(j.get("is_floating").and_then(|v| v.as_bool()), Some(true));
    assert!(matches!(j.get("height"), Some(Json::Neg(-1))));
    assert!(matches!(j.get("workspace_id"), Some(Json::Null)));
}
