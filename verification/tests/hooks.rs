use iris::bridge::proto::Window;
use iris::snapshot::hooks::generic::{parse_cmdline, shell_quote};
use iris::snapshot::hooks::neovim::{
    canonical_socket, mksession_expr, pick_socket, random_suffix, session_file_name,
};
use iris::snapshot::hooks::{
    dispatch, settle_capture, AppHook, BrowserHook, Facts, GenericHook, HookError, Need,
    NeovimHook, TerminalHook, VsCodeHook,
};
use iris::snapshot::schema::HookData;

fn window(app_id: Option<&str>, pid: Option<i32>) -> Window {
    Window {
        id: 1,
        app_id: app_id.map(String::from),
        title: None,
        pid,
        workspace_id: Some(1),
        is_focused: false,
        is_floating: false,
        column_index: Some(0),
        position_in_column: Some(0),
        width: 1,
        height: 1,
        floating_position: None,
    }
}

// --------------------------------------------------------------------- browser

#[test]
fn matches_each_supported_browser() {
    for app_id in ["firefox", "chromium", "Brave-browser", "google-chrome"] {
        assert!(BrowserHook.matches(Some(app_id)), "should match {app_id}");
    }
}

#[test]
fn browser_does_not_match_unknown_or_none() {
    assert!(!BrowserHook.matches(None));
    assert!(!BrowserHook.matches(Some("foot")));
    assert!(!BrowserHook.matches(Some("Firefox")));
}

#[test]
fn build_argv_returns_fallback_verbatim() {
    let data = HookData::Browser {
        app_id: "firefox".into(),
        argv_fallback: vec!["firefox".into()],
    };
    assert_eq!(BrowserHook.build_argv(&data).unwrap(), vec!["firefox".to_string()]);
}

#[test]
fn build_argv_empty_fallback_errors() {
    let data = HookData::Browser { app_id: "firefox".into(), argv_fallback: vec![] };
    assert!(BrowserHook.build_argv(&data).is_err());
}

#[test]
fn browser_build_argv_wrong_variant_errors() {
    let data = HookData::Generic { argv: vec!["x".into()], cwd: None };
    assert!(BrowserHook.build_argv(&data).is_err());
}

#[test]
fn browser_capture_needs_only_the_application() {
    let w = window(Some("google-chrome"), None);
    assert!(matches!(BrowserHook.plan_capture(&w), Ok(Need::Nothing)));
    match BrowserHook.finish_capture(&w, Facts::Nothing).unwrap() {
        HookData::Browser { app_id, argv_fallback } => {
            assert_eq!(app_id, "google-chrome");
            assert_eq!(argv_fallback, vec!["google-chrome-stable".to_string()]);
        }
        other => panic!("{other:?}"),
    }
    let e = BrowserHook.plan_capture(&window(None, None)).unwrap_err();
    assert_eq!(e.message(), "BrowserHook::capture called with app_id=None");
    let e = BrowserHook.finish_capture(&window(Some("links"), None), Facts::Nothing).unwrap_err();
    assert_eq!(e.message(), "no browser binary mapping for app_id links");
}

// --------------------------------------------------------------------- generic

#[test]
fn matches_anything() {
    assert!(GenericHook.matches(None));
    assert!(GenericHook.matches(Some("foot")));
    assert!(GenericHook.matches(Some("anything-else")));
}

#[test]
fn build_argv_no_cwd_passes_argv_verbatim() {
    let data = HookData::Generic { argv: vec!["echo".into(), "hello".into()], cwd: None };
    let argv = GenericHook.build_argv(&data).unwrap();
    assert_eq!(argv, vec!["echo".to_string(), "hello".to_string()]);
}

#[test]
fn build_argv_with_cwd_wraps_in_sh_lc() {
    let data = HookData::Generic {
        argv: vec!["echo".into(), "hi".into()],
        cwd: Some("/home/rushi".into()),
    };
    let argv = GenericHook.build_argv(&data).unwrap();
    assert_eq!(argv[0], "sh");
    assert_eq!(argv[1], "-lc");
    assert!(argv[2].contains("cd '/home/rushi'"));
    assert!(argv[2].contains("exec 'echo' 'hi'"));
    assert_eq!(argv[2], "cd '/home/rushi' && exec 'echo' 'hi'");
}

#[test]
fn build_argv_empty_argv_errors() {
    let data = HookData::Generic { argv: vec![], cwd: None };
    let err = GenericHook.build_argv(&data).unwrap_err();
    assert!(err.message().contains("empty"));
}

#[test]
fn generic_build_argv_wrong_variant_errors() {
    let data = HookData::Browser {
        app_id: "firefox".into(),
        argv_fallback: vec!["firefox".into()],
    };
    assert!(GenericHook.build_argv(&data).is_err());
}

#[test]
fn shell_quote_escapes_embedded_quotes() {
    assert_eq!(shell_quote("simple"), "'simple'");
    assert_eq!(shell_quote("/tmp/a b"), "'/tmp/a b'");
    assert_eq!(shell_quote("foo'bar"), r"'foo'\''bar'");
    assert_eq!(shell_quote(""), "''");
}

#[test]
fn shell_quote_handles_paths_with_special_chars() {
    assert_eq!(shell_quote("/tmp/$HOME"), "'/tmp/$HOME'");
    assert_eq!(shell_quote("a;b&c"), "'a;b&c'");
}

#[test]
fn command_lines_are_split_at_zero_bytes() {
    assert_eq!(
        parse_cmdline(&b"nvim\0-S\0a b\0".to_vec()),
        vec!["nvim".to_string(), "-S".to_string(), "a b".to_string()]
    );
    assert_eq!(parse_cmdline(&b"foo\0\0bar\0".to_vec()), vec!["foo", "", "bar"]);
    assert_eq!(parse_cmdline(&b"x\0\0y".to_vec()), vec!["x", "", "y"]);
    assert_eq!(parse_cmdline(&b"x\0\0".to_vec()), vec!["x", ""]);
    assert_eq!(parse_cmdline(&b"\0".to_vec()), vec![""]);
    assert!(parse_cmdline(&vec![]).is_empty());
    assert_eq!(parse_cmdline(&vec![0xff, b'a', 0]), vec!["\u{fffd}a".to_string()]);
    assert_eq!(parse_cmdline(&"h\u{e9}\0".as_bytes().to_vec()), vec!["h\u{e9}".to_string()]);
}

#[test]
fn generic_capture_reads_the_process() {
    let w = window(None, Some(7));
    assert!(matches!(GenericHook.plan_capture(&w), Ok(Need::Process(7))));
    let facts = Facts::Process { cmdline: b"top\0".to_vec(), cwd: None };
    match GenericHook.finish_capture(&w, facts).unwrap() {
        HookData::Generic { argv, cwd } => {
            assert_eq!(argv, vec!["top".to_string()]);
            assert_eq!(cwd, None);
        }
        other => panic!("{other:?}"),
    }
    let gap = Facts::Process { cmdline: b"foo\0\0bar\0".to_vec(), cwd: Some("/".into()) };
    let data = GenericHook.finish_capture(&w, gap).unwrap();
    assert_eq!(
        GenericHook.build_argv(&data).unwrap(),
        vec!["sh", "-lc", "cd '/' && exec 'foo' '' 'bar'"]
    );
    let empty = Facts::Process { cmdline: vec![], cwd: Some("/".into()) };
    let e = GenericHook.finish_capture(&w, empty).unwrap_err();
    assert_eq!(e.message(), "/proc/7/cmdline is empty (kernel thread or zombie?)");
    let e = GenericHook.plan_capture(&window(None, None)).unwrap_err();
    assert_eq!(e.message(), "window has no pid; can't capture argv");
}

// ------------------------------------------------------------------------- mod

#[test]
fn dispatch_routes_terminals_to_terminal_hook() {
    for app_id in &[
        "foot",
        "Alacritty",
        "kitty",
        "com.mitchellh.ghostty",
        "org.wezfurlong.wezterm",
    ] {
        let h = dispatch(Some(app_id));
        assert_eq!(h.name(), "terminal", "expected terminal for {app_id}");
    }
}

#[test]
fn dispatch_routes_vscode_to_vscode_hook() {
    for app_id in &["code", "Code", "code-oss", "code-insiders"] {
        let h = dispatch(Some(app_id));
        assert_eq!(h.name(), "vscode", "expected vscode for {app_id}");
    }
}

#[test]
fn dispatch_routes_nvim_to_neovim_hook() {
    let h = dispatch(Some("nvim"));
    assert_eq!(h.name(), "neovim");
}

#[test]
fn dispatch_routes_browsers_to_browser_hook() {
    for app_id in &["firefox", "chromium", "Brave-browser", "google-chrome"] {
        let h = dispatch(Some(app_id));
        assert_eq!(h.name(), "browser", "expected browser for {app_id}");
    }
}

#[test]
fn dispatch_falls_back_to_generic() {
    assert_eq!(dispatch(None).name(), "generic");
    assert_eq!(dispatch(Some("some-random-app")).name(), "generic");
}

#[test]
fn failed_capture_falls_back_to_the_generic_one() {
    let generic = || HookData::Generic { argv: vec!["x".into()], cwd: None };
    let own = HookData::Browser { app_id: "firefox".into(), argv_fallback: vec!["f".into()] };
    assert!(matches!(
        settle_capture(Ok(own), Ok(generic())),
        Some(HookData::Browser { .. })
    ));
    assert!(matches!(
        settle_capture(Err(HookError::EmptyCmdline(1)), Ok(generic())),
        Some(HookData::Generic { .. })
    ));
    assert!(settle_capture(
        Err(HookError::EmptyCmdline(1)),
        Err(HookError::EmptyCmdline(1))
    )
    .is_none());
}

#[test]
fn what_a_hook_records_it_can_start() {
    for app_id in ["kitty", "Code", "nvim", "firefox", "unknown"] {
        let w = window(Some(app_id), Some(3));
        let h = dispatch(Some(app_id));
        let facts = match h.plan_capture(&w).unwrap() {
            Need::Nothing => Facts::Nothing,
            Need::Cwd(3) => Facts::Cwd("/tmp".into()),
            Need::Process(3) => Facts::Process { cmdline: b"u\0".to_vec(), cwd: Some("/".into()) },
            Need::Session(3) => Facts::Session("/s.vim".into()),
            other => panic!("{other:?}"),
        };
        let data = h.finish_capture(&w, facts).unwrap();
        assert!(!h.build_argv(&data).unwrap().is_empty(), "{app_id}");
    }
}

// ---------------------------------------------------------------------- neovim

#[test]
fn matches_only_nvim() {
    assert!(NeovimHook.matches(Some("nvim")));
    assert!(!NeovimHook.matches(Some("Neovide")));
    assert!(!NeovimHook.matches(Some("vim")));
    assert!(!NeovimHook.matches(None));
}

#[test]
fn build_argv_emits_nvim_dash_s() {
    let data = HookData::Neovim {
        session_path: "/var/lib/iris/sessions/foo.vim".into(),
        argv_fallback: vec!["nvim".into()],
    };
    let argv = NeovimHook.build_argv(&data).unwrap();
    assert_eq!(
        argv,
        vec![
            "nvim".to_string(),
            "-S".to_string(),
            "/var/lib/iris/sessions/foo.vim".to_string(),
        ]
    );
}

#[test]
fn build_argv_empty_session_path_falls_back() {
    let data = HookData::Neovim {
        session_path: String::new(),
        argv_fallback: vec!["nvim".into()],
    };
    let argv = NeovimHook.build_argv(&data).unwrap();
    assert_eq!(argv, vec!["nvim".to_string()]);
}

#[test]
fn build_argv_empty_session_path_no_fallback_errors() {
    let data = HookData::Neovim { session_path: String::new(), argv_fallback: vec![] };
    assert!(NeovimHook.build_argv(&data).is_err());
}

#[test]
fn neovim_build_argv_wrong_variant_errors() {
    let data = HookData::Browser {
        app_id: "firefox".into(),
        argv_fallback: vec!["firefox".into()],
    };
    assert!(NeovimHook.build_argv(&data).is_err());
}

#[test]
fn sockets_are_found_by_process() {
    assert_eq!(canonical_socket(12), "nvim.12.0");
    let names = vec![
        "bus".to_string(),
        "nvim.123.0".to_string(),
        "nvim.12.7".to_string(),
        "nvim.12.8".to_string(),
    ];
    assert_eq!(pick_socket(12, &names), Some(2));
    assert_eq!(pick_socket(9, &names), None);
}

#[test]
fn session_files_are_numbered() {
    let mut n = 7u64;
    let a = random_suffix(&mut n);
    let b = random_suffix(&mut n);
    assert_eq!(a, "000000007");
    assert_eq!(b, "000000008");
    n = 12_345_678_901;
    assert_eq!(random_suffix(&mut n), "12345678901");
    assert_eq!(session_file_name(42, &a), "nvim-42-000000007.vim");
    assert_eq!(mksession_expr("/a'b/s.vim"), "execute('mksession! /a''b/s.vim')");
    let e = NeovimHook.plan_capture(&window(Some("nvim"), None)).unwrap_err();
    assert_eq!(e.message(), "nvim window has no pid; can't probe RPC socket");
}

// -------------------------------------------------------------------- terminal

#[test]
fn matches_each_supported_terminal() {
    for app_id in [
        "foot",
        "Alacritty",
        "kitty",
        "com.mitchellh.ghostty",
        "org.wezfurlong.wezterm",
    ] {
        assert!(TerminalHook.matches(Some(app_id)), "should match {app_id}");
    }
}

#[test]
fn terminal_does_not_match_unknown_or_none() {
    assert!(!TerminalHook.matches(None));
    assert!(!TerminalHook.matches(Some("firefox")));
    assert!(!TerminalHook.matches(Some("nvim")));
    assert!(!TerminalHook.matches(Some("alacritty")));
}

#[test]
fn build_argv_table_per_terminal() {
    let cases: &[(&str, &str, &str)] = &[
        ("foot", "foot", "--working-directory"),
        ("Alacritty", "alacritty", "--working-directory"),
        ("kitty", "kitty", "--directory"),
        ("com.mitchellh.ghostty", "ghostty", "--working-directory"),
        ("org.wezfurlong.wezterm", "wezterm", "--cwd"),
    ];
    for (app_id, expected_bin, expected_flag) in cases {
        let data = HookData::Terminal {
            app_id: (*app_id).into(),
            cwd: Some("/home/rushi/code".into()),
            argv_fallback: vec![(*expected_bin).into()],
        };
        let argv = TerminalHook.build_argv(&data).unwrap();
        assert_eq!(
            argv,
            vec![
                expected_bin.to_string(),
                expected_flag.to_string(),
                "/home/rushi/code".to_string(),
            ],
            "wrong argv for {app_id}"
        );
    }
}

#[test]
fn build_argv_no_cwd_falls_back_to_argv() {
    let data = HookData::Terminal {
        app_id: "kitty".into(),
        cwd: None,
        argv_fallback: vec!["kitty".into()],
    };
    let argv = TerminalHook.build_argv(&data).unwrap();
    assert_eq!(argv, vec!["kitty".to_string()]);
}

#[test]
fn build_argv_no_cwd_no_fallback_errors() {
    let data = HookData::Terminal { app_id: "kitty".into(), cwd: None, argv_fallback: vec![] };
    assert!(TerminalHook.build_argv(&data).is_err());
}

#[test]
fn build_argv_unknown_app_id_errors() {
    let data = HookData::Terminal {
        app_id: "weird-fork-of-foot".into(),
        cwd: Some("/tmp".into()),
        argv_fallback: vec!["weird".into()],
    };
    let err = TerminalHook.build_argv(&data).unwrap_err();
    assert!(err.message().contains("no terminal binary mapping"));
}

#[test]
fn terminal_build_argv_wrong_variant_errors() {
    let data = HookData::Browser {
        app_id: "firefox".into(),
        argv_fallback: vec!["firefox".into()],
    };
    let err = TerminalHook.build_argv(&data).unwrap_err();
    assert_eq!(err.message(), "TerminalHook can't build argv from non-Terminal variant");
}

#[test]
fn terminal_capture_needs_a_process() {
    let e = TerminalHook.plan_capture(&window(Some("kitty"), None)).unwrap_err();
    assert_eq!(e.message(), "terminal kitty has no pid; can't read /proc/<pid>/cwd");
    let w = window(Some("Alacritty"), Some(5));
    assert!(matches!(TerminalHook.plan_capture(&w), Ok(Need::Cwd(5))));
    match TerminalHook.finish_capture(&w, Facts::Cwd("/x".into())).unwrap() {
        HookData::Terminal { app_id, cwd, argv_fallback } => {
            assert_eq!(app_id, "Alacritty");
            assert_eq!(cwd.as_deref(), Some("/x"));
            assert_eq!(argv_fallback, vec!["alacritty".to_string()]);
        }
        other => panic!("{other:?}"),
    }
}

// ---------------------------------------------------------------------- vscode

#[test]
fn matches_each_supported_id() {
    for app_id in ["code", "Code", "code-oss", "code-insiders", "com.visualstudio.code.oss"] {
        assert!(VsCodeHook.matches(Some(app_id)), "should match {app_id}");
    }
}

#[test]
fn vscode_does_not_match_unknown_or_none() {
    assert!(!VsCodeHook.matches(None));
    assert!(!VsCodeHook.matches(Some("nvim")));
    assert!(!VsCodeHook.matches(Some("vscode")));
}

#[test]
fn build_argv_includes_new_window_when_cwd_present() {
    let data = HookData::VsCode {
        app_id: "code".into(),
        cwd: Some("/home/rushi/proj".into()),
        argv_fallback: vec!["code".into()],
    };
    let argv = VsCodeHook.build_argv(&data).unwrap();
    assert_eq!(
        argv,
        vec![
            "code".to_string(),
            "--new-window".to_string(),
            "/home/rushi/proj".to_string()
        ]
    );
}

#[test]
fn build_argv_appends_new_window_to_fallback() {
    let data = HookData::VsCode {
        app_id: "code".into(),
        cwd: None,
        argv_fallback: vec!["code".into()],
    };
    let argv = VsCodeHook.build_argv(&data).unwrap();
    assert_eq!(argv, vec!["code".to_string(), "--new-window".to_string()]);
}

#[test]
fn build_argv_does_not_double_add_new_window() {
    let data = HookData::VsCode {
        app_id: "code".into(),
        cwd: None,
        argv_fallback: vec!["code".into(), "--new-window".into()],
    };
    let argv = VsCodeHook.build_argv(&data).unwrap();
    assert_eq!(argv, vec!["code".to_string(), "--new-window".to_string()]);
}

#[test]
fn vscode_build_argv_wrong_variant_errors() {
    let data = HookData::Browser {
        app_id: "firefox".into(),
        argv_fallback: vec!["firefox".into()],
    };
    assert!(VsCodeHook.build_argv(&data).is_err());
}

#[test]
fn capitalized_code_app_id_maps_to_lowercase_bin() {
    let data = HookData::VsCode {
        app_id: "Code".into(),
        cwd: Some("/tmp".into()),
        argv_fallback: vec!["code".into()],
    };
    let argv = VsCodeHook.build_argv(&data).unwrap();
    assert_eq!(argv[0], "code");
}
