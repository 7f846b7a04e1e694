//! Starting saved windows again: what is recorded of a window, and what the
//! record comes back as.

use vstd::prelude::*;
use vstd::string::*;
use vstd::utf8::*;

use crate::bridge::proto::Window;
use crate::json::{field, Json, JsonView};
use crate::snapshot::hooks::generic::{
    arguments, law_arguments_are_whole, law_arguments_make_up_the_line,
    law_quoted_argv_is_read_back, law_quoted_text_is_read_back, law_split_undoes_terminating,
    lossy_text, parse_cmdline, script, shell_quote, shell_read, shell_word, shell_words,
    terminated, ShellMode, ShellRead,
};
use crate::snapshot::hooks::neovim::{
    canonical_socket, law_escaped_path_is_read_back, law_suffixes_are_distinct, mksession_expr,
    pick_socket, random_suffix, session_file_name, vim_read,
};
use crate::snapshot::hooks::{dispatch, settle_capture, AppHook, Facts, Hook, HookError, Need};
use crate::snapshot::load::{
    build_spawn_argv, next_waiting, spawn_token, Respawn, RespawnStep, SpawnOutcome,
};
use crate::snapshot::schema::{HookData, WindowEntry};
use crate::text::{opt_view, signed_decimal, views};

verus! {

// ----------------------------------------------------------------------- hooks

/// The terminals that are known, with their programs and the flags that name
/// the directory to start in.
pub open spec fn terminal(app: Seq<char>, bin: Seq<char>, flag: Seq<char>) -> bool {
    ||| app == "foot"@ && bin == "foot"@ && flag == "--working-directory"@
    ||| app == "Alacritty"@ && bin == "alacritty"@ && flag == "--working-directory"@
    ||| app == "kitty"@ && bin == "kitty"@ && flag == "--directory"@
    ||| app == "com.mitchellh.ghostty"@ && bin == "ghostty"@ && flag == "--working-directory"@
    ||| app == "org.wezfurlong.wezterm"@ && bin == "wezterm"@ && flag == "--cwd"@
}

/// The code editors that are known, with their programs.
pub open spec fn code_editor(app: Seq<char>, bin: Seq<char>) -> bool {
    ||| (app == "code"@ || app == "Code"@) && bin == "code"@
    ||| (app == "code-oss"@ || app == "com.visualstudio.code.oss"@) && bin == "code-oss"@
    ||| app == "code-insiders"@ && bin == "code-insiders"@
}

/// The browsers that are known, with their programs.
pub open spec fn browser(app: Seq<char>, bin: Seq<char>) -> bool {
    ||| app == "firefox"@ && bin == "firefox"@
    ||| app == "chromium"@ && bin == "chromium"@
    ||| app == "Brave-browser"@ && bin == "brave-browser"@
    ||| app == "google-chrome"@ && bin == "google-chrome-stable"@
}

/// Each known application gets its own hook, and every other one the generic
/// hook.
pub proof fn law_applications_have_their_hooks(app: Option<&str>, r: Hook)
    requires
        call_ensures(dispatch, (app,), r),
    ensures
        app matches Some(id) ==> {
            &&& r is Terminal <==> exists|bin: Seq<char>, flag: Seq<char>| terminal(id@, bin, flag)
            &&& r is VsCode <==> exists|bin: Seq<char>| code_editor(id@, bin)
            &&& r is Neovim <==> id@ == "nvim"@
            &&& r is Browser <==> exists|bin: Seq<char>| browser(id@, bin)
        },
        app is None ==> r is Generic,
{
    lemma_apart();
    if let Some(id) = app {
        if r is Terminal {
            let (bin, flag) = if id@ == "foot"@ {
                ("foot"@, "--working-directory"@)
            } else if id@ == "Alacritty"@ {
                ("alacritty"@, "--working-directory"@)
            } else if id@ == "kitty"@ {
                ("kitty"@, "--directory"@)
            } else if id@ == "com.mitchellh.ghostty"@ {
                ("ghostty"@, "--working-directory"@)
            } else {
                ("wezterm"@, "--cwd"@)
            };
            assert(terminal(id@, bin, flag));
        }
        if r is VsCode {
            let bin = if id@ == "code"@ || id@ == "Code"@ {
                "code"@
            } else if id@ == "code-insiders"@ {
                "code-insiders"@
            } else {
                "code-oss"@
            };
            assert(code_editor(id@, bin));
        }
        if r is Browser {
            let bin = if id@ == "firefox"@ {
                "firefox"@
            } else if id@ == "chromium"@ {
                "chromium"@
            } else if id@ == "Brave-browser"@ {
                "brave-browser"@
            } else {
                "google-chrome-stable"@
            };
            assert(browser(id@, bin));
        }
    }
}

/// A terminal is asked for its directory, and a terminal that was in one is
/// started there again: by its program, with its flag.
pub proof fn law_terminal_comes_back_in_its_directory(
    w: Window,
    pid: i32,
    need: Result<Need, HookError>,
    dir: String,
    d: Result<HookData, HookError>,
    entry: WindowEntry,
    r: Result<Vec<String>, HookError>,
    bin: Seq<char>,
    flag: Seq<char>,
)
    requires
        w.app_id is Some && terminal(w.app_id->0@, bin, flag),
        w.pid == Some(pid),
        call_ensures(<Hook as AppHook>::plan_capture, (&Hook::Terminal, &w), need),
        call_ensures(<Hook as AppHook>::finish_capture, (&Hook::Terminal, &w, Facts::Cwd(dir)), d),
        d matches Ok(data) ==> entry.hook == Some(data),
        opt_view(entry.app_id) == opt_view(w.app_id),
        call_ensures(build_spawn_argv, (&entry,), r),
    ensures
        need == Ok::<Need, HookError>(Need::Cwd(pid)),
        d is Ok,
        r matches Ok(argv) && argv@.len() == 3 && argv@[0]@ == bin && argv@[1]@ == flag && argv@[2]@
            == dir@,
{
    lemma_apart();
    if let Ok(v) = r {
        assert(views(v@) == seq![bin, flag, dir@]);
        assert(v@.len() == 3);
        assert(views(v@)[0] == v@[0]@);
        assert(views(v@)[1] == v@[1]@);
        assert(views(v@)[2] == v@[2]@);
    }
}

/// A code editor is asked for its directory, and comes back with a new window
/// on it.
pub proof fn law_code_editor_comes_back_in_its_directory(
    w: Window,
    pid: i32,
    need: Result<Need, HookError>,
    dir: String,
    d: Result<HookData, HookError>,
    entry: WindowEntry,
    r: Result<Vec<String>, HookError>,
    bin: Seq<char>,
)
    requires
        w.app_id is Some && code_editor(w.app_id->0@, bin),
        w.pid == Some(pid),
        call_ensures(<Hook as AppHook>::plan_capture, (&Hook::VsCode, &w), need),
        call_ensures(<Hook as AppHook>::finish_capture, (&Hook::VsCode, &w, Facts::Cwd(dir)), d),
        d matches Ok(data) ==> entry.hook == Some(data),
        opt_view(entry.app_id) == opt_view(w.app_id),
        call_ensures(build_spawn_argv, (&entry,), r),
    ensures
        need == Ok::<Need, HookError>(Need::Cwd(pid)),
        d is Ok,
        r matches Ok(argv) && argv@.len() == 3 && argv@[0]@ == bin && argv@[1]@ == "--new-window"@
            && argv@[2]@ == dir@,
{
    lemma_apart();
    if let Ok(v) = r {
        assert(views(v@) == seq![bin, "--new-window"@, dir@]);
        assert(v@.len() == 3);
        assert(views(v@)[0] == v@[0]@);
        assert(views(v@)[1] == v@[1]@);
        assert(views(v@)[2] == v@[2]@);
    }
}

/// Whatever a code editor's record says, where a command line comes out it
/// asks for a new window.
pub proof fn law_code_editor_opens_a_new_window(d: HookData, r: Result<Vec<String>, HookError>)
    requires
        call_ensures(<Hook as AppHook>::build_argv, (&Hook::VsCode, &d), r),
    ensures
        r matches Ok(argv) ==> exists|i: int|
            0 <= i < argv@.len() && (#[trigger] argv@[i])@ == "--new-window"@,
{
    if let Ok(v) = r {
        let all = views(v@);
        assert(all.contains("--new-window"@)) by {
            if let HookData::VsCode { app_id, cwd, argv_fallback } = d {
                if cwd is Some {
                    assert(all[1] == "--new-window"@);
                } else {
                    let f = views(argv_fallback@);
                    if !f.contains("--new-window"@) {
                        assert(f.push("--new-window"@).last() == "--new-window"@);
                        assert(all[all.len() - 1] == "--new-window"@);
                    }
                }
            }
        }
        let i = choose|i: int| 0 <= i < all.len() && all[i] == "--new-window"@;
        assert(v@[i]@ == "--new-window"@);
    }
}

/// An editor is asked for a session, and comes back with it.
pub proof fn law_editor_comes_back_with_its_session(
    w: Window,
    pid: i32,
    need: Result<Need, HookError>,
    path: String,
    d: Result<HookData, HookError>,
    entry: WindowEntry,
    r: Result<Vec<String>, HookError>,
)
    requires
        w.app_id is Some && w.app_id->0@ == "nvim"@,
        w.pid == Some(pid),
        path@.len() > 0,
        call_ensures(<Hook as AppHook>::plan_capture, (&Hook::Neovim, &w), need),
        call_ensures(<Hook as AppHook>::finish_capture, (&Hook::Neovim, &w, Facts::Session(path)), d),
        d matches Ok(data) ==> entry.hook == Some(data),
        opt_view(entry.app_id) == opt_view(w.app_id),
        call_ensures(build_spawn_argv, (&entry,), r),
    ensures
        need == Ok::<Need, HookError>(Need::Session(pid)),
        d is Ok,
        r matches Ok(argv) && argv@.len() == 3 && argv@[0]@ == "nvim"@ && argv@[1]@ == "-S"@
            && argv@[2]@ == path@,
{
    lemma_apart();
    if let Ok(v) = r {
        assert(views(v@) == seq!["nvim"@, "-S"@, path@]);
        assert(v@.len() == 3);
        assert(views(v@)[0] == v@[0]@);
        assert(views(v@)[1] == v@[1]@);
        assert(views(v@)[2] == v@[2]@);
    }
}

/// A browser is asked for nothing, and comes back as its program alone.
pub proof fn law_browser_comes_back(
    w: Window,
    need: Result<Need, HookError>,
    d: Result<HookData, HookError>,
    entry: WindowEntry,
    r: Result<Vec<String>, HookError>,
    bin: Seq<char>,
)
    requires
        w.app_id is Some && browser(w.app_id->0@, bin),
        call_ensures(<Hook as AppHook>::plan_capture, (&Hook::Browser, &w), need),
        call_ensures(<Hook as AppHook>::finish_capture, (&Hook::Browser, &w, Facts::Nothing), d),
        d matches Ok(data) ==> entry.hook == Some(data),
        opt_view(entry.app_id) == opt_view(w.app_id),
        call_ensures(build_spawn_argv, (&entry,), r),
    ensures
        need == Ok::<Need, HookError>(Need::Nothing),
        d is Ok,
        r matches Ok(argv) && argv@.len() == 1 && argv@[0]@ == bin,
{
    lemma_apart();
    if let Ok(v) = r {
        assert(views(v@) == seq![bin]);
        assert(v@.len() == 1);
        assert(views(v@)[0] == v@[0]@);
    }
}

/// Any other process is asked for its command line and directory, and its
/// record is what was found: the arguments, and the directory.
pub proof fn law_process_is_recorded(
    w: Window,
    pid: i32,
    need: Result<Need, HookError>,
    cmdline: Vec<u8>,
    cwd: Option<String>,
    args: Seq<Seq<u8>>,
    d: Result<HookData, HookError>,
)
    requires
        w.pid == Some(pid),
        call_ensures(<Hook as AppHook>::plan_capture, (&Hook::Generic, &w), need),
        call_ensures(
            <Hook as AppHook>::finish_capture,
            (&Hook::Generic, &w, Facts::Process { cmdline, cwd }),
            d,
        ),
        cmdline@ == terminated(args),
        forall|i: int| 0 <= i < args.len() ==> !(#[trigger] args[i]).contains(0u8),
    ensures
        need == Ok::<Need, HookError>(Need::Process(pid)),
        d is Ok <==> args.len() > 0,
        d matches Ok(data) ==> {
            &&& data matches HookData::Generic { argv, cwd: at }
            &&& argv@.len() == args.len()
            &&& forall|i: int|
                0 <= i < args.len() ==> (#[trigger] argv@[i])@ == lossy_text(args[i])
            &&& opt_view(at) == opt_view(cwd)
        },
        d matches Err(e) ==> e.text() == "/proc/"@ + signed_decimal(pid as int)
            + "/cmdline is empty (kernel thread or zombie?)"@,
{
    law_split_undoes_terminating(args);
    if let Ok(data) = d {
        if let HookData::Generic { argv, .. } = data {
            assert(views(argv@).len() == argv@.len());
            assert forall|i: int| 0 <= i < args.len() implies (#[trigger] argv@[i])@ == lossy_text(
                args[i],
            ) by {
                assert(views(argv@)[i] == argv@[i]@);
            }
        }
    }
}

/// A command line is read as its arguments: each ends in a zero byte, the
/// last one also where that byte is missing, and each that is valid UTF-8 is
/// read as it is.
pub proof fn law_command_line_is_read(
    bytes: Vec<u8>,
    args: Seq<Seq<u8>>,
    whole: bool,
    r: Vec<String>,
)
    requires
        call_ensures(parse_cmdline, (&bytes,), r),
        forall|i: int| 0 <= i < args.len() ==> !(#[trigger] args[i]).contains(0u8),
        whole ==> bytes@ == terminated(args),
        !whole ==> args.len() > 0 && args.last().len() > 0 && bytes@ == terminated(args).drop_last(),
    ensures
        r@.len() == args.len(),
        forall|i: int|
            0 <= i < args.len() && valid_utf8(#[trigger] args[i]) ==> r@[i]@ == decode_utf8(args[i]),
{
    law_split_undoes_terminating(args);
    if !whole {
        law_arguments_make_up_the_line(bytes@);
        law_arguments_are_whole(bytes@);
        let last = args[args.len() - 1];
        let t = terminated(args);
        assert(t =~= terminated(args.drop_last()) + last.push(0u8));
        assert(t.last() == 0u8);
        assert(bytes@.last() == last.last());
        assert(last.contains(last.last()));
        assert(bytes@.last() != 0u8);
        assert(bytes@.push(0u8) =~= t);
        law_split_undoes_terminating(arguments(bytes@));
    }
    assert(views(r@).len() == r@.len());
}

/// A record of a command line without a directory comes back as it is; one
/// with a directory as a script that a shell reads as entering the directory
/// and running the arguments, whatever characters they hold. The application
/// does not matter.
pub proof fn law_recorded_command_line_comes_back(
    entry: WindowEntry,
    argv: Vec<String>,
    cwd: Option<String>,
    r: Result<Vec<String>, HookError>,
)
    requires
        entry.hook == Some(HookData::Generic { argv, cwd }),
        argv@.len() > 0,
        call_ensures(build_spawn_argv, (&entry,), r),
    ensures
        cwd is None ==> (r matches Ok(v) && views(v@) == views(argv@)),
        cwd matches Some(dir) ==> {
            &&& r matches Ok(v)
            &&& v@.len() == 3
            &&& v@[0]@ == "sh"@
            &&& v@[1]@ == "-lc"@
            &&& exists|at: Seq<char>, run: Seq<char>|
                {
                    &&& v@[2]@ == "cd "@ + at + " && exec "@ + run
                    &&& #[trigger] shell_read(at) == (ShellRead {
                        words: Seq::empty(),
                        word: Some(dir@),
                        mode: ShellMode::Plain,
                    })
                    &&& #[trigger] shell_read(run) == (ShellRead {
                        words: views(argv@).drop_last(),
                        word: Some(views(argv@).last()),
                        mode: ShellMode::Plain,
                    })
                }
        },
{
    if let Some(dir) = cwd {
        let words = views(argv@);
        let v = r->Ok_0;
        assert(views(v@) == seq!["sh"@, "-lc"@, script(dir@, words)]);
        assert(v@.len() == 3);
        assert(views(v@)[0] == v@[0]@);
        assert(views(v@)[1] == v@[1]@);
        assert(views(v@)[2] == v@[2]@);
        law_quoted_text_is_read_back(dir@);
        law_quoted_argv_is_read_back(words);
        let at = shell_word(dir@);
        let run = shell_words(words);
        assert(v@[2]@ == "cd "@ + at + " && exec "@ + run);
    }
}

/// A quoted text is read by a shell as one word: the text.
pub proof fn law_shell_reads_what_was_quoted(s: &str, r: String)
    requires
        call_ensures(shell_quote, (s,), r),
    ensures
        shell_read(r@) == (ShellRead {
            words: Seq::empty(),
            word: Some(s@),
            mode: ShellMode::Plain,
        }),
{
    law_quoted_text_is_read_back(s@);
}

/// An entry without a record is started by the name of its application, and
/// not at all where it names none.
pub proof fn law_entry_without_a_record(entry: WindowEntry, r: Result<Vec<String>, HookError>)
    requires
        entry.hook is None,
        call_ensures(build_spawn_argv, (&entry,), r),
    ensures
        entry.app_id matches Some(id) ==> (r matches Ok(v) && v@.len() == 1 && v@[0]@ == id@),
        entry.app_id is None ==> r is Err,
{
    if let Ok(v) = r {
        assert(views(v@).len() == v@.len());
        assert(views(v@)[0] == v@[0]@);
    }
}

/// Where nothing tells more, a record's fallback is the command line: of a
/// terminal without a directory, of an editor without a session, of a browser
/// in any case. An empty one is refused.
pub proof fn law_fallback_is_used(
    h: Hook,
    d: HookData,
    fallback: Vec<String>,
    r: Result<Vec<String>, HookError>,
)
    requires
        ({
            ||| h is Terminal && (d matches HookData::Terminal { app_id, cwd, argv_fallback }
                && cwd is None && argv_fallback == fallback && exists|bin: Seq<char>, flag: Seq<char>|
                terminal(app_id@, bin, flag))
            ||| h is Neovim && (d matches HookData::Neovim { session_path, argv_fallback }
                && session_path@.len() == 0 && argv_fallback == fallback)
            ||| h is Browser && (d matches HookData::Browser { app_id, argv_fallback }
                && argv_fallback == fallback)
        }),
        call_ensures(<Hook as AppHook>::build_argv, (&h, &d), r),
    ensures
        fallback@.len() > 0 ==> (r matches Ok(v) && views(v@) == views(fallback@)),
        fallback@.len() == 0 ==> r is Err,
{
    lemma_apart();
    assert(views(fallback@).len() == fallback@.len());
}

/// A record of one hook is refused by the others.
pub proof fn law_foreign_records_are_refused(h: Hook, d: HookData, r: Result<Vec<String>, HookError>)
    requires
        call_ensures(<Hook as AppHook>::build_argv, (&h, &d), r),
        !(h is Terminal && d is Terminal),
        !(h is VsCode && d is VsCode),
        !(h is Neovim && d is Neovim),
        !(h is Browser && d is Browser),
        !(h is Generic && d is Generic),
    ensures
        r is Err,
{
}

/// A window without a process cannot be recorded but as a browser, and one
/// that names no application not as a terminal, a code editor or a browser.
pub proof fn law_what_a_capture_takes(h: Hook, w: Window, r: Result<Need, HookError>)
    requires
        call_ensures(<Hook as AppHook>::plan_capture, (&h, &w), r),
    ensures
        r is Err <==> (w.pid is None && !(h is Browser)) || (w.app_id is None && (h is Terminal
            || h is VsCode || h is Browser)),
        r matches Ok(n) ==> {
            &&& n is Cwd <==> h is Terminal || h is VsCode
            &&& n is Session <==> h is Neovim
            &&& n is Process <==> h is Generic
            &&& n is Nothing <==> h is Browser
        },
{
}

/// A window's own record is kept where there is one, the generic one in its
/// place, and none only where both failed.
pub proof fn law_own_record_comes_first(
    specific: Result<HookData, HookError>,
    generic: Result<HookData, HookError>,
    r: Option<HookData>,
)
    requires
        call_ensures(settle_capture, (specific, generic), r),
    ensures
        specific matches Ok(d) ==> r == Some(d),
        specific is Err ==> (generic matches Ok(d) ==> r == Some(d)),
        r is None <==> specific is Err && generic is Err,
{
}

// ------------------------------------------------------------------- sessions

/// A text begins with another.
pub open spec fn begins_with(s: Seq<char>, start: Seq<char>) -> bool {
    s.len() >= start.len() && forall|i: int| 0 <= i < start.len() ==> #[trigger] s[i] == start[i]
}

/// The usual socket of an editor is recognised as one of its sockets, and the
/// first that is recognised is taken.
pub proof fn law_socket_of_an_editor(
    pid: i32,
    names: Vec<String>,
    usual: String,
    k: int,
    r: Option<usize>,
)
    requires
        call_ensures(canonical_socket, (pid,), usual),
        call_ensures(pick_socket, (pid, &names), r),
        0 <= k < names@.len(),
        names@[k]@ == usual@,
    ensures
        usual@ == "nvim."@ + signed_decimal(pid as int) + ".0"@,
        r matches Some(i) && i <= k && begins_with(
            names@[i as int]@,
            "nvim."@ + signed_decimal(pid as int) + "."@,
        ),
{
    reveal_strlit(".");
    reveal_strlit("0");
    reveal_strlit(".0");
    let prefix = "nvim."@ + signed_decimal(pid as int) + "."@;
    assert("."@ + "0"@ =~= ".0"@);
    assert(usual@ =~= "nvim."@ + signed_decimal(pid as int) + ".0"@);
    assert(crate::text::starts_with(usual@, prefix)) by {
        assert(usual@.take(prefix.len() as int) =~= prefix);
    }
    assert(crate::text::starts_with(
        names@[k]@,
        crate::snapshot::hooks::neovim::socket_prefix(pid),
    ));
    if let Some(i) = r {
        let name = names@[i as int]@;
        assert(name.take(prefix.len() as int) == prefix);
        assert forall|c: int| 0 <= c < prefix.len() implies #[trigger] name[c] == prefix[c] by {
            assert(name.take(prefix.len() as int)[c] == prefix[c]);
        }
    }
}

/// Two suffixes that are drawn one after the other differ.
pub proof fn law_suffixes_differ()
    ensures
        forall|a: &mut u64, s: String, b: &mut u64, t: String|
            #[trigger] call_ensures(random_suffix, (a,), s) && #[trigger] call_ensures(
                random_suffix,
                (b,),
                t,
            ) && *b == *final(a) ==> s@ != t@,
{
    assert forall|a: &mut u64, s: String, b: &mut u64, t: String|
        #[trigger] call_ensures(random_suffix, (a,), s) && #[trigger] call_ensures(
            random_suffix,
            (b,),
            t,
        ) && *b == *final(a) implies s@ != t@ by {
        law_suffixes_are_distinct(*a as nat, *b as nat);
    }
}

/// Session files with different suffixes have different names, each of which
/// holds its editor's process id.
pub proof fn law_session_files_differ(pid: i32, s: &str, t: &str, f: String, g: String)
    requires
        call_ensures(session_file_name, (pid, s), f),
        call_ensures(session_file_name, (pid, t), g),
    ensures
        f@ == g@ ==> s@ == t@,
        begins_with(f@, "nvim-"@ + signed_decimal(pid as int) + "-"@),
{
    let head = "nvim-"@ + signed_decimal(pid as int) + "-"@;
    assert(f@ == head + s@ + ".vim"@);
    assert(g@ == head + t@ + ".vim"@);
    if f@ == g@ {
        assert(s@.len() == t@.len());
        assert(s@ =~= f@.subrange(head.len() as int, (head.len() + s@.len()) as int));
        assert(t@ =~= g@.subrange(head.len() as int, (head.len() + s@.len()) as int));
    }
}

/// The editor is told to write its session to the path itself, whatever
/// characters the path holds.
pub proof fn law_session_is_written_to_the_path(path: &str, r: String)
    requires
        call_ensures(mksession_expr, (path,), r),
    ensures
        exists|quoted: Seq<char>|
            r@ == "execute('mksession! "@ + quoted + "')"@ && #[trigger] vim_read(quoted) == Some(
                path@,
            ),
{
    law_escaped_path_is_read_back(path@);
}

// ----------------------------------------------------------------- respawning

/// Saved windows are started one after the other; then each that was started
/// is waited for, in the same order; then nothing is left.
pub proof fn law_windows_are_started_in_order(entries: &[WindowEntry])
    ensures
        forall|s: &mut Respawn, r: RespawnStep| #[trigger]
            call_ensures(Respawn::step, (s, entries), r) && s.wf(entries@) ==> {
                let n = s.outcomes@.len();
                &&& r is Spawn || r is PassOver <==> n < entries@.len()
                &&& r matches RespawnStep::Spawn { position, argv } ==> position == n
                &&& r matches RespawnStep::PassOver { position, why } ==> position == n
                    && final(s).outcomes@.len() == n + 1 && !(final(s).outcomes@.last() is Waiting)
                &&& r matches RespawnStep::Wait { position } ==> position < n
                    && s.outcomes@[position as int] is Waiting && forall|j: int|
                    0 <= j < position ==> !((#[trigger] s.outcomes@[j]) is Waiting)
                &&& r is Finished ==> n == entries@.len() && forall|j: int|
                    0 <= j < n ==> !((#[trigger] s.outcomes@[j]) is Waiting)
            },
{
    assert forall|s: &mut Respawn, r: RespawnStep| #[trigger]
        call_ensures(Respawn::step, (s, entries), r) && s.wf(entries@) && r is Wait implies {
        let position = r->Wait_position;
        &&& position < s.outcomes@.len()
        &&& s.outcomes@[position as int] is Waiting
        &&& forall|j: int| 0 <= j < position ==> !((#[trigger] s.outcomes@[j]) is Waiting)
    } by {
        lemma_next_waiting(s.outcomes@, s.waited as int);
    }
}

proof fn lemma_next_waiting(outcomes: Seq<SpawnOutcome>, from: int)
    requires
        0 <= from,
    ensures
        next_waiting(outcomes, from) matches Some(p) ==> {
            &&& from <= p < outcomes.len()
            &&& outcomes[p] is Waiting
            &&& forall|j: int| from <= j < p ==> !((#[trigger] outcomes[j]) is Waiting)
        },
    decreases outcomes.len() - from,
{
    if from < outcomes.len() && !(outcomes[from] is Waiting) {
        lemma_next_waiting(outcomes, from + 1);
    }
}

/// Each saved window is started by its own command line, and passed over only
/// where none can be built, for the reason that is told.
pub proof fn law_windows_are_started_by_their_command_lines(
    entries: &[WindowEntry],
    n: int,
    b: Result<Vec<String>, HookError>,
)
    requires
        0 <= n < entries@.len(),
        call_ensures(build_spawn_argv, (&entries@[n],), b),
    ensures
        forall|s: &mut Respawn, r: RespawnStep| #[trigger]
            call_ensures(Respawn::step, (s, entries), r) && s.wf(entries@) && s.outcomes@.len() == n
                ==> {
                &&& r is Spawn <==> b is Ok
                &&& r matches RespawnStep::Spawn { position, argv } ==> views(argv@) == views(
                    b->Ok_0@,
                )
                &&& r matches RespawnStep::PassOver { position, why } ==> why@ == b->Err_0.text()
            },
{
}

/// A window whose start was answered with a token is waited for under that
/// token; without a token, or without an answer, it is not.
pub proof fn law_token_is_waited_for(answer: Json, token: Seq<char>)
    ensures
        forall|s: &mut Respawn, r: Option<String>| #[trigger]
            call_ensures(Respawn::on_spawned, (s, Some(answer)), r) && field(
                answer@,
                "activation_token"@,
            ) == JsonView::Str(token) ==> {
                &&& opt_view(r) == Some(token)
                &&& final(s).outcomes@ == s.outcomes@.push(SpawnOutcome::Waiting)
            },
        forall|s: &mut Respawn, r: Option<String>| #[trigger]
            call_ensures(Respawn::on_spawned, (s, Some(answer)), r) && !(field(
                answer@,
                "activation_token"@,
            ) is Str) ==> {
                &&& r is None
                &&& final(s).outcomes@ == s.outcomes@.push(SpawnOutcome::NoToken)
            },
        forall|s: &mut Respawn, r: Option<String>| #[trigger]
            call_ensures(Respawn::on_spawned, (s, None), r) ==> {
                &&& r is None
                &&& final(s).outcomes@ == s.outcomes@.push(SpawnOutcome::Failed)
            },
{
}

/// What a wait came to is noted at the window that was waited for, and
/// nowhere else.
pub proof fn law_wait_is_noted(window: Option<u64>)
    ensures
        forall|s: &mut Respawn, r: ()| #[trigger]
            call_ensures(Respawn::on_waited, (s, window), r) && s.waited < s.outcomes@.len() ==> {
                &&& final(s).outcomes@.len() == s.outcomes@.len()
                &&& final(s).outcomes@[s.waited as int] == (match window {
                    Some(id) => SpawnOutcome::Window(id),
                    None => SpawnOutcome::NoWindow,
                })
                &&& forall|j: int|
                    0 <= j < s.outcomes@.len() && j != s.waited ==> #[trigger] final(s).outcomes@[j]
                        == s.outcomes@[j]
            },
{
}

proof fn lemma_apart()
    ensures
        "foot"@.len() == 4 && "foot"@[0] == 'f',
        "Alacritty"@.len() == 9,
        "kitty"@.len() == 5,
        "com.mitchellh.ghostty"@.len() == 21,
        "org.wezfurlong.wezterm"@.len() == 22,
        "code"@.len() == 4 && "code"@[0] == 'c',
        "Code"@.len() == 4 && "Code"@[0] == 'C',
        "code-oss"@.len() == 8 && "code-oss"@[1] == 'o',
        "code-insiders"@.len() == 13 && "code-insiders"@[0] == 'c',
        "com.visualstudio.code.oss"@.len() == 25,
        "nvim"@.len() == 4 && "nvim"@[0] == 'n',
        "firefox"@.len() == 7,
        "chromium"@.len() == 8 && "chromium"@[1] == 'h',
        "Brave-browser"@.len() == 13 && "Brave-browser"@[0] == 'B',
        "google-chrome"@.len() == 13 && "google-chrome"@[0] == 'g',
{
    reveal_strlit("foot");
    reveal_strlit("Alacritty");
    reveal_strlit("kitty");
    reveal_strlit("com.mitchellh.ghostty");
    reveal_strlit("org.wezfurlong.wezterm");
    reveal_strlit("code");
    reveal_strlit("Code");
    reveal_strlit("code-oss");
    reveal_strlit("code-insiders");
    reveal_strlit("com.visualstudio.code.oss");
    reveal_strlit("nvim");
    reveal_strlit("firefox");
    reveal_strlit("chromium");
    reveal_strlit("Brave-browser");
    reveal_strlit("google-chrome");
}

// --------------------------------------------------------------- applications

/// A hook is for the applications that it is chosen for; the generic one is
/// for all.
pub proof fn law_hooks_match_their_applications(h: Hook, app: Option<&str>, r: bool)
    requires
        call_ensures(<Hook as AppHook>::matches, (&h, app), r),
    ensures
        h is Generic ==> r,
        app is None && !(h is Generic) ==> !r,
        app matches Some(id) ==> {
            &&& h is Terminal ==> (r <==> exists|bin: Seq<char>, flag: Seq<char>|
                terminal(id@, bin, flag))
            &&& h is VsCode ==> (r <==> exists|bin: Seq<char>| code_editor(id@, bin))
            &&& h is Neovim ==> (r <==> id@ == "nvim"@)
            &&& h is Browser ==> (r <==> exists|bin: Seq<char>| browser(id@, bin))
        },
{
    lemma_apart();
    if let Some(id) = app {
        if r && h is Terminal {
            let bf = crate::snapshot::hooks::terminal::terminal_bin_and_flag(id@)->0;
            assert(terminal(id@, bf.0, bf.1));
        }
        if r && h is VsCode {
            assert(code_editor(id@, crate::snapshot::hooks::vscode::vscode_bin(id@)->0));
        }
        if r && h is Browser {
            assert(browser(id@, crate::snapshot::hooks::browser::browser_bin(id@)->0));
        }
    }
}

/// The hooks go by these names.
pub proof fn law_names_of_hooks(h: Hook, r: &'static str)
    requires
        call_ensures(<Hook as AppHook>::name, (&h,), r),
    ensures
        h is Terminal ==> r@ == "terminal"@,
        h is VsCode ==> r@ == "vscode"@,
        h is Neovim ==> r@ == "neovim"@,
        h is Browser ==> r@ == "browser"@,
        h is Generic ==> r@ == "generic"@,
{
}

/// The programs of known applications, and of no others.
pub proof fn law_programs_of_applications(
    id: &str,
    t: Option<(&'static str, &'static str)>,
    v: Option<&'static str>,
    b: Option<&'static str>,
    bin: Seq<char>,
    flag: Seq<char>,
)
    requires
        call_ensures(crate::snapshot::hooks::terminal::bin_and_flag_for, (id,), t),
        call_ensures(crate::snapshot::hooks::vscode::bin_for, (id,), v),
        call_ensures(crate::snapshot::hooks::browser::bin_for, (id,), b),
    ensures
        terminal(id@, bin, flag) <==> (t matches Some(bf) && bf.0@ == bin && bf.1@ == flag),
        code_editor(id@, bin) <==> (v matches Some(p) && p@ == bin),
        browser(id@, bin) <==> (b matches Some(p) && p@ == bin),
{
    lemma_apart();
}

/// The token of a process is the one in the answer.
pub proof fn law_token_of_an_answer(answer: Json, r: Option<String>)
    requires
        call_ensures(spawn_token, (&answer,), r),
    ensures
        field(answer@, "activation_token"@) matches JsonView::Str(t) ==> opt_view(r) == Some(t),
        !(field(answer@, "activation_token"@) is Str) ==> r is None,
{
}

/// Nothing is started and nothing is waited for at first.
pub proof fn law_respawn_begins_with_nothing(r: Respawn)
    requires
        call_ensures(Respawn::new, (), r),
    ensures
        r.outcomes@.len() == 0,
        r.waited == 0,
{
}

/// A code editor without a directory is started by its fallback, with the
/// flag for a new window added at the end where it is not there.
pub proof fn law_code_editor_keeps_its_fallback(
    app_id: String,
    fallback: Vec<String>,
    r: Result<Vec<String>, HookError>,
    bin: Seq<char>,
)
    requires
        code_editor(app_id@, bin),
        call_ensures(
            <Hook as AppHook>::build_argv,
            (&Hook::VsCode, &HookData::VsCode { app_id, cwd: None, argv_fallback: fallback }),
            r,
        ),
    ensures
        fallback@.len() == 0 ==> r is Err,
        fallback@.len() > 0 && views(fallback@).contains("--new-window"@) ==> (r matches Ok(v)
            && views(v@) == views(fallback@)),
        fallback@.len() > 0 && !views(fallback@).contains("--new-window"@) ==> (r matches Ok(v)
            && views(v@) == views(fallback@).push("--new-window"@)),
{
    lemma_apart();
    assert(views(fallback@).len() == fallback@.len());
}

/// Why a window cannot be captured is told apart.
pub proof fn law_why_a_capture_fails(h: Hook, w: Window, r: Result<Need, HookError>)
    requires
        call_ensures(<Hook as AppHook>::plan_capture, (&h, &w), r),
        r is Err,
    ensures
        h is Terminal && w.app_id is None ==> r->Err_0.text()
            == "TerminalHook"@ + "::capture called with app_id=None"@,
        h is VsCode && w.app_id is None ==> r->Err_0.text()
            == "VsCodeHook"@ + "::capture called with app_id=None"@,
        h is Browser ==> r->Err_0.text() == "BrowserHook"@ + "::capture called with app_id=None"@,
        h is Terminal ==> (w.app_id matches Some(a) ==> r->Err_0.text() == "terminal "@ + a@
            + " has no pid; can't read /proc/<pid>/cwd"@),
        h is VsCode && w.app_id is Some ==> r->Err_0.text()
            == "VS Code window has no pid; can't read /proc/<pid>/cwd"@,
        h is Neovim ==> r->Err_0.text() == "nvim window has no pid; can't probe RPC socket"@,
        h is Generic ==> r->Err_0.text() == "window has no pid; can't capture argv"@,
{
}

/// An application that a hook does not know is neither recorded nor started
/// by it: the application is named, and a record of it counts as edited.
pub proof fn law_unknown_applications_are_refused(
    w: Window,
    dir: String,
    d: Result<HookData, HookError>,
    app_id: String,
    fallback: Vec<String>,
    r: Result<Vec<String>, HookError>,
)
    requires
        w.app_id == Some(app_id),
        forall|bin: Seq<char>, flag: Seq<char>| !terminal(app_id@, bin, flag),
        call_ensures(<Hook as AppHook>::finish_capture, (&Hook::Terminal, &w, Facts::Cwd(dir)), d),
        call_ensures(
            <Hook as AppHook>::build_argv,
            (
                &Hook::Terminal,
                &HookData::Terminal { app_id, cwd: Some(dir), argv_fallback: fallback },
            ),
            r,
        ),
    ensures
        d matches Err(e) && e.text() == "no terminal binary mapping for app_id "@ + app_id@,
        r matches Err(e) && e.text() == "no terminal binary mapping for app_id "@ + app_id@
            + "; HookData was hand-edited?"@,
{
    reveal_strlit("");
    reveal_strlit("no ");
    reveal_strlit("terminal");
    reveal_strlit(" binary mapping for app_id ");
    reveal_strlit("no terminal binary mapping for app_id ");
    assert("no "@ + "terminal"@ + " binary mapping for app_id "@
        =~= "no terminal binary mapping for app_id "@);
    let head = "no terminal binary mapping for app_id "@ + app_id@;
    assert("no "@ + "terminal"@ + " binary mapping for app_id "@ + app_id@ =~= head);
    assert(""@ =~= Seq::<char>::empty());
    assert(head + ""@ =~= head);
    if let Some(bf) = crate::snapshot::hooks::terminal::terminal_bin_and_flag(app_id@) {
        assert(terminal(app_id@, bf.0, bf.1));
    }
}

/// The same holds of code editors and browsers, except that a record of a
/// browser needs no program.
pub proof fn law_other_unknown_applications_are_refused(
    w: Window,
    dir: String,
    app_id: String,
    fallback: Vec<String>,
    d: Result<HookData, HookError>,
    r: Result<Vec<String>, HookError>,
    b: Result<HookData, HookError>,
)
    requires
        w.app_id == Some(app_id),
        call_ensures(<Hook as AppHook>::finish_capture, (&Hook::VsCode, &w, Facts::Cwd(dir)), d),
        call_ensures(
            <Hook as AppHook>::build_argv,
            (&Hook::VsCode, &HookData::VsCode { app_id, cwd: Some(dir), argv_fallback: fallback }),
            r,
        ),
        call_ensures(<Hook as AppHook>::finish_capture, (&Hook::Browser, &w, Facts::Nothing), b),
    ensures
        (forall|bin: Seq<char>| !code_editor(app_id@, bin)) ==> {
            &&& d matches Err(e) && e.text() == "no "@ + "VS Code"@ + " binary mapping for app_id "@
                + app_id@
            &&& r matches Err(e) && e.text() == "no "@ + "VS Code"@ + " binary mapping for app_id "@
                + app_id@ + "; HookData was hand-edited?"@
        },
        (forall|bin: Seq<char>| !browser(app_id@, bin)) ==> (b matches Err(e) && e.text() == "no "@
            + "browser"@ + " binary mapping for app_id "@ + app_id@),
{
    reveal_strlit("");
    assert(""@ =~= Seq::<char>::empty());
    let code = "no "@ + "VS Code"@ + " binary mapping for app_id "@ + app_id@;
    let web = "no "@ + "browser"@ + " binary mapping for app_id "@ + app_id@;
    assert(code + ""@ =~= code);
    assert(web + ""@ =~= web);
    if let Some(bin) = crate::snapshot::hooks::vscode::vscode_bin(app_id@) {
        assert(code_editor(app_id@, bin));
    }
    if let Some(bin) = crate::snapshot::hooks::browser::browser_bin(app_id@) {
        assert(browser(app_id@, bin));
    }
}

/// A record that holds nothing to start is refused in words that say so.
pub proof fn law_empty_records_are_refused(h: Hook, d: HookData, r: Result<Vec<String>, HookError>)
    requires
        call_ensures(<Hook as AppHook>::build_argv, (&h, &d), r),
    ensures
        h is Generic ==> (d matches HookData::Generic { argv, cwd } ==> (argv@.len() == 0 ==> (
        r matches Err(e) && e.text() == "HookData::Generic has empty argv; nothing to spawn"@))),
        h is Browser ==> (d matches HookData::Browser { app_id, argv_fallback } ==> (
        argv_fallback@.len() == 0 ==> (r matches Err(e) && e.text()
            == "Browser HookData has empty argv_fallback"@))),
        h is Neovim ==> (d matches HookData::Neovim { session_path, argv_fallback } ==> (
        session_path@.len() == 0 && argv_fallback@.len() == 0 ==> (r matches Err(e) && e.text()
            == "Neovim HookData has no session_path AND no argv_fallback"@))),
        h is Generic && !(d is Generic) ==> (r matches Err(e) && e.text() == "GenericHook"@
            + " can't build argv from "@ + "non-Generic"@ + " variant"@),
        h is Terminal && !(d is Terminal) ==> (r matches Err(e) && e.text() == "TerminalHook"@
            + " can't build argv from "@ + "non-Terminal"@ + " variant"@),
        h is VsCode && !(d is VsCode) ==> (r matches Err(e) && e.text() == "VsCodeHook"@
            + " can't build argv from "@ + "non-VsCode"@ + " variant"@),
        h is Neovim && !(d is Neovim) ==> (r matches Err(e) && e.text() == "NeovimHook"@
            + " can't build argv from "@ + "non-Neovim"@ + " variant"@),
        h is Browser && !(d is Browser) ==> (r matches Err(e) && e.text() == "BrowserHook"@
            + " can't build argv from "@ + "non-Browser"@ + " variant"@),
{
    match d {
        HookData::Generic { argv, .. } => {
            assert(views(argv@).len() == argv@.len());
        },
        HookData::Browser { argv_fallback, .. } => {
            assert(views(argv_fallback@).len() == argv_fallback@.len());
        },
        HookData::Neovim { argv_fallback, .. } => {
            assert(views(argv_fallback@).len() == argv_fallback@.len());
        },
        _ => {},
    }
}

} // verus!
