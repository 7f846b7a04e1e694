//! Terminal emulators. The record is the directory that the terminal was in;
//! how it is told to start there differs from one to the other.

use vstd::prelude::*;
use vstd::string::*;

use crate::bridge::proto::Window;
use crate::snapshot::hooks::{
    just, no_app_id, no_binary, three, wrong_variant, AppHook, Facts, HookError, HookView, Need,
    Outcome,
};
use crate::snapshot::schema::HookData;
use crate::text::{clone_strings, opt_str_view, str_eq};

verus! {

/// The hook for terminal emulators.
pub struct TerminalHook;

/// The program of a terminal, and the flag that names the directory.
pub open spec fn terminal_bin_and_flag(app_id: Seq<char>) -> Option<(Seq<char>, Seq<char>)> {
    if app_id == "foot"@ {
        Some(("foot"@, "--working-directory"@))
    } else if app_id == "Alacritty"@ {
        Some(("alacritty"@, "--working-directory"@))
    } else if app_id == "kitty"@ {
        Some(("kitty"@, "--directory"@))
    } else if app_id == "com.mitchellh.ghostty"@ {
        Some(("ghostty"@, "--working-directory"@))
    } else if app_id == "org.wezfurlong.wezterm"@ {
        Some(("wezterm"@, "--cwd"@))
    } else {
        None
    }
}

/// The program of a terminal, and the flag that names the directory.
pub fn bin_and_flag_for(app_id: &str) -> (r: Option<(&'static str, &'static str)>)
    ensures
        match r {
            Some(bf) => terminal_bin_and_flag(app_id@) == Some((bf.0@, bf.1@)),
            None => terminal_bin_and_flag(app_id@) is None,
        },
{
    if str_eq(app_id, "foot") {
        Some(("foot", "--working-directory"))
    } else if str_eq(app_id, "Alacritty") {
        Some(("alacritty", "--working-directory"))
    } else if str_eq(app_id, "kitty") {
        Some(("kitty", "--directory"))
    } else if str_eq(app_id, "com.mitchellh.ghostty") {
        Some(("ghostty", "--working-directory"))
    } else if str_eq(app_id, "org.wezfurlong.wezterm") {
        Some(("wezterm", "--cwd"))
    } else {
        None
    }
}

/// The program of a terminal.
pub fn bin_for(app_id: &str) -> (r: Option<&'static str>)
    ensures
        opt_str_view(r) == (match terminal_bin_and_flag(app_id@) {
            Some(bf) => Some(bf.0),
            None => None,
        }),
{
    match bin_and_flag_for(app_id) {
        Some(bf) => Some(bf.0),
        None => None,
    }
}

/// The error for a terminal that names no process.
pub open spec fn no_terminal_pid(app_id: Seq<char>) -> Seq<char> {
    "terminal "@ + app_id + " has no pid; can't read /proc/<pid>/cwd"@
}

impl AppHook for TerminalHook {
    open spec fn label(&self) -> Seq<char> {
        "terminal"@
    }

    open spec fn handles(&self, app_id: Option<Seq<char>>) -> bool {
        app_id matches Some(id) && terminal_bin_and_flag(id) is Some
    }

    open spec fn need(&self, w: Window) -> Outcome<Need> {
        match w.app_id {
            None => Outcome::Failed(no_app_id("TerminalHook"@)),
            Some(app_id) => match w.pid {
                None => Outcome::Failed(no_terminal_pid(app_id@)),
                Some(pid) => Outcome::Done(Need::Cwd(pid)),
            },
        }
    }

    open spec fn record(&self, w: Window, facts: Facts) -> Outcome<HookView> {
        let app_id = w.app_id->0@;
        match terminal_bin_and_flag(app_id) {
            Some(bf) => Outcome::Done(
                HookView::Terminal {
                    app_id,
                    cwd: Some(facts->Cwd_0@),
                    argv_fallback: seq![bf.0],
                },
            ),
            None => Outcome::Failed(no_binary("terminal"@, app_id, false)),
        }
    }

    open spec fn argv(&self, data: HookView) -> Outcome<Seq<Seq<char>>> {
        match data {
            HookView::Terminal { app_id, cwd, argv_fallback } => match terminal_bin_and_flag(
                app_id,
            ) {
                None => Outcome::Failed(no_binary("terminal"@, app_id, true)),
                Some(bf) => match cwd {
                    Some(cwd) => Outcome::Done(seq![bf.0, bf.1, cwd]),
                    None => if argv_fallback.len() == 0 {
                        Outcome::Failed("Terminal HookData has no cwd AND no argv_fallback"@)
                    } else {
                        Outcome::Done(argv_fallback)
                    },
                },
            },
            _ => Outcome::Failed(wrong_variant("TerminalHook"@, "non-Terminal"@)),
        }
    }

    fn name(&self) -> &'static str {
        "terminal"
    }

    fn matches(&self, app_id: Option<&str>) -> bool {
        match app_id {
            Some(id) => bin_and_flag_for(id).is_some(),
            None => false,
        }
    }

    fn plan_capture(&self, w: &Window) -> Result<Need, HookError> {
        match &w.app_id {
            None => Err(HookError::NoAppId("TerminalHook")),
            Some(app_id) => match w.pid {
                None => {
                    let mut s = "terminal ".to_owned();
                    s.append(app_id.as_str());
                    s.append(" has no pid; can't read /proc/<pid>/cwd");
                    Err(HookError::NoPid(s))
                },
                Some(pid) => Ok(Need::Cwd(pid)),
            },
        }
    }

    fn finish_capture(&self, w: &Window, facts: Facts) -> Result<HookData, HookError> {
        match (&w.app_id, facts) {
            (Some(app_id), Facts::Cwd(cwd)) => match bin_for(app_id.as_str()) {
                Some(bin) => Ok(
                    HookData::Terminal {
                        app_id: app_id.clone(),
                        cwd: Some(cwd),
                        argv_fallback: just(bin),
                    },
                ),
                None => Err(
                    HookError::NoBinary { kind: "terminal", app_id: app_id.clone(), edited: false },
                ),
            },
            _ => Err(HookError::NoAppId("TerminalHook")),
        }
    }

    fn build_argv(&self, data: &HookData) -> Result<Vec<String>, HookError> {
        match data {
            HookData::Terminal { app_id, cwd, argv_fallback } => match bin_and_flag_for(
                app_id.as_str(),
            ) {
                None => Err(
                    HookError::NoBinary { kind: "terminal", app_id: app_id.clone(), edited: true },
                ),
                Some(bf) => match cwd {
                    Some(cwd) => Ok(three(bf.0, bf.1, cwd.as_str())),
                    None => {
                        if argv_fallback.len() == 0 {
                            return Err(
                                HookError::EmptyArgv(
                                    "Terminal HookData has no cwd AND no argv_fallback",
                                ),
                            );
                        }
                        Ok(clone_strings(argv_fallback))
                    },
                },
            },
            _ => Err(HookError::WrongVariant { hook: "TerminalHook", expects: "non-Terminal" }),
        }
    }
}

} // verus!
