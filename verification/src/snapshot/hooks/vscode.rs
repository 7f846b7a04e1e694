//! Code editors. They are started with a flag that gives each saved window a
//! window of its own: without it a second start joins the first, no window
//! opens, and the wait for it runs out.

use vstd::prelude::*;
use vstd::string::*;

use crate::bridge::proto::Window;
use crate::snapshot::hooks::{
    just, no_app_id, no_binary, three, wrong_variant, AppHook, Facts, HookError, HookView, Need,
    Outcome,
};
use crate::snapshot::schema::HookData;
use crate::text::{clone_strings, opt_str_view, str_eq, views};

verus! {

/// The hook for code editors.
pub struct VsCodeHook;

/// The program of a code editor.
pub open spec fn vscode_bin(app_id: Seq<char>) -> Option<Seq<char>> {
    if app_id == "code"@ {
        Some("code"@)
    } else if app_id == "Code"@ {
        Some("code"@)
    } else if app_id == "code-oss"@ {
        Some("code-oss"@)
    } else if app_id == "code-insiders"@ {
        Some("code-insiders"@)
    } else if app_id == "com.visualstudio.code.oss"@ {
        Some("code-oss"@)
    } else {
        None
    }
}

/// The program of a code editor.
pub fn bin_for(app_id: &str) -> (r: Option<&'static str>)
    ensures
        opt_str_view(r) == vscode_bin(app_id@),
{
    if str_eq(app_id, "code") {
        Some("code")
    } else if str_eq(app_id, "Code") {
        Some("code")
    } else if str_eq(app_id, "code-oss") {
        Some("code-oss")
    } else if str_eq(app_id, "code-insiders") {
        Some("code-insiders")
    } else if str_eq(app_id, "com.visualstudio.code.oss") {
        Some("code-oss")
    } else {
        None
    }
}

/// The command line with the flag for a new window, which is added where it
/// is not there yet.
pub open spec fn with_new_window(argv: Seq<Seq<char>>) -> Seq<Seq<char>> {
    if argv.contains("--new-window"@) {
        argv
    } else {
        argv.push("--new-window"@)
    }
}

fn add_new_window(argv: &Vec<String>) -> (r: Vec<String>)
    ensures
        views(r@) == with_new_window(views(argv@)),
{
    let mut r = clone_strings(argv);
    let mut i: usize = 0;
    while i < argv.len()
        invariant
            i <= argv@.len(),
            r@ == argv@,
            forall|j: int| 0 <= j < i ==> (#[trigger] argv@[j])@ != "--new-window"@,
        decreases argv@.len() - i,
    {
        if str_eq(argv[i].as_str(), "--new-window") {
            assert(views(argv@)[i as int] == "--new-window"@);
            return r;
        }
        i += 1;
    }
    proof {
        if views(argv@).contains("--new-window"@) {
            let j = choose|j: int| 0 <= j < views(argv@).len() && views(argv@)[j] == "--new-window"@;
            assert(argv@[j]@ == "--new-window"@);
        }
    }
    r.push("--new-window".to_owned());
    assert(views(r@) =~= views(argv@).push("--new-window"@));
    r
}

impl AppHook for VsCodeHook {
    open spec fn label(&self) -> Seq<char> {
        "vscode"@
    }

    open spec fn handles(&self, app_id: Option<Seq<char>>) -> bool {
        app_id matches Some(id) && vscode_bin(id) is Some
    }

    open spec fn need(&self, w: Window) -> Outcome<Need> {
        match w.app_id {
            None => Outcome::Failed(no_app_id("VsCodeHook"@)),
            Some(_) => match w.pid {
                None => Outcome::Failed(
                    "VS Code window has no pid; can't read /proc/<pid>/cwd"@,
                ),
                Some(pid) => Outcome::Done(Need::Cwd(pid)),
            },
        }
    }

    open spec fn record(&self, w: Window, facts: Facts) -> Outcome<HookView> {
        let app_id = w.app_id->0@;
        match vscode_bin(app_id) {
            Some(bin) => Outcome::Done(
                HookView::VsCode {
                    app_id,
                    cwd: Some(facts->Cwd_0@),
                    argv_fallback: seq![bin],
                },
            ),
            None => Outcome::Failed(no_binary("VS Code"@, app_id, false)),
        }
    }

    open spec fn argv(&self, data: HookView) -> Outcome<Seq<Seq<char>>> {
        match data {
            HookView::VsCode { app_id, cwd, argv_fallback } => match vscode_bin(app_id) {
                None => Outcome::Failed(no_binary("VS Code"@, app_id, true)),
                Some(bin) => match cwd {
                    Some(cwd) => Outcome::Done(seq![bin, "--new-window"@, cwd]),
                    None => if argv_fallback.len() == 0 {
                        Outcome::Failed("VsCode HookData has no cwd AND no argv_fallback"@)
                    } else {
                        Outcome::Done(with_new_window(argv_fallback))
                    },
                },
            },
            _ => Outcome::Failed(wrong_variant("VsCodeHook"@, "non-VsCode"@)),
        }
    }

    fn name(&self) -> &'static str {
        "vscode"
    }

    fn matches(&self, app_id: Option<&str>) -> bool {
        match app_id {
            Some(id) => bin_for(id).is_some(),
            None => false,
        }
    }

    fn plan_capture(&self, w: &Window) -> Result<Need, HookError> {
        match w.app_id {
            None => Err(HookError::NoAppId("VsCodeHook")),
            Some(_) => match w.pid {
                None => Err(
                    HookError::NoPid(
                        "VS Code window has no pid; can't read /proc/<pid>/cwd".to_owned(),
                    ),
                ),
                Some(pid) => Ok(Need::Cwd(pid)),
            },
        }
    }

    fn finish_capture(&self, w: &Window, facts: Facts) -> Result<HookData, HookError> {
        match (&w.app_id, facts) {
            (Some(app_id), Facts::Cwd(cwd)) => match bin_for(app_id.as_str()) {
                Some(bin) => Ok(
                    HookData::VsCode {
                        app_id: app_id.clone(),
                        cwd: Some(cwd),
                        argv_fallback: just(bin),
                    },
                ),
                None => Err(
                    HookError::NoBinary { kind: "VS Code", app_id: app_id.clone(), edited: false },
                ),
            },
            _ => Err(HookError::NoAppId("VsCodeHook")),
        }
    }

    fn build_argv(&self, data: &HookData) -> Result<Vec<String>, HookError> {
        match data {
            HookData::VsCode { app_id, cwd, argv_fallback } => match bin_for(app_id.as_str()) {
                None => Err(
                    HookError::NoBinary { kind: "VS Code", app_id: app_id.clone(), edited: true },
                ),
                Some(bin) => match cwd {
                    Some(cwd) => Ok(three(bin, "--new-window", cwd.as_str())),
                    None => {
                        if argv_fallback.len() == 0 {
                            return Err(
                                HookError::EmptyArgv(
                                    "VsCode HookData has no cwd AND no argv_fallback",
                                ),
                            );
                        }
                        Ok(add_new_window(argv_fallback))
                    },
                },
            },
            _ => Err(HookError::WrongVariant { hook: "VsCodeHook", expects: "non-VsCode" }),
        }
    }
}

} // verus!
