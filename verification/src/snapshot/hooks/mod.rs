//! What is known about applications: what to capture of a window when it is
//! saved, and the command line that brings it back.
//!
//! Each hook is for some application ids; the first one that matches is used,
//! and the generic hook, which comes last, matches everything. Where a
//! capture fails, the generic one is tried in its place: the window is then
//! started again without what only its own hook would know.
//!
//! A capture reads what the system tells about a process. A hook says which
//! facts it needs, and makes its record of them.

pub mod browser;
pub mod generic;
pub mod neovim;
pub mod terminal;
pub mod vscode;

use vstd::prelude::*;
use vstd::string::*;

use crate::bridge::proto::Window;
use crate::snapshot::schema::HookData;
use crate::text::{opt_str_view, opt_view, signed_decimal, signed_decimal_string, views};

pub use crate::snapshot::hooks::browser::BrowserHook;
pub use crate::snapshot::hooks::generic::GenericHook;
pub use crate::snapshot::hooks::neovim::NeovimHook;
pub use crate::snapshot::hooks::terminal::TerminalHook;
pub use crate::snapshot::hooks::vscode::VsCodeHook;

verus! {

/// Why a hook could not do its work.
#[derive(Debug)]
pub enum HookError {
    /// The record was made by another hook.
    WrongVariant { hook: &'static str, expects: &'static str },
    /// The record holds no command line.
    EmptyArgv(&'static str),
    /// No program is known for the application.
    NoBinary { kind: &'static str, app_id: String, edited: bool },
    /// The window does not name its application.
    NoAppId(&'static str),
    /// The window does not name its process; the text says what for.
    NoPid(String),
    /// The process has no command line.
    EmptyCmdline(i32),
    /// A failure to find something out, in its own words.
    Outside(String),
}

impl HookError {
    /// The text that is logged.
    pub open spec fn text(&self) -> Seq<char> {
        match self {
            HookError::WrongVariant { hook, expects } => wrong_variant(hook@, expects@),
            HookError::EmptyArgv(what) => what@,
            HookError::NoBinary { kind, app_id, edited } => no_binary(kind@, app_id@, *edited),
            HookError::NoAppId(hook) => no_app_id(hook@),
            HookError::NoPid(what) => what@,
            HookError::EmptyCmdline(pid) => "/proc/"@ + signed_decimal(*pid as int)
                + "/cmdline is empty (kernel thread or zombie?)"@,
            HookError::Outside(words) => words@,
        }
    }

    /// The text that is logged.
    pub fn message(&self) -> (r: String)
        ensures
            r@ == self.text(),
    {
        match self {
            HookError::WrongVariant { hook, expects } => {
                let mut s = (*hook).to_owned();
                s.append(" can't build argv from ");
                s.append(*expects);
                s.append(" variant");
                s
            },
            HookError::EmptyArgv(what) => (*what).to_owned(),
            HookError::NoBinary { kind, app_id, edited } => {
                let mut s = "no ".to_owned();
                s.append(*kind);
                s.append(" binary mapping for app_id ");
                s.append(app_id.as_str());
                s.append(
                    if *edited {
                        "; HookData was hand-edited?"
                    } else {
                        ""
                    },
                );
                s
            },
            HookError::NoAppId(hook) => {
                let mut s = (*hook).to_owned();
                s.append("::capture called with app_id=None");
                s
            },
            HookError::NoPid(what) => what.clone(),
            HookError::EmptyCmdline(pid) => {
                let mut s = "/proc/".to_owned();
                s.append(signed_decimal_string(*pid).as_str());
                s.append("/cmdline is empty (kernel thread or zombie?)");
                s
            },
            HookError::Outside(words) => words.clone(),
        }
    }
}

/// What a hook needs to know to make its record of a window.
#[derive(Debug)]
pub enum Need {
    /// Nothing beyond the window.
    Nothing,
    /// The working directory of a process.
    Cwd(i32),
    /// The command line of a process, and its working directory where it can
    /// be read.
    Process(i32),
    /// A session file that the editor with this process id writes.
    Session(i32),
}

/// What was found out.
#[derive(Debug)]
pub enum Facts {
    Nothing,
    Cwd(String),
    Process { cmdline: Vec<u8>, cwd: Option<String> },
    Session(String),
}

/// The facts are those that were needed.
pub open spec fn fits(need: Need, facts: Facts) -> bool {
    match need {
        Need::Nothing => facts is Nothing,
        Need::Cwd(_) => facts is Cwd,
        Need::Process(_) => facts is Process,
        Need::Session(_) => facts is Session,
    }
}

/// The text of a result: what it is made of, or the text of the error.
pub ghost enum Outcome<T> {
    Done(T),
    Failed(Seq<char>),
}

/// What a record says, with strings taken as their characters.
pub ghost enum HookView {
    Generic { argv: Seq<Seq<char>>, cwd: Option<Seq<char>> },
    Terminal { app_id: Seq<char>, cwd: Option<Seq<char>>, argv_fallback: Seq<Seq<char>> },
    Neovim { session_path: Seq<char>, argv_fallback: Seq<Seq<char>> },
    Browser { app_id: Seq<char>, argv_fallback: Seq<Seq<char>> },
    VsCode { app_id: Seq<char>, cwd: Option<Seq<char>>, argv_fallback: Seq<Seq<char>> },
}

/// What a record says.
pub open spec fn hook_view(d: HookData) -> HookView {
    match d {
        HookData::Generic { argv, cwd } => HookView::Generic {
            argv: views(argv@),
            cwd: opt_view(cwd),
        },
        HookData::Terminal { app_id, cwd, argv_fallback } => HookView::Terminal {
            app_id: app_id@,
            cwd: opt_view(cwd),
            argv_fallback: views(argv_fallback@),
        },
        HookData::Neovim { session_path, argv_fallback } => HookView::Neovim {
            session_path: session_path@,
            argv_fallback: views(argv_fallback@),
        },
        HookData::Browser { app_id, argv_fallback } => HookView::Browser {
            app_id: app_id@,
            argv_fallback: views(argv_fallback@),
        },
        HookData::VsCode { app_id, cwd, argv_fallback } => HookView::VsCode {
            app_id: app_id@,
            cwd: opt_view(cwd),
            argv_fallback: views(argv_fallback@),
        },
    }
}

/// The command line came out as described, or the error did.
pub open spec fn is_argv(r: Result<Vec<String>, HookError>, o: Outcome<Seq<Seq<char>>>) -> bool {
    match o {
        Outcome::Done(argv) => r matches Ok(v) && views(v@) == argv,
        Outcome::Failed(text) => r matches Err(e) && e.text() == text,
    }
}

/// The record came out as described, or the error did.
pub open spec fn is_record(r: Result<HookData, HookError>, o: Outcome<HookView>) -> bool {
    match o {
        Outcome::Done(v) => r matches Ok(d) && hook_view(d) == v,
        Outcome::Failed(text) => r matches Err(e) && e.text() == text,
    }
}

/// The need came out as described, or the error did.
pub open spec fn is_need(r: Result<Need, HookError>, o: Outcome<Need>) -> bool {
    match o {
        Outcome::Done(n) => r == Ok::<Need, HookError>(n),
        Outcome::Failed(text) => r matches Err(e) && e.text() == text,
    }
}

/// Knowledge about some applications.
pub trait AppHook {
    /// The name that logs use.
    spec fn label(&self) -> Seq<char>;

    /// The applications that the hook is for.
    spec fn handles(&self, app_id: Option<Seq<char>>) -> bool;

    /// What the hook needs to know about a window.
    spec fn need(&self, w: Window) -> Outcome<Need>;

    /// The record that the hook makes.
    spec fn record(&self, w: Window, facts: Facts) -> Outcome<HookView>;

    /// The command line that the hook builds.
    spec fn argv(&self, data: HookView) -> Outcome<Seq<Seq<char>>>;

    /// The name that logs use.
    fn name(&self) -> (r: &'static str)
        ensures
            r@ == self.label(),
    ;

    /// The hook is for this application. A window may name none.
    fn matches(&self, app_id: Option<&str>) -> (r: bool)
        ensures
            r == self.handles(opt_str_view(app_id)),
    ;

    /// What is to be found out about a window before it is recorded.
    fn plan_capture(&self, w: &Window) -> (r: Result<Need, HookError>)
        ensures
            is_need(r, self.need(*w)),
    ;

    /// The record of a window, made of what was found out.
    fn finish_capture(&self, w: &Window, facts: Facts) -> (r: Result<HookData, HookError>)
        requires
            self.need(*w) matches Outcome::Done(need) && fits(need, facts),
        ensures
            is_record(r, self.record(*w, facts)),
    ;

    /// The command line that brings a recorded window back.
    fn build_argv(&self, data: &HookData) -> (r: Result<Vec<String>, HookError>)
        ensures
            is_argv(r, self.argv(hook_view(*data))),
    ;
}

/// One string, as a list.
pub(crate) fn just(s: &str) -> (r: Vec<String>)
    ensures
        views(r@) == seq![s@],
{
    let mut v: Vec<String> = Vec::new();
    v.push(s.to_owned());
    assert(views(v@) =~= seq![s@]);
    v
}

/// Three strings, as a list.
pub(crate) fn three(a: &str, b: &str, c: &str) -> (r: Vec<String>)
    ensures
        views(r@) == seq![a@, b@, c@],
{
    let mut v: Vec<String> = Vec::new();
    v.push(a.to_owned());
    v.push(b.to_owned());
    v.push(c.to_owned());
    assert(views(v@) =~= seq![a@, b@, c@]);
    v
}

/// The error for a record that another hook made.
pub open spec fn wrong_variant(hook: Seq<char>, expects: Seq<char>) -> Seq<char> {
    hook + " can't build argv from "@ + expects + " variant"@
}

/// The error for an application of which no program is known.
pub open spec fn no_binary(kind: Seq<char>, app_id: Seq<char>, edited: bool) -> Seq<char> {
    "no "@ + kind + " binary mapping for app_id "@ + app_id + (if edited {
        "; HookData was hand-edited?"@
    } else {
        ""@
    })
}

/// The error for a window that names no application.
pub open spec fn no_app_id(hook: Seq<char>) -> Seq<char> {
    hook + "::capture called with app_id=None"@
}

/// One of the hooks.
#[derive(Debug, Clone, Copy, PartialEq, Eq, Structural)]
pub enum Hook {
    Terminal,
    VsCode,
    Neovim,
    Browser,
    Generic,
}

impl AppHook for Hook {
    open spec fn label(&self) -> Seq<char> {
        match self {
            Hook::Terminal => TerminalHook.label(),
            Hook::VsCode => VsCodeHook.label(),
            Hook::Neovim => NeovimHook.label(),
            Hook::Browser => BrowserHook.label(),
            Hook::Generic => GenericHook.label(),
        }
    }

    open spec fn handles(&self, app_id: Option<Seq<char>>) -> bool {
        match self {
            Hook::Terminal => TerminalHook.handles(app_id),
            Hook::VsCode => VsCodeHook.handles(app_id),
            Hook::Neovim => NeovimHook.handles(app_id),
            Hook::Browser => BrowserHook.handles(app_id),
            Hook::Generic => GenericHook.handles(app_id),
        }
    }

    open spec fn need(&self, w: Window) -> Outcome<Need> {
        match self {
            Hook::Terminal => TerminalHook.need(w),
            Hook::VsCode => VsCodeHook.need(w),
            Hook::Neovim => NeovimHook.need(w),
            Hook::Browser => BrowserHook.need(w),
            Hook::Generic => GenericHook.need(w),
        }
    }

    open spec fn record(&self, w: Window, facts: Facts) -> Outcome<HookView> {
        match self {
            Hook::Terminal => TerminalHook.record(w, facts),
            Hook::VsCode => VsCodeHook.record(w, facts),
            Hook::Neovim => NeovimHook.record(w, facts),
            Hook::Browser => BrowserHook.record(w, facts),
            Hook::Generic => GenericHook.record(w, facts),
        }
    }

    open spec fn argv(&self, data: HookView) -> Outcome<Seq<Seq<char>>> {
        match self {
            Hook::Terminal => TerminalHook.argv(data),
            Hook::VsCode => VsCodeHook.argv(data),
            Hook::Neovim => NeovimHook.argv(data),
            Hook::Browser => BrowserHook.argv(data),
            Hook::Generic => GenericHook.argv(data),
        }
    }

    fn name(&self) -> &'static str {
        match self {
            Hook::Terminal => TerminalHook.name(),
            Hook::VsCode => VsCodeHook.name(),
            Hook::Neovim => NeovimHook.name(),
            Hook::Browser => BrowserHook.name(),
            Hook::Generic => GenericHook.name(),
        }
    }

    fn matches(&self, app_id: Option<&str>) -> bool {
        match self {
            Hook::Terminal => TerminalHook.matches(app_id),
            Hook::VsCode => VsCodeHook.matches(app_id),
            Hook::Neovim => NeovimHook.matches(app_id),
            Hook::Browser => BrowserHook.matches(app_id),
            Hook::Generic => GenericHook.matches(app_id),
        }
    }

    fn plan_capture(&self, w: &Window) -> Result<Need, HookError> {
        match self {
            Hook::Terminal => TerminalHook.plan_capture(w),
            Hook::VsCode => VsCodeHook.plan_capture(w),
            Hook::Neovim => NeovimHook.plan_capture(w),
            Hook::Browser => BrowserHook.plan_capture(w),
            Hook::Generic => GenericHook.plan_capture(w),
        }
    }

    fn finish_capture(&self, w: &Window, facts: Facts) -> Result<HookData, HookError> {
        match self {
            Hook::Terminal => TerminalHook.finish_capture(w, facts),
            Hook::VsCode => VsCodeHook.finish_capture(w, facts),
            Hook::Neovim => NeovimHook.finish_capture(w, facts),
            Hook::Browser => BrowserHook.finish_capture(w, facts),
            Hook::Generic => GenericHook.finish_capture(w, facts),
        }
    }

    fn build_argv(&self, data: &HookData) -> Result<Vec<String>, HookError> {
        match self {
            Hook::Terminal => TerminalHook.build_argv(data),
            Hook::VsCode => VsCodeHook.build_argv(data),
            Hook::Neovim => NeovimHook.build_argv(data),
            Hook::Browser => BrowserHook.build_argv(data),
            Hook::Generic => GenericHook.build_argv(data),
        }
    }
}

/// The hook for an application: the first that is for it.
pub open spec fn hook_for(app_id: Option<Seq<char>>) -> Hook {
    if Hook::Terminal.handles(app_id) {
        Hook::Terminal
    } else if Hook::VsCode.handles(app_id) {
        Hook::VsCode
    } else if Hook::Neovim.handles(app_id) {
        Hook::Neovim
    } else if Hook::Browser.handles(app_id) {
        Hook::Browser
    } else {
        Hook::Generic
    }
}

/// The hook for an application.
pub fn dispatch(app_id: Option<&str>) -> (r: Hook)
    ensures
        r == hook_for(opt_str_view(app_id)),
{
    if Hook::Terminal.matches(app_id) {
        Hook::Terminal
    } else if Hook::VsCode.matches(app_id) {
        Hook::VsCode
    } else if Hook::Neovim.matches(app_id) {
        Hook::Neovim
    } else if Hook::Browser.matches(app_id) {
        Hook::Browser
    } else {
        Hook::Generic
    }
}

/// The record that is kept of a window: the one of its own hook, or the
/// generic one where that failed, or none where both did.
pub fn settle_capture(
    specific: Result<HookData, HookError>,
    generic: Result<HookData, HookError>,
) -> (r: Option<HookData>)
    ensures
        r == (match (specific, generic) {
            (Ok(d), _) => Some(d),
            (Err(_), Ok(d)) => Some(d),
            (Err(_), Err(_)) => None,
        }),
{
    match specific {
        Ok(d) => Some(d),
        Err(_) => match generic {
            Ok(d) => Some(d),
            Err(_) => None,
        },
    }
}

/// Every application has a hook that is for it.
pub proof fn law_every_application_has_a_hook(app_id: Option<Seq<char>>)
    ensures
        hook_for(app_id).handles(app_id),
{
}

/// A command line that a hook builds is never empty.
pub proof fn law_built_argv_is_not_empty(h: Hook, data: HookView)
    ensures
        h.argv(data) matches Outcome::Done(argv) ==> argv.len() > 0,
{
}

/// From every record that a hook makes it builds a command line.
pub proof fn law_recorded_window_can_be_started(h: Hook, w: Window, facts: Facts)
    requires
        h.need(w) matches Outcome::Done(need) && fits(need, facts),
    ensures
        h.record(w, facts) matches Outcome::Done(data) ==> h.argv(data) is Done,
{
}

} // verus!
