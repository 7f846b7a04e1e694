//! Browsers. They restore their own state: the record is just the program.

use vstd::prelude::*;
use vstd::string::*;

use crate::bridge::proto::Window;
use crate::snapshot::hooks::{
    just, no_app_id, no_binary, wrong_variant, AppHook, Facts, HookError, HookView, Need, Outcome,
};
use crate::snapshot::schema::HookData;
use crate::text::{clone_strings, opt_str_view, str_eq};

verus! {

/// The hook for browsers.
pub struct BrowserHook;

/// The program of a browser.
pub open spec fn browser_bin(app_id: Seq<char>) -> Option<Seq<char>> {
    if app_id == "firefox"@ {
        Some("firefox"@)
    } else if app_id == "chromium"@ {
        Some("chromium"@)
    } else if app_id == "Brave-browser"@ {
        Some("brave-browser"@)
    } else if app_id == "google-chrome"@ {
        Some("google-chrome-stable"@)
    } else {
        None
    }
}

/// The program of a browser.
pub fn bin_for(app_id: &str) -> (r: Option<&'static str>)
    ensures
        opt_str_view(r) == browser_bin(app_id@),
{
    if str_eq(app_id, "firefox") {
        Some("firefox")
    } else if str_eq(app_id, "chromium") {
        Some("chromium")
    } else if str_eq(app_id, "Brave-browser") {
        Some("brave-browser")
    } else if str_eq(app_id, "google-chrome") {
        Some("google-chrome-stable")
    } else {
        None
    }
}

impl AppHook for BrowserHook {
    open spec fn label(&self) -> Seq<char> {
        "browser"@
    }

    open spec fn handles(&self, app_id: Option<Seq<char>>) -> bool {
        app_id matches Some(id) && browser_bin(id) is Some
    }

    open spec fn need(&self, w: Window) -> Outcome<Need> {
        match w.app_id {
            None => Outcome::Failed(no_app_id("BrowserHook"@)),
            Some(_) => Outcome::Done(Need::Nothing),
        }
    }

    open spec fn record(&self, w: Window, facts: Facts) -> Outcome<HookView> {
        let app_id = w.app_id->0@;
        match browser_bin(app_id) {
            Some(bin) => Outcome::Done(HookView::Browser { app_id, argv_fallback: seq![bin] }),
            None => Outcome::Failed(no_binary("browser"@, app_id, false)),
        }
    }

    open spec fn argv(&self, data: HookView) -> Outcome<Seq<Seq<char>>> {
        match data {
            HookView::Browser { app_id, argv_fallback } => if argv_fallback.len() == 0 {
                Outcome::Failed("Browser HookData has empty argv_fallback"@)
            } else {
                Outcome::Done(argv_fallback)
            },
            _ => Outcome::Failed(wrong_variant("BrowserHook"@, "non-Browser"@)),
        }
    }

    fn name(&self) -> &'static str {
        "browser"
    }

    fn matches(&self, app_id: Option<&str>) -> bool {
        match app_id {
            Some(id) => bin_for(id).is_some(),
            None => false,
        }
    }

    fn plan_capture(&self, w: &Window) -> Result<Need, HookError> {
        match w.app_id {
            None => Err(HookError::NoAppId("BrowserHook")),
            Some(_) => Ok(Need::Nothing),
        }
    }

    fn finish_capture(&self, w: &Window, facts: Facts) -> Result<HookData, HookError> {
        match &w.app_id {
            None => Err(HookError::NoAppId("BrowserHook")),
            Some(app_id) => match bin_for(app_id.as_str()) {
                Some(bin) => Ok(
                    HookData::Browser { app_id: app_id.clone(), argv_fallback: just(bin) },
                ),
                None => Err(
                    HookError::NoBinary { kind: "browser", app_id: app_id.clone(), edited: false },
                ),
            },
        }
    }

    fn build_argv(&self, data: &HookData) -> Result<Vec<String>, HookError> {
        match data {
            HookData::Browser { app_id, argv_fallback } => {
                if argv_fallback.len() == 0 {
                    return Err(HookError::EmptyArgv("Browser HookData has empty argv_fallback"));
                }
                Ok(clone_strings(argv_fallback))
            },
            _ => Err(HookError::WrongVariant { hook: "BrowserHook", expects: "non-Browser" }),
        }
    }
}

} // verus!
