//! Topic names.

use vstd::prelude::*;

verus! {

pub const WINDOWS: &'static str = "windows";

pub const WORKSPACES: &'static str = "workspaces";

pub const FOCUS: &'static str = "focus";

pub const FOCUS_SAMPLE: &'static str = "focus.sample";

pub const FOCUS_SESSION_END: &'static str = "focus.session_end";

pub const IDLE: &'static str = "idle";

pub const STATE: &'static str = "state";

} // verus!
