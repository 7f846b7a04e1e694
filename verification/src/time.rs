//! `iris time`: its arguments. It does nothing yet.

use vstd::prelude::*;
use vstd::string::*;

verus! {

/// Arguments of `iris time`.
#[derive(Debug)]
pub struct TimeArgs {
    pub command: TimeCmd,
}

/// What `iris time` will do.
#[derive(Debug)]
pub enum TimeCmd {
    /// Today's totals, by application or by title.
    Today { by_title: bool },
    /// The totals of the last seven days.
    Week { by_title: bool },
    /// One application over some days.
    App { app_id: String, days: u32 },
    /// The samples as they were taken.
    Raw { since: Option<String> },
    /// Record samples as they come.
    Watch,
}

/// Refuses every command.
pub fn run(args: TimeArgs) -> (r: Result<(), String>)
    ensures
        r matches Err(e) && e@ == "`iris time` not implemented yet (planned for weekend 7)"@,
{
    Err("`iris time` not implemented yet (planned for weekend 7)".to_owned())
}

} // verus!
