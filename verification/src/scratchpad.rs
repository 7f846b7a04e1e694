//! `iris scratchpad`: its arguments. It does nothing yet.

use vstd::prelude::*;
use vstd::string::*;

verus! {

/// Arguments of `iris scratchpad`.
#[derive(Debug)]
pub struct ScratchpadArgs {
    pub command: ScratchpadCmd,
}

/// What `iris scratchpad` will do.
#[derive(Debug)]
pub enum ScratchpadCmd {
    /// Put the focused window into the strip.
    Add,
    /// Take a window out of the strip.
    Remove,
    /// List the windows in the strip.
    List,
    /// Expand the focused window of the strip.
    PeekToggle,
    /// Focus the next window of the strip, or the one before.
    Cycle { reverse: bool },
}

/// Refuses every command.
pub fn run(args: ScratchpadArgs) -> (r: Result<(), String>)
    ensures
        r matches Err(e) && e@
            == "`iris scratchpad` not implemented yet (planned for weekend 6)"@,
{
    Err("`iris scratchpad` not implemented yet (planned for weekend 6)".to_owned())
}

} // verus!
