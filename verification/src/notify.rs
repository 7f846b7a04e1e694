//! Whether desktop notices are shown.

use vstd::prelude::*;

verus! {

/// When notices are shown: where the terminal would not be seen, always, or
/// never.
#[derive(Debug, Clone, Copy, PartialEq, Eq, Structural)]
pub enum EmitMode {
    Auto,
    Force,
    Never,
}

/// The number by which a mode is stored.
pub open spec fn mode_code(m: EmitMode) -> u8 {
    match m {
        EmitMode::Auto => 0,
        EmitMode::Force => 1,
        EmitMode::Never => 2,
    }
}

/// The mode that two switches ask for: one to force notices, one to suppress
/// them. Both or neither leave it to the terminal.
pub fn mode_from_flags(toast: bool, no_toast: bool) -> (r: EmitMode)
    ensures
        r == (if toast && !no_toast {
            EmitMode::Force
        } else if no_toast && !toast {
            EmitMode::Never
        } else {
            EmitMode::Auto
        }),
{
    match (toast, no_toast) {
        (true, false) => EmitMode::Force,
        (false, true) => EmitMode::Never,
        _ => EmitMode::Auto,
    }
}

/// Stores a mode.
pub fn set_mode(stored: &mut u8, m: EmitMode)
    ensures
        *final(stored) == mode_code(m),
{
    *stored = match m {
        EmitMode::Auto => 0,
        EmitMode::Force => 1,
        EmitMode::Never => 2,
    };
}

/// Notices are shown in a stored mode. A mode that is not known shows none.
pub open spec fn emits(stored: u8, stderr_is_terminal: bool) -> bool {
    stored == mode_code(EmitMode::Force) || (stored == mode_code(EmitMode::Auto)
        && !stderr_is_terminal)
}

/// Notices are shown.
pub fn should_emit(stored: u8, stderr_is_terminal: bool) -> (r: bool)
    ensures
        r == emits(stored, stderr_is_terminal),
{
    if stored == 1 {
        true
    } else if stored == 0 {
        !stderr_is_terminal
    } else {
        false
    }
}

/// A mode that was stored is the one that is acted on.
pub proof fn law_stored_mode_is_obeyed(m: EmitMode, stderr_is_terminal: bool)
    ensures
        emits(mode_code(m), stderr_is_terminal) == (match m {
            EmitMode::Auto => !stderr_is_terminal,
            EmitMode::Force => true,
            EmitMode::Never => false,
        }),
{
}

} // verus!
