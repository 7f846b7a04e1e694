//! What a snapshot holds: column placement, sizes, floating geometry, and
//! what each application's hook captured.
//!
//! Adding an optional field keeps the version; only an incompatible change
//! would raise it, and a snapshot of another version is refused.

use vstd::prelude::*;
use vstd::string::*;

use crate::bridge::proto::FloatingPosition;
use crate::text::{decimal, decimal_string};

verus! {

/// The version of the format.
pub const SCHEMA_VERSION: u32 = 1;

/// A point in time: seconds since the epoch, and nanoseconds within one.
#[derive(Debug, Clone, Copy, PartialEq, Eq, Structural)]
pub struct Timestamp {
    pub secs: i64,
    pub nanos: u32,
}

/// A saved workspace.
#[derive(Debug, Clone)]
pub struct Snapshot {
    pub version: u32,
    pub name: String,
    pub saved_at: Timestamp,
    pub workspace: WorkspaceMeta,
    pub windows: Vec<WindowEntry>,
}

/// The workspace that was saved.
#[derive(Debug, Clone)]
pub struct WorkspaceMeta {
    /// The index from one, as in key bindings.
    pub index: u8,
    pub name: Option<String>,
    pub output: Option<String>,
    /// The `save_id` of the window that had the focus.
    pub focused_save_id: Option<u64>,
}

/// A saved window.
#[derive(Debug, Clone)]
pub struct WindowEntry {
    /// An id of the snapshot's own: the compositor's lives only as long as
    /// the window and is never stored.
    pub save_id: u64,
    pub app_id: Option<String>,
    pub title: Option<String>,
    /// The column, from zero; absent for floating windows.
    pub column_index: Option<u32>,
    /// The tile within the column, from zero. It is saved and not restored.
    pub position_in_column: Option<u32>,
    pub is_floating: bool,
    pub is_focused: bool,
    pub width: i32,
    pub height: i32,
    pub floating: Option<FloatingPosition>,
    /// What is needed to start the application again.
    pub hook: Option<HookData>,
}

/// What a hook captured, enough to build the command line again.
#[allow(inconsistent_fields)]
#[derive(Debug, Clone)]
pub enum HookData {
    /// The command line as it was; `cwd` is entered first where it is known.
    Generic { argv: Vec<String>, cwd: Option<String> },
    /// A terminal and the directory it was in.
    Terminal { app_id: String, cwd: Option<String>, argv_fallback: Vec<String> },
    /// A stand-alone editor and the session file that it wrote.
    Neovim { session_path: String, argv_fallback: Vec<String> },
    /// A browser, which restores its own state.
    Browser { app_id: String, argv_fallback: Vec<String> },
    /// A code editor and the directory it was in.
    VsCode { app_id: String, cwd: Option<String>, argv_fallback: Vec<String> },
}

/// Why a snapshot is refused: its version.
pub open spec fn version_refusal(version: u32) -> Seq<char> {
    "snapshot version "@ + decimal(version as nat) + " not supported (expected "@ + decimal(
        SCHEMA_VERSION as nat,
    ) + ")"@
}

impl Snapshot {
    /// Refuses a snapshot of another version.
    pub fn check_version(self) -> (r: Result<Snapshot, String>)
        ensures
            self.version == SCHEMA_VERSION ==> r == Ok::<Snapshot, String>(self),
            self.version != SCHEMA_VERSION ==> (r matches Err(e) && e@ == version_refusal(
                self.version,
            )),
    {
        if self.version != SCHEMA_VERSION {
            let mut s = "snapshot version ".to_owned();
            s.append(decimal_string(self.version as u64).as_str());
            s.append(" not supported (expected ");
            s.append(decimal_string(SCHEMA_VERSION as u64).as_str());
            s.append(")");
            return Err(s);
        }
        Ok(self)
    }
}

} // verus!
