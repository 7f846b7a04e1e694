//! The bridge: the daemon that owns the compositor connection and serves the
//! line protocol.

pub mod activation;
pub mod niri_conn;
pub mod niri_event;
pub mod pinned;
pub mod proto;
pub mod sampler;
pub mod server;
pub mod state;

use vstd::prelude::*;
use vstd::string::*;

use crate::bridge::proto::topics;
use crate::paths::{join_path, joined};
use crate::text::{
    decimal, decimal_string, is_digit, law_parse_undoes_decimal, lemma_decimal_value, parse_i32,
    parsed_i32, signed_decimal, signed_decimal_string, str_eq, trim, trimmed, trimmed_end,
    trimmed_start,
};

verus! {

/// Arguments of `iris bridge`. There are none yet.
#[derive(Debug)]
pub struct BridgeArgs {}

/// The process id in a pid file. A file that is absent, or that holds
/// something else, names none.
pub open spec fn pid_in_file(contents: Option<Seq<char>>) -> Option<i32> {
    match contents {
        Some(s) => parsed_i32(trimmed(s)),
        None => None,
    }
}

/// The process id in a pid file.
pub fn recorded_pid(contents: Option<&str>) -> (r: Option<i32>)
    ensures
        r == pid_in_file(crate::text::opt_str_view(contents)),
{
    match contents {
        Some(s) => {
            let t = trim(s);
            parse_i32(&t)
        },
        None => None,
    }
}

/// What the pid file of a process holds.
pub fn pid_file_text(pid: u32) -> (r: String)
    ensures
        r@ == decimal(pid as nat),
{
    decimal_string(pid as u64)
}

/// Refuses to start where the recorded process is alive.
pub fn ensure_single_instance(recorded: Option<i32>, alive: bool) -> (r: Result<(), String>)
    ensures
        r is Ok <==> !(recorded is Some && alive),
        r matches Err(e) ==> (recorded matches Some(pid) && e@
            == "another iris bridge is already running (pid "@ + signed_decimal(pid as int)
            + "); refusing to start"@),
{
    match recorded {
        Some(pid) => if alive {
            let mut s = "another iris bridge is already running (pid ".to_owned();
            s.append(signed_decimal_string(pid).as_str());
            s.append("); refusing to start");
            Err(s)
        } else {
            Ok(())
        },
        None => Ok(()),
    }
}

/// The directory for the socket and the pid file: the one that the
/// environment names, or else the platform's.
pub open spec fn runtime_choice(from_env: Option<String>, fallback: Option<String>) -> Option<String> {
    match from_env {
        Some(d) => Some(d),
        None => fallback,
    }
}

/// The directory for the socket and the pid file.
pub fn runtime_dir(from_env: Option<String>, fallback: Option<String>) -> (r: Result<String, String>)
    ensures
        match runtime_choice(from_env, fallback) {
            Some(d) => r == Ok::<String, String>(d),
            None => r matches Err(e) && e@
                == "XDG_RUNTIME_DIR not set and no fallback available"@,
        },
{
    match from_env {
        Some(d) => Ok(d),
        None => match fallback {
            Some(d) => Ok(d),
            None => Err("XDG_RUNTIME_DIR not set and no fallback available".to_owned()),
        },
    }
}

/// Where the bridge listens.
pub open spec fn socket_in(dir: Seq<char>) -> Seq<char> {
    joined(dir, "iris.sock"@)
}

/// Where the bridge listens.
pub fn socket_path(dir: &str) -> (r: String)
    ensures
        r@ == socket_in(dir@),
{
    join_path(dir, "iris.sock")
}

/// Where the bridge leaves its process id.
pub fn pid_path(dir: &str) -> (r: String)
    ensures
        r@ == joined(dir@, "iris.pid"@),
{
    join_path(dir, "iris.pid")
}

/// How far the wait for the compositor's first report has come.
#[derive(Debug, Clone, Copy, PartialEq, Eq, Structural)]
pub enum Warmup {
    /// No report of windows was seen yet.
    Waiting,
    /// Reports came; more may follow.
    Settling,
    /// The wait is over: the cache holds what it will hold.
    Done,
}

/// What happens during the wait.
#[derive(Debug)]
pub enum WarmupInput {
    /// An event with this topic.
    Event(String),
    /// The channel closed, or events were dropped.
    Broken,
    /// Nothing came for the length of the quiet period.
    Quiet,
    /// The wait has lasted as long as it may.
    Deadline,
}

impl Warmup {
    /// A cache that holds windows already is past the first report.
    pub fn start(cache_is_empty: bool) -> (r: Self)
        ensures
            r == (if cache_is_empty {
                Warmup::Waiting
            } else {
                Warmup::Settling
            }),
    {
        if cache_is_empty {
            Warmup::Waiting
        } else {
            Warmup::Settling
        }
    }

    /// How far the wait has come after an input.
    pub open spec fn after(self, input: WarmupInput) -> Warmup {
        match (self, input) {
            (Warmup::Waiting, WarmupInput::Event(topic)) => if topic@ == topics::WINDOWS@ {
                Warmup::Settling
            } else {
                Warmup::Waiting
            },
            (Warmup::Waiting, WarmupInput::Quiet) => Warmup::Waiting,
            (Warmup::Settling, WarmupInput::Event(_)) => Warmup::Settling,
            _ => Warmup::Done,
        }
    }

    /// How far the wait has come after an input.
    pub fn step(self, input: &WarmupInput) -> (r: Self)
        ensures
            r == self.after(*input),
    {
        match (self, input) {
            (Warmup::Waiting, WarmupInput::Event(topic)) => if str_eq(
                topic.as_str(),
                topics::WINDOWS,
            ) {
                Warmup::Settling
            } else {
                Warmup::Waiting
            },
            (Warmup::Waiting, WarmupInput::Quiet) => Warmup::Waiting,
            (Warmup::Settling, WarmupInput::Event(_)) => Warmup::Settling,
            _ => Warmup::Done,
        }
    }
}

/// The wait always ends at its deadline, and once it is over it stays so.
pub proof fn law_warmup_ends(w: Warmup, input: WarmupInput)
    ensures
        w.after(WarmupInput::Deadline) == Warmup::Done,
        Warmup::Done.after(input) == Warmup::Done,
{
}

/// A bridge finds the process id that another wrote.
pub proof fn law_pid_file_round_trip(pid: u32)
    requires
        pid <= i32::MAX,
    ensures
        pid_in_file(Some(decimal(pid as nat))) == Some(pid as i32),
{
    let s = decimal(pid as nat);
    lemma_decimal_value(pid as nat);
    assert(is_digit(s[0]));
    assert(is_digit(s[s.len() - 1]));
    assert(trimmed_start(s) == s);
    assert(trimmed_end(s) == s);
    law_parse_undoes_decimal(pid as i32);
}

} // verus!
