//! Which activation token belongs to which process.
//!
//! A token is planted in the environment of a spawned process and remembered
//! under its process id; the first window that reports that id is stamped
//! with the token. Times are nanoseconds of a clock that never runs
//! backwards.

use std::collections::HashMap;

use vstd::prelude::*;
use vstd::string::*;

use crate::text::opt_view;

verus! {

broadcast use vstd::std_specs::hash::group_hash_axioms;

/// How long an entry is kept at all: this bounds memory where a spawn never
/// produces a window.
pub const PID_TOKEN_TTL: u64 = 30_000_000_000;

/// How old an entry may be to be handed out. The kernel can reuse a process
/// id within seconds, and a slow match is better dropped than stamped onto
/// the window of another program.
pub const PID_TOKEN_MATCH_WINDOW: u64 = 5_000_000_000;

/// A token and when it was registered.
#[derive(Debug)]
pub struct TokenEntry {
    pub token: String,
    pub inserted_at: u64,
}

impl Clone for TokenEntry {
    fn clone(&self) -> (r: Self)
        ensures
            r == *self,
    {
        TokenEntry { token: self.token.clone(), inserted_at: self.inserted_at }
    }
}

/// The age of an entry.
pub open spec fn age(e: TokenEntry, now: u64) -> int {
    if now >= e.inserted_at {
        now - e.inserted_at
    } else {
        0
    }
}

fn age_of(e: &TokenEntry, now: u64) -> (r: u64)
    ensures
        r == age(*e, now),
{
    if now >= e.inserted_at {
        now - e.inserted_at
    } else {
        0
    }
}

/// The entries that are still kept.
pub open spec fn swept(m: Map<i32, TokenEntry>, now: u64) -> Map<i32, TokenEntry> {
    Map::new(
        |pid: i32| m.contains_key(pid) && age(m[pid], now) < PID_TOKEN_TTL,
        |pid: i32| m[pid],
    )
}

fn pids_of(m: &HashMap<i32, TokenEntry>) -> (r: Vec<i32>)
    ensures
        r@.no_duplicates(),
        r@.to_set() == m@.dom(),
{
    let mut r: Vec<i32> = Vec::new();
    for k in it: m.keys()
        invariant
            it.seq().unref().no_duplicates(),
            it.seq().unref().to_set() == m@.dom(),
            it.seq().unref().len() == it.seq().len(),
            r@ == it.seq().unref().take(it.index() as int),
            it.index() == it.seq().len() ==> r@ == it.seq().unref(),
    {
        r.push(*k);
        assert(it.seq().unref().take(it.index() + 1) =~= it.seq().unref().take(
            it.index() as int,
        ).push(*k));
        assert(it.seq().unref().take(it.seq().len() as int) =~= it.seq().unref());
    }
    r
}

/// Drops the entries that are too old to be kept.
pub fn sweep_expired(map: &mut HashMap<i32, TokenEntry>, now: u64)
    ensures
        final(map)@ == swept(old(map)@, now),
{
    let pids = pids_of(map);
    let mut i: usize = 0;
    while i < pids.len()
        invariant
            i <= pids@.len(),
            pids@.no_duplicates(),
            pids@.to_set() == old(map)@.dom(),
            forall|pid: i32| #[trigger]
                map@.contains_key(pid) ==> old(map)@.contains_key(pid) && map@[pid] == old(
                    map,
                )@[pid],
            forall|k: int|
                0 <= k < i ==> map@.contains_key(#[trigger] pids@[k]) == (age(
                    old(map)@[pids@[k]],
                    now,
                ) < PID_TOKEN_TTL),
            forall|k: int| i <= k < pids@.len() ==> map@.contains_key(#[trigger] pids@[k]),
        decreases pids@.len() - i,
    {
        let pid: i32 = pids[i];
        assert(map@.contains_key(pids@[i as int]));
        let expired = match map.get(&pid) {
            Some(e) => age_of(e, now) >= PID_TOKEN_TTL,
            None => false,
        };
        if expired {
            map.remove(&pid);
        }
        i += 1;
    }
    proof {
        assert forall|pid: i32| #[trigger]
            map@.contains_key(pid) == swept(old(map)@, now).contains_key(pid) by {
            if old(map)@.contains_key(pid) {
                assert(pids@.to_set().contains(pid));
                let k = choose|k: int| 0 <= k < pids@.len() && pids@[k] == pid;
                assert(map@.contains_key(pids@[k]) == (age(old(map)@[pid], now) < PID_TOKEN_TTL));
            }
        }
        assert(map@ =~= swept(old(map)@, now));
    }
}

/// The tokens of the processes that were spawned lately.
pub struct ActivationBroker {
    pub pid_map: HashMap<i32, TokenEntry>,
}

/// The token that a process id is handed at a time, if any.
pub open spec fn token_for(m: Map<i32, TokenEntry>, pid: i32, now: u64) -> Option<Seq<char>> {
    if m.contains_key(pid) && age(m[pid], now) <= PID_TOKEN_MATCH_WINDOW {
        Some(m[pid].token@)
    } else {
        None
    }
}

impl ActivationBroker {
    /// No token is known.
    pub fn new() -> (r: Self)
        ensures
            r.pid_map@ == Map::<i32, TokenEntry>::empty(),
    {
        ActivationBroker { pid_map: HashMap::new() }
    }

    /// Remembers the token of a process; an earlier one under the same id is
    /// forgotten. Entries that are too old go.
    pub fn register_spawn(&mut self, pid: i32, token: String, now: u64)
        ensures
            final(self).pid_map@ == swept(old(self).pid_map@, now).insert(
                pid,
                (TokenEntry { token, inserted_at: now }),
            ),
    {
        sweep_expired(&mut self.pid_map, now);
        self.pid_map.insert(pid, TokenEntry { token, inserted_at: now });
    }

    /// Hands out the token of a process and forgets it. An entry that is too
    /// old to be handed out is forgotten as well.
    pub fn take_token_for_pid(&mut self, pid: i32, now: u64) -> (r: Option<String>)
        ensures
            opt_view(r) == token_for(old(self).pid_map@, pid, now),
            final(self).pid_map@ == swept(old(self).pid_map@, now).remove(pid),
    {
        sweep_expired(&mut self.pid_map, now);
        let ghost kept = self.pid_map@;
        let taken = self.pid_map.remove(&pid);
        assert(self.pid_map@ =~= kept.remove(pid));
        match taken {
            Some(e) => if age_of(&e, now) <= PID_TOKEN_MATCH_WINDOW {
                Some(e.token)
            } else {
                None
            },
            None => None,
        }
    }
}

/// A token that is being asked for: what the compositor said last.
#[derive(Debug)]
pub struct BrokerState {
    pub pending_token: Option<String>,
}

impl BrokerState {
    /// Nothing is asked for.
    pub fn new() -> (r: Self)
        ensures
            r.pending_token is None,
    {
        BrokerState { pending_token: None }
    }

    /// Asks anew: what was said before does not count.
    pub fn begin(&mut self)
        ensures
            final(self).pending_token is None,
    {
        self.pending_token = None;
    }

    /// The compositor says a token; the result tells whether it takes the
    /// place of an earlier one.
    pub fn on_done(&mut self, token: String) -> (r: bool)
        ensures
            r == old(self).pending_token is Some,
            final(self).pending_token == Some(token),
    {
        let replaced = self.pending_token.is_some();
        self.pending_token = Some(token);
        replaced
    }

    /// The token, once the compositor has answered everything.
    pub fn finish(&mut self) -> (r: Result<String, String>)
        ensures
            final(self).pending_token is None,
            match old(self).pending_token {
                Some(t) => r == Ok::<String, String>(t),
                None => r matches Err(e) && e@
                    == "compositor did not emit activation token after roundtrip"@,
            },
    {
        match self.pending_token.take() {
            Some(t) => Ok(t),
            None => Err("compositor did not emit activation token after roundtrip".to_owned()),
        }
    }
}

/// A token that was registered is handed out to its process within the match
/// window, and not after it.
pub proof fn law_registered_token_is_handed_out(
    before: Map<i32, TokenEntry>,
    pid: i32,
    token: String,
    registered: u64,
    now: u64,
)
    requires
        registered <= now,
    ensures
        token_for(
            swept(before, registered).insert(pid, (TokenEntry { token, inserted_at: registered })),
            pid,
            now,
        ) == (if now - registered <= PID_TOKEN_MATCH_WINDOW {
            Some(token@)
        } else {
            None::<Seq<char>>
        }),
{
}

/// A token is handed out at most once.
pub proof fn law_token_is_handed_out_once(before: Map<i32, TokenEntry>, pid: i32, first: u64, second: u64)
    ensures
        token_for(swept(before, first).remove(pid), pid, second) is None,
{
}

/// Asking for one process leaves what another is handed as it was.
pub proof fn law_processes_are_independent(
    before: Map<i32, TokenEntry>,
    pid: i32,
    other: i32,
    first: u64,
    second: u64,
)
    requires
        pid != other,
        first <= second,
    ensures
        token_for(swept(before, first).remove(pid), other, second) == token_for(
            before,
            other,
            second,
        ),
{
    if before.contains_key(other) {
        assert(age(before[other], first) <= age(before[other], second));
    }
}

} // verus!
