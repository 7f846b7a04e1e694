//! Samples of which window has the focus, at a fixed cadence, and the end of
//! each session in which one window had it.
//!
//! Nothing is sampled while no window has the focus. After a reconnect, or
//! after events were missed, the running session is dropped: how long it
//! lasted cannot be known.

use vstd::prelude::*;
use vstd::string::*;

use crate::bridge::proto::{topics, Event, Window};
use crate::bridge::state::Inner;
use crate::json::{opt_number, opt_text, put, Json, JsonView};
use crate::text::{opt_view, str_eq};

verus! {

broadcast use vstd::std_specs::hash::group_hash_axioms;

/// The window of which the session ended, and how long it lasted.
pub open spec fn session_end(
    prev: Option<u64>,
    current: Option<u64>,
    prev_ticks: int,
    interval_ms: int,
) -> Option<(u64, u64)> {
    match prev {
        Some(p) => if current != Some(p) {
            Some((p, (prev_ticks * interval_ms) as u64))
        } else {
            None
        },
        None => None,
    }
}

/// The window of which the session has ended, because the focus moved away
/// from it, with the length of the session in milliseconds.
pub fn compute_session_end(
    prev: Option<u64>,
    current: Option<u64>,
    prev_ticks: u64,
    interval_ms: u64,
) -> (r: Option<(u64, u64)>)
    requires
        prev is Some && current != prev ==> prev_ticks * interval_ms <= u64::MAX,
    ensures
        r == session_end(prev, current, prev_ticks as int, interval_ms as int),
{
    match (prev, current) {
        (Some(p), Some(c)) => if p != c {
            Some((p, prev_ticks * interval_ms))
        } else {
            None
        },
        (Some(p), None) => Some((p, prev_ticks * interval_ms)),
        (None, _) => None,
    }
}

/// The session that is running: its window, and the samples taken of it.
#[derive(Debug)]
pub struct Sampler {
    pub prev: Option<u64>,
    pub prev_ticks: u64,
    pub interval_ms: u64,
}

/// The data of the event that ends a session.
pub open spec fn session_end_view(id: u64, duration_ms: u64) -> JsonView {
    JsonView::Obj(
        map![
            "window_id"@ => JsonView::Num(id as int),
            "duration_ms"@ => JsonView::Num(duration_ms as int),
        ],
    )
}

/// The data of a sample.
pub open spec fn sample_view(id: u64, w: Window, interval_ms: u64) -> JsonView {
    JsonView::Obj(
        map![
            "window_id"@ => JsonView::Num(id as int),
            "app_id"@ => opt_text(opt_view(w.app_id)),
            "title"@ => opt_text(opt_view(w.title)),
            "workspace_id"@ => opt_number(w.workspace_id),
            "interval_ms"@ => JsonView::Num(interval_ms as int),
        ],
    )
}

/// The event says this.
pub open spec fn says(ev: Event, topic: Seq<char>, now_ms: i64, data: JsonView) -> bool {
    ev.event@ == topic && ev.ts == now_ms && ev.data@ == data
}

/// The window that has the focus and is cached, which is the one that is
/// sampled.
pub open spec fn sampled(s: Inner) -> Option<u64> {
    match s.focused_window {
        Some(id) => if s.windows@.contains_key(id) {
            Some(id)
        } else {
            None
        },
        None => None,
    }
}

/// The running session after a tick, as its window and its samples.
pub open spec fn session_after(
    prev: Option<u64>,
    prev_ticks: int,
    focused: Option<u64>,
    is_sampled: bool,
) -> (Option<u64>, int) {
    (
        focused,
        (if focused == prev {
            prev_ticks
        } else {
            0
        }) + (if is_sampled {
            1int
        } else {
            0
        }),
    )
}

impl Sampler {
    /// No session is running.
    pub fn new(interval_ms: u64) -> (r: Self)
        ensures
            r.prev is None,
            r.prev_ticks == 0,
            r.interval_ms == interval_ms,
    {
        Sampler { prev: None, prev_ticks: 0, interval_ms }
    }

    /// What a tick has to count fits: the length of the session, where one
    /// ends, and one more sample, where the session goes on.
    pub open spec fn has_room(&self, s: Inner) -> bool {
        &&& self.prev is Some && s.focused_window != self.prev ==> self.prev_ticks
            * self.interval_ms <= u64::MAX
        &&& s.focused_window == self.prev && sampled(s) is Some ==> self.prev_ticks < u64::MAX
    }

    /// What a tick has to count fits.
    pub fn can_tick(&self, s: &Inner) -> (r: bool)
        ensures
            r == self.has_room(*s),
    {
        if s.focused_window != self.prev {
            self.prev.is_none() || self.prev_ticks.checked_mul(self.interval_ms).is_some()
        } else {
            match s.focused_window {
                Some(id) => !s.windows.contains_key(&id) || self.prev_ticks < u64::MAX,
                None => true,
            }
        }
    }

    /// One tick of the clock: the end of the session where the focus moved,
    /// then a sample where a window has the focus.
    pub fn tick(&mut self, s: &Inner, now_ms: i64) -> (r: Vec<Event>)
        requires
            old(self).has_room(*s),
        ensures
            final(self).interval_ms == old(self).interval_ms,
            (final(self).prev, final(self).prev_ticks as int) == session_after(
                old(self).prev,
                old(self).prev_ticks as int,
                s.focused_window,
                sampled(*s) is Some,
            ),
            ({
                let ended = session_end(
                    old(self).prev,
                    s.focused_window,
                    old(self).prev_ticks as int,
                    old(self).interval_ms as int,
                );
                let e = if ended is Some {
                    1int
                } else {
                    0
                };
                let t = if sampled(*s) is Some {
                    1int
                } else {
                    0
                };
                &&& r@.len() == e + t
                &&& ended matches Some(end) ==> says(
                    r@[0],
                    topics::FOCUS_SESSION_END@,
                    now_ms,
                    session_end_view(end.0, end.1),
                )
                &&& sampled(*s) matches Some(id) ==> says(
                    r@[e],
                    topics::FOCUS_SAMPLE@,
                    now_ms,
                    sample_view(id, s.windows@[id], old(self).interval_ms),
                )
            }),
    {
        let mut out: Vec<Event> = Vec::new();
        let current = s.focused_window;
        match compute_session_end(self.prev, current, self.prev_ticks, self.interval_ms) {
            Some(end) => {
                let mut e: Vec<(String, Json)> = Vec::new();
                put(&mut e, "window_id", Json::Uint(end.0));
                put(&mut e, "duration_ms", Json::Uint(end.1));
                out.push(
                    Event {
                        event: topics::FOCUS_SESSION_END.to_owned(),
                        ts: now_ms,
                        data: Json::Obj(e),
                    },
                );
            },
            None => {},
        }
        if current != self.prev {
            self.prev = current;
            self.prev_ticks = 0;
        }
        match current {
            Some(id) => match s.windows.get(&id) {
                Some(w) => {
                    let mut e: Vec<(String, Json)> = Vec::new();
                    put(&mut e, "window_id", Json::Uint(id));
                    put(&mut e, "app_id", Json::text_or_null(&w.app_id));
                    put(&mut e, "title", Json::text_or_null(&w.title));
                    put(&mut e, "workspace_id", Json::number_or_null(w.workspace_id));
                    put(&mut e, "interval_ms", Json::Uint(self.interval_ms));
                    out.push(
                        Event {
                            event: topics::FOCUS_SAMPLE.to_owned(),
                            ts: now_ms,
                            data: Json::Obj(e),
                        },
                    );
                    self.prev_ticks = self.prev_ticks + 1;
                },
                None => {},
            },
            None => {},
        }
        out
    }

    /// Drops the running session.
    pub fn reset(&mut self)
        ensures
            final(self).prev is None,
            final(self).prev_ticks == 0,
            final(self).interval_ms == old(self).interval_ms,
    {
        self.prev = None;
        self.prev_ticks = 0;
    }

    /// Takes note of an event of the bridge: a reset of the state drops the
    /// running session.
    pub fn on_event(&mut self, topic: &str)
        ensures
            topic@ == topics::STATE@ ==> final(self).prev is None && final(self).prev_ticks == 0
                && final(self).interval_ms == old(self).interval_ms,
            topic@ != topics::STATE@ ==> *final(self) == *old(self),
    {
        if str_eq(topic, topics::STATE) {
            self.reset();
        }
    }
}

/// The session after `n` ticks at which one cached window had the focus.
pub open spec fn session_after_ticks(prev: Option<u64>, prev_ticks: int, id: u64, n: nat) -> (
    Option<u64>,
    int,
)
    decreases n,
{
    if n == 0 {
        (prev, prev_ticks)
    } else {
        let before = session_after_ticks(prev, prev_ticks, id, (n - 1) as nat);
        session_after(before.0, before.1, Some(id), true)
    }
}

/// When the focus moves away from a window after it was sampled so many
/// times, the session that ends lasted that many intervals.
pub proof fn law_session_lasts_its_ticks(
    prev: Option<u64>,
    prev_ticks: int,
    id: u64,
    n: nat,
    next: Option<u64>,
    interval_ms: int,
)
    requires
        prev != Some(id),
        n > 0,
        next != Some(id),
    ensures
        session_after_ticks(prev, prev_ticks, id, n) == (Some(id), n as int),
        session_end(
            session_after_ticks(prev, prev_ticks, id, n).0,
            next,
            session_after_ticks(prev, prev_ticks, id, n).1,
            interval_ms,
        ) == Some((id, (n * interval_ms) as u64)),
    decreases n,
{
    if n > 1 {
        law_session_lasts_its_ticks(prev, prev_ticks, id, (n - 1) as nat, next, interval_ms);
    } else {
        assert(session_after_ticks(prev, prev_ticks, id, 0) == (prev, prev_ticks));
    }
}

/// No session ends while the focus stays where it is, nor where none was
/// running.
pub proof fn law_no_end_without_a_move(prev: Option<u64>, current: Option<u64>, ticks: int, interval_ms: int)
    ensures
        session_end(prev, current, ticks, interval_ms) is Some <==> prev is Some && current != prev,
{
}

} // verus!
