//! Waiting and time: who is told what, which token goes where, and what is
//! sampled.

use std::collections::HashMap;

use vstd::prelude::*;
use vstd::string::*;

use crate::bridge::activation::{
    sweep_expired, ActivationBroker, BrokerState, TokenEntry,
};
use crate::bridge::niri_conn::{Backoff, LineRead, ReadStep, StreamReader};
use crate::bridge::niri_event::{LineEvent, RawEvent};
use crate::bridge::proto::{Event, Response, Window};
use crate::bridge::sampler::{compute_session_end, Sampler};
use crate::bridge::server::{respond, OpError};
use crate::bridge::state::Inner;
use crate::client::{outcome_of, result_of, PendingRequests, ResponseOutcome};
use crate::json::{field, Json, JsonView};
use crate::laws::protocol::text_or_null;
use crate::snapshot::matcher::{PendingSpawns, Registered};
use crate::table::{distinct_names, table_of};
use crate::text::{decimal, opt_view};

verus! {

broadcast use vstd::std_specs::hash::group_hash_axioms;

// -------------------------------------------------------------------- requests

/// What the bridge answers reaches the caller: the data of a success, and the
/// reason of a failure.
pub proof fn law_answers_reach_the_caller(
    id: &str,
    result: Result<Json, OpError>,
    resp: Response,
    o: ResponseOutcome,
    r: Result<Json, String>,
)
    requires
        call_ensures(respond, (id, result), resp),
        call_ensures(outcome_of, (resp,), o),
        call_ensures(result_of, (o,), r),
    ensures
        result matches Ok(j) ==> (r matches Ok(k) && k@ == j@),
        result matches Err(e) ==> (r matches Err(text) && text@ == "bridge: "@ + e.text()),
{
}

/// An answer without data stands for null, and a refusal without a reason for
/// an unknown error.
pub proof fn law_bare_answers(resp: Response, o: ResponseOutcome)
    requires
        call_ensures(outcome_of, (resp,), o),
    ensures
        o is Done <==> resp.ok,
        resp.ok && resp.data is None ==> (o matches ResponseOutcome::Done(j) && j@
            == JsonView::Null),
        !resp.ok && resp.error is None ==> (o matches ResponseOutcome::Refused(e) && e@
            == "unknown error"@),
{
}

/// Who asked is told the answer to their own request, once, and nobody else
/// is affected.
pub proof fn law_answer_goes_to_who_asked<T>(waiter: T, resp: Response)
    ensures
        forall|a: &mut PendingRequests<T>, id: String, b: &mut PendingRequests<T>, r: Option<(T, ResponseOutcome)>|
            #[trigger] call_ensures(PendingRequests::<T>::begin, (a, waiter), id)
                && #[trigger] call_ensures(PendingRequests::<T>::on_response, (b, resp), r) && *b
                == *final(a) && resp.id@ == id@ ==> {
                &&& r matches Some(told)
                &&& told.0 == waiter
                &&& told.1 is Done <==> resp.ok
                &&& final(b)@ == a@
            },
        forall|b: &mut PendingRequests<T>, r: Option<(T, ResponseOutcome)>| #[trigger]
            call_ensures(PendingRequests::<T>::on_response, (b, resp), r) && !b@.contains_key(
                resp.id@,
            ) ==> r is None && final(b)@ == b@,
{
    assert forall|a: &mut PendingRequests<T>, id: String, b: &mut PendingRequests<T>, r: Option<(T, ResponseOutcome)>|
        #[trigger] call_ensures(PendingRequests::<T>::begin, (a, waiter), id)
            && #[trigger] call_ensures(PendingRequests::<T>::on_response, (b, resp), r) && *b
            == *final(a) && resp.id@ == id@ implies final(b)@ == a@ by {
        assert(final(b)@ =~= a@);
    }
    assert forall|b: &mut PendingRequests<T>, r: Option<(T, ResponseOutcome)>| #[trigger]
        call_ensures(PendingRequests::<T>::on_response, (b, resp), r) && !b@.contains_key(
            resp.id@,
        ) implies final(b)@ == b@ by {
        assert(final(b)@ =~= b@);
    }
}

/// Two requests are never given one id.
pub proof fn law_requests_have_their_own_ids<T>(one: T, other: T)
    ensures
        forall|a: &mut PendingRequests<T>, id: String, b: &mut PendingRequests<T>, next: String|
            #[trigger] call_ensures(PendingRequests::<T>::begin, (a, one), id)
                && #[trigger] call_ensures(PendingRequests::<T>::begin, (b, other), next) && *b
                == *final(a) ==> {
                &&& id@ != next@
                &&& !a@.contains_key(id@)
                &&& final(b)@ == a@.insert(id@, one).insert(next@, other)
            },
{
    assert forall|a: &mut PendingRequests<T>, id: String, b: &mut PendingRequests<T>, next: String|
        #[trigger] call_ensures(PendingRequests::<T>::begin, (a, one), id)
            && #[trigger] call_ensures(PendingRequests::<T>::begin, (b, other), next) && *b
            == *final(a) implies id@ != next@ by {
        assert(b@.contains_key(id@));
    }
}

/// A request that was given up is not answered any more.
pub proof fn law_given_up_requests<T>(id: &str, resp: Response)
    ensures
        forall|a: &mut PendingRequests<T>, b: &mut PendingRequests<T>, r: Option<(T, ResponseOutcome)>|
            #[trigger] call_ensures(PendingRequests::<T>::cancel, (a, id), ())
                && #[trigger] call_ensures(PendingRequests::<T>::on_response, (b, resp), r) && *b
                == *final(a) && resp.id@ == id@ ==> r is None,
{
}

/// When the bridge is gone, everybody who waits is told so, and nobody waits
/// any more.
pub proof fn law_everybody_is_told_of_the_end<T>(id: Seq<char>)
    ensures
        forall|a: &mut PendingRequests<T>, r: Vec<(T, ResponseOutcome)>| #[trigger]
            call_ensures(PendingRequests::<T>::on_close, (a,), r) ==> {
                &&& !final(a)@.contains_key(id)
                &&& a@.contains_key(id) ==> exists|i: int|
                    0 <= i < r@.len() && (#[trigger] r@[i]).0 == a@[id] && r@[i].1 is Refused
            },
{
    assert forall|a: &mut PendingRequests<T>, r: Vec<(T, ResponseOutcome)>| #[trigger]
        call_ensures(PendingRequests::<T>::on_close, (a,), r) && a@.contains_key(
            id,
        ) implies exists|i: int|
        0 <= i < r@.len() && (#[trigger] r@[i]).0 == a@[id] && r@[i].1 is Refused by {
        let held = choose|held: Seq<(String, T)>|
            {
                &&& #[trigger] distinct_names(held)
                &&& table_of(held) == a@
                &&& r@.len() == held.len()
                &&& forall|i: int|
                    0 <= i < held.len() ==> (#[trigger] r@[i]).0 == held[i].1 && r@[i].1 is Refused
            };
        assert(table_of(held).contains_key(id));
        let i = choose|i: int|
            0 <= i < held.len() && #[trigger] crate::table::named(held, i, id);
        crate::table::lemma_table_entry(held, i);
        assert(r@[i].0 == held[i].1);
    }
}

// ------------------------------------------------------------------ new windows

/// An event that reports a window and the token of its process.
pub open spec fn reports(ev: Event, token: Seq<char>, id: u64) -> bool {
    &&& ev.event@ == "windows"@
    &&& field(ev.data@, "activation_token"@) == JsonView::Str(token)
    &&& field(field(ev.data@, "opened_or_changed"@), "id"@) == JsonView::Num(id as int)
}

/// Whether somebody waits for a window first or the window comes first, who
/// waits under its token is told it, once.
pub proof fn law_window_is_told_to_who_waits<T>(token: String, waiter: T, ev: Event, id: u64)
    requires
        reports(ev, token@, id),
    ensures
        forall|a: &mut PendingSpawns<T>, first: Registered<T>, b: &mut PendingSpawns<T>, r: Option<(T, u64)>|
            #[trigger] call_ensures(PendingSpawns::<T>::register, (a, token, waiter), first)
                && #[trigger] call_ensures(PendingSpawns::<T>::dispatch, (b, &ev), r) && *b
                == *final(a) && !a.early().contains_key(token@) && !a.waiting().contains_key(token@)
                ==> {
                &&& first is Waiting
                &&& r == Some((waiter, id))
                &&& final(b).waiting() == a.waiting()
                &&& final(b).early() == a.early()
            },
        forall|a: &mut PendingSpawns<T>, r: Option<(T, u64)>, b: &mut PendingSpawns<T>, second: Registered<T>|
            #[trigger] call_ensures(PendingSpawns::<T>::dispatch, (a, &ev), r)
                && #[trigger] call_ensures(PendingSpawns::<T>::register, (b, token, waiter), second)
                && *b == *final(a) && !a.early().contains_key(token@) && !a.waiting().contains_key(
                token@,
            ) ==> {
                &&& r is None
                &&& second == (Registered::Resolved { waiter, window_id: id })
                &&& final(b).waiting() == a.waiting()
                &&& final(b).early() == a.early()
            },
{
    assert forall|a: &mut PendingSpawns<T>, first: Registered<T>, b: &mut PendingSpawns<T>, r: Option<(T, u64)>|
        #[trigger] call_ensures(PendingSpawns::<T>::register, (a, token, waiter), first)
            && #[trigger] call_ensures(PendingSpawns::<T>::dispatch, (b, &ev), r) && *b == *final(a)
            && !a.early().contains_key(token@) && !a.waiting().contains_key(token@) implies {
        &&& first is Waiting
        &&& r == Some((waiter, id))
        &&& final(b).waiting() == a.waiting()
        &&& final(b).early() == a.early()
    } by {
        assert(a.waiting().insert(token@, waiter).remove(token@) =~= a.waiting());
    }
    assert forall|a: &mut PendingSpawns<T>, r: Option<(T, u64)>, b: &mut PendingSpawns<T>, second: Registered<T>|
        #[trigger] call_ensures(PendingSpawns::<T>::dispatch, (a, &ev), r)
            && #[trigger] call_ensures(PendingSpawns::<T>::register, (b, token, waiter), second)
            && *b == *final(a) && !a.early().contains_key(token@) && !a.waiting().contains_key(
            token@,
        ) implies {
        &&& r is None
        &&& second == (Registered::Resolved { waiter, window_id: id })
        &&& final(b).waiting() == a.waiting()
        &&& final(b).early() == a.early()
    } by {
        assert(a.early().insert(token@, id).remove(token@) =~= a.early());
    }
}

/// A window that comes for one token leaves who waits under another waiting;
/// an event that does not report both a token and a window changes nothing.
pub proof fn law_others_go_on_waiting<T>(ev: Event, token: Seq<char>, id: u64, other: Seq<char>)
    ensures
        forall|a: &mut PendingSpawns<T>, r: Option<(T, u64)>| #[trigger]
            call_ensures(PendingSpawns::<T>::dispatch, (a, &ev), r) && reports(ev, token, id)
                && other != token && a.waiting().contains_key(other) ==> final(a).waiting(
            ).contains_key(other) && final(a).waiting()[other] == a.waiting()[other],
        forall|a: &mut PendingSpawns<T>, r: Option<(T, u64)>| #[trigger]
            call_ensures(PendingSpawns::<T>::dispatch, (a, &ev), r) && (ev.event@ != "windows"@
                || !(field(ev.data@, "activation_token"@) is Str) || !(field(
                field(ev.data@, "opened_or_changed"@),
                "id"@,
            ) is Num)) ==> r is None && final(a).waiting() == a.waiting() && final(a).early()
                == a.early(),
{
}

/// Who waits under a token under which somebody waits already takes their
/// place; the other is handed back.
pub proof fn law_latest_waits<T>(token: String, waiter: T)
    ensures
        forall|a: &mut PendingSpawns<T>, r: Registered<T>| #[trigger]
            call_ensures(PendingSpawns::<T>::register, (a, token, waiter), r)
                && a.waiting().contains_key(token@) && !a.early().contains_key(token@) ==> {
                &&& r == (Registered::Waiting { displaced: Some(a.waiting()[token@]) })
                &&& final(a).waiting()[token@] == waiter
            },
{
}

// ---------------------------------------------------------------------- tokens

/// A token that was registered for a process is handed to it once, within
/// five seconds and not after them.
pub proof fn law_tokens_are_handed_out(pid: i32, token: String, at: u64, now: u64, later: u64)
    ensures
        forall|a: &mut ActivationBroker, b: &mut ActivationBroker, r: Option<String>|
            #[trigger] call_ensures(ActivationBroker::register_spawn, (a, pid, token, at), ())
                && #[trigger] call_ensures(ActivationBroker::take_token_for_pid, (b, pid, now), r)
                && *b == *final(a) ==> opt_view(r) == (if now - at <= 5_000_000_000 {
                Some(token@)
            } else {
                None::<Seq<char>>
            }),
        forall|a: &mut ActivationBroker, r: Option<String>, b: &mut ActivationBroker, again: Option<String>|
            #[trigger] call_ensures(ActivationBroker::take_token_for_pid, (a, pid, now), r)
                && #[trigger] call_ensures(
                ActivationBroker::take_token_for_pid,
                (b, pid, later),
                again,
            ) && *b == *final(a) ==> again is None,
{
}

/// What one process is handed does not depend on whether another was.
pub proof fn law_processes_have_their_own_tokens(pid: i32, other: i32, now: u64, later: u64)
    requires
        pid != other,
        now <= later,
    ensures
        forall|a: &mut ActivationBroker, r: Option<String>, b: &mut ActivationBroker, after: Option<String>, c: &mut ActivationBroker, without: Option<String>|
            #[trigger] call_ensures(ActivationBroker::take_token_for_pid, (a, pid, now), r)
                && #[trigger] call_ensures(
                ActivationBroker::take_token_for_pid,
                (b, other, later),
                after,
            ) && #[trigger] call_ensures(
                ActivationBroker::take_token_for_pid,
                (c, other, later),
                without,
            ) && *b == *final(a) && *c == *a ==> opt_view(after) == opt_view(without),
{
    assert forall|a: &mut ActivationBroker, r: Option<String>, b: &mut ActivationBroker, after: Option<String>, c: &mut ActivationBroker, without: Option<String>|
        #[trigger] call_ensures(ActivationBroker::take_token_for_pid, (a, pid, now), r)
            && #[trigger] call_ensures(
            ActivationBroker::take_token_for_pid,
            (b, other, later),
            after,
        ) && #[trigger] call_ensures(
            ActivationBroker::take_token_for_pid,
            (c, other, later),
            without,
        ) && *b == *final(a) && *c == *a implies opt_view(after) == opt_view(without) by {
        crate::bridge::activation::law_processes_are_independent(
            a.pid_map@,
            pid,
            other,
            now,
            later,
        );
    }
}

/// A token is kept for half a minute, and not longer.
pub proof fn law_tokens_are_kept_for_a_while(pid: i32, now: u64)
    ensures
        forall|m: &mut HashMap<i32, TokenEntry>| #[trigger]
            call_ensures(sweep_expired, (m, now), ()) ==> {
                &&& final(m)@.contains_key(pid) <==> m@.contains_key(pid) && (m@[pid].inserted_at
                    > now || now - m@[pid].inserted_at < 30_000_000_000)
                &&& final(m)@.contains_key(pid) ==> final(m)@[pid] == m@[pid]
            },
{
}

/// The token that is asked for is the last one that was told since it was
/// asked for.
pub proof fn law_last_token_counts(token: String)
    ensures
        forall|a: &mut BrokerState, replaced: bool, b: &mut BrokerState, r: Result<String, String>|
            #[trigger] call_ensures(BrokerState::on_done, (a, token), replaced)
                && #[trigger] call_ensures(BrokerState::finish, (b,), r) && *b == *final(a) ==> {
                &&& r == Ok::<String, String>(token)
                &&& replaced <==> a.pending_token is Some
                &&& final(b).pending_token is None
            },
        forall|a: &mut BrokerState, b: &mut BrokerState, r: Result<String, String>|
            #[trigger] call_ensures(BrokerState::begin, (a,), ()) && #[trigger] call_ensures(
                BrokerState::finish,
                (b,),
                r,
            ) && *b == *final(a) ==> r is Err,
{
}

// -------------------------------------------------------------------- sampling

/// The event is a sample of a window.
pub open spec fn samples(ev: Event, id: u64, w: Window, interval_ms: u64) -> bool {
    &&& ev.event@ == "focus.sample"@
    &&& field(ev.data@, "window_id"@) == JsonView::Num(id as int)
    &&& field(ev.data@, "app_id"@) == text_or_null(w.app_id)
    &&& field(ev.data@, "title"@) == text_or_null(w.title)
    &&& field(ev.data@, "workspace_id"@) == (match w.workspace_id {
        Some(n) => JsonView::Num(n as int),
        None => JsonView::Null,
    })
    &&& field(ev.data@, "interval_ms"@) == JsonView::Num(interval_ms as int)
}

/// The event ends the session of a window.
pub open spec fn ends_session(ev: Event, id: u64, duration_ms: int) -> bool {
    &&& ev.event@ == "focus.session_end"@
    &&& field(ev.data@, "window_id"@) == JsonView::Num(id as int)
    &&& field(ev.data@, "duration_ms"@) == JsonView::Num(duration_ms)
}

proof fn lemma_field_names()
    ensures
        "window_id"@.len() == 9,
        "app_id"@.len() == 6,
        "title"@.len() == 5,
        "workspace_id"@.len() == 12,
        "interval_ms"@.len() == 11 && "interval_ms"@[0] == 'i',
        "duration_ms"@.len() == 11 && "duration_ms"@[0] == 'd',
{
    reveal_strlit("window_id");
    reveal_strlit("app_id");
    reveal_strlit("title");
    reveal_strlit("workspace_id");
    reveal_strlit("interval_ms");
    reveal_strlit("duration_ms");
}

/// At each tick the cached window that has the focus is sampled, and where
/// the focus moved away from a window since the last tick the end of its
/// session is told first: it lasted as many intervals as it was sampled.
pub proof fn law_focus_is_sampled(s: Inner, now_ms: i64)
    ensures
        forall|m: &mut Sampler, r: Vec<Event>| #[trigger]
            call_ensures(Sampler::tick, (m, &s, now_ms), r) && m.has_room(s) ==> {
                let ended = m.prev is Some && s.focused_window != m.prev;
                let sampled = s.focused_window is Some && s.windows@.contains_key(
                    s.focused_window->0,
                );
                let e: int = if ended {
                    1
                } else {
                    0
                };
                &&& r@.len() == e + (if sampled {
                    1int
                } else {
                    0
                })
                &&& ended ==> r@[0].ts == now_ms && ends_session(
                    r@[0],
                    m.prev->0,
                    m.prev_ticks * m.interval_ms,
                )
                &&& sampled ==> r@[e].ts == now_ms && samples(
                    r@[e],
                    s.focused_window->0,
                    s.windows@[s.focused_window->0],
                    m.interval_ms,
                )
                &&& final(m).prev == s.focused_window
                &&& final(m).interval_ms == m.interval_ms
                &&& final(m).prev_ticks == (if s.focused_window == m.prev {
                    m.prev_ticks as int
                } else {
                    0
                }) + (if sampled {
                    1int
                } else {
                    0
                })
            },
{
    lemma_field_names();
}

/// A session ends where the focus moves away from its window, and lasts as
/// many intervals as it was sampled.
pub proof fn law_session_ends_with_the_focus(
    prev: Option<u64>,
    current: Option<u64>,
    ticks: u64,
    interval_ms: u64,
    r: Option<(u64, u64)>,
)
    requires
        call_ensures(compute_session_end, (prev, current, ticks, interval_ms), r),
        ticks * interval_ms <= u64::MAX,
    ensures
        r is Some <==> prev is Some && current != prev,
        r matches Some(end) ==> prev == Some(end.0) && end.1 == ticks * interval_ms,
{
}

/// A reset of the state drops the running session, and no other event does.
pub proof fn law_reset_drops_the_session(topic: &str)
    ensures
        forall|m: &mut Sampler| #[trigger]
            call_ensures(Sampler::on_event, (m, topic), ()) ==> if topic@ == "state"@ {
                final(m).prev is None && final(m).prev_ticks == 0 && final(m).interval_ms
                    == m.interval_ms
            } else {
                *final(m) == *m
            },
{
}

// ---------------------------------------------------------------------- stream

/// Events are handed on as they are; lines that are not recognized are
/// counted and skipped; the end of the stream and a failure end the reading.
pub proof fn law_lines_of_the_stream(ev: RawEvent, why: String)
    ensures
        forall|s: &mut StreamReader, r: ReadStep| #[trigger]
            call_ensures(StreamReader::on_line, (s, LineRead::Line(LineEvent::Event(ev))), r) ==> {
                &&& r == ReadStep::Deliver(ev)
                &&& final(s).events_read == s.events_read + 1
                &&& final(s).events_skipped == s.events_skipped
            },
        forall|s: &mut StreamReader, r: ReadStep| #[trigger]
            call_ensures(StreamReader::on_line, (s, LineRead::Line(LineEvent::Unrecognized(why))), r)
                ==> {
                &&& r is Next
                &&& final(s).events_read == s.events_read
                &&& final(s).events_skipped == s.events_skipped + 1
            },
        forall|s: &mut StreamReader, r: ReadStep| #[trigger]
            call_ensures(StreamReader::on_line, (s, LineRead::Line(LineEvent::Blank)), r)
                ==> r is Next && *final(s) == *s,
        forall|s: &mut StreamReader, r: ReadStep| #[trigger]
            call_ensures(StreamReader::on_line, (s, LineRead::Eof), r) ==> r is End,
        forall|s: &mut StreamReader, r: ReadStep| #[trigger]
            call_ensures(StreamReader::on_line, (s, LineRead::Failed(why)), r) ==> (
            r matches ReadStep::Fail(text) && text@ == "read_line: "@ + why@),
{
}

/// After a stream that was open the next try comes after one second; each
/// failure in a row doubles the wait, up to five seconds.
pub proof fn law_waits_grow_with_failures()
    ensures
        forall|b: &mut Backoff, r: u64| #[trigger]
            call_ensures(Backoff::next_delay, (b, true), r) ==> r == 1 && final(b).attempt == 0,
        forall|a: &mut Backoff, first: u64, b: &mut Backoff, second: u64|
            #[trigger] call_ensures(Backoff::next_delay, (a, false), first)
                && #[trigger] call_ensures(Backoff::next_delay, (b, false), second) && *b
                == *final(a) ==> second == (if 2 * first < 5 {
                2 * first
            } else {
                5
            }),
        forall|a: &mut Backoff, first: u64, b: &mut Backoff, second: u64|
            #[trigger] call_ensures(Backoff::next_delay, (a, true), first)
                && #[trigger] call_ensures(Backoff::next_delay, (b, false), second) && *b
                == *final(a) ==> second == 2 * first,
{
}

/// A sampler begins without a session, and a tick is possible wherever what
/// it counts fits.
pub proof fn law_sampler_begins(interval_ms: u64, m: Sampler, s: Inner, r: bool)
    requires
        call_ensures(Sampler::new, (interval_ms,), m),
        call_ensures(Sampler::can_tick, (&m, &s), r),
    ensures
        m.prev is None,
        m.prev_ticks == 0,
        m.interval_ms == interval_ms,
        r,
{
}

/// A running session can be ended and a sample counted as long as the numbers
/// fit.
pub proof fn law_when_a_tick_fits(m: Sampler, s: Inner, r: bool)
    requires
        call_ensures(Sampler::can_tick, (&m, &s), r),
    ensures
        m.prev_ticks < 0x1_0000_0000 && m.interval_ms < 0x1_0000_0000 ==> r,
{
    if m.prev_ticks < 0x1_0000_0000 && m.interval_ms < 0x1_0000_0000 {
        assert(m.prev_ticks * m.interval_ms <= 0xffff_ffff * 0xffff_ffff) by (nonlinear_arith)
            requires
                m.prev_ticks < 0x1_0000_0000,
                m.interval_ms < 0x1_0000_0000,
        ;
    }
}

/// The ids of requests count from one.
pub proof fn law_ids_count_from_one<T>(first: T, fresh: PendingRequests<T>)
    requires
        call_ensures(PendingRequests::<T>::new, (), fresh),
    ensures
        fresh@ == Map::<Seq<char>, T>::empty(),
        forall|a: &mut PendingRequests<T>, id: String| #[trigger]
            call_ensures(PendingRequests::<T>::begin, (a, first), id) && *a == fresh ==> id@
                == decimal(1),
{
}

} // verus!
