//! Which window belongs to which process that was started.
//!
//! A process is started with a fresh activation token, and the first event of
//! its window carries that token. Whoever waits for the window is kept here
//! under the token. The event may arrive before anybody waits: it is then
//! kept until somebody does.

use vstd::prelude::*;
use vstd::string::*;

use crate::bridge::niri_conn::opened_view;
use crate::bridge::proto::{lemma_window_fields, topics, window_view, Event, Window};
use crate::json::{as_id, as_text, field, JsonView};
use crate::table::NameTable;
use crate::text::str_eq;

verus! {

/// Those who wait for a window, and windows that nobody has waited for yet.
pub struct PendingSpawns<T> {
    by_token: NameTable<T>,
    early_arrivals: NameTable<u64>,
}

/// What registering comes to.
pub enum Registered<T> {
    /// The window was there already.
    Resolved { waiter: T, window_id: u64 },
    /// The window is awaited. One who waited under the same token before is
    /// handed back, and waits in vain.
    Waiting { displaced: Option<T> },
}

/// The token and the window that an event reports, if it reports both.
pub open spec fn reported_spawn(topic: Seq<char>, data: JsonView) -> Option<(Seq<char>, u64)> {
    if topic == topics::WINDOWS@ {
        match (
            as_text(field(data, "activation_token"@)),
            as_id(field(field(data, "opened_or_changed"@), "id"@)),
        ) {
            (Some(token), Some(id)) => Some((token, id)),
            _ => None,
        }
    } else {
        None
    }
}

/// Waiting for a token, as a step on who waits and which windows are kept.
/// The result is who is told which window at once.
pub open spec fn registering<T>(
    waiting: Map<Seq<char>, T>,
    early: Map<Seq<char>, u64>,
    token: Seq<char>,
    waiter: T,
) -> (Map<Seq<char>, T>, Map<Seq<char>, u64>, Option<(T, u64)>) {
    if early.contains_key(token) {
        (waiting, early.remove(token), Some((waiter, early[token])))
    } else {
        (waiting.insert(token, waiter), early, None)
    }
}

/// The arrival of a window with a token, as such a step.
pub open spec fn arriving<T>(
    waiting: Map<Seq<char>, T>,
    early: Map<Seq<char>, u64>,
    token: Seq<char>,
    id: u64,
) -> (Map<Seq<char>, T>, Map<Seq<char>, u64>, Option<(T, u64)>) {
    if waiting.contains_key(token) {
        (waiting.remove(token), early, Some((waiting[token], id)))
    } else {
        (waiting, early.insert(token, id), None)
    }
}

impl<T> PendingSpawns<T> {
    /// Who waits, by token.
    pub closed spec fn waiting(&self) -> Map<Seq<char>, T> {
        self.by_token@
    }

    /// Windows that nobody has waited for yet, by token.
    pub closed spec fn early(&self) -> Map<Seq<char>, u64> {
        self.early_arrivals@
    }

    /// Nobody waits for a window that is there.
    pub closed spec fn wf(&self) -> bool {
        &&& self.by_token.wf()
        &&& self.early_arrivals.wf()
        &&& forall|t: Seq<char>| !(#[trigger] self.by_token@.contains_key(t)
            && self.early_arrivals@.contains_key(t))
    }

    /// Nobody waits, and no window is kept.
    pub fn new() -> (r: Self)
        ensures
            r.wf(),
            r.waiting() == Map::<Seq<char>, T>::empty(),
            r.early() == Map::<Seq<char>, u64>::empty(),
    {
        PendingSpawns { by_token: NameTable::new(), early_arrivals: NameTable::new() }
    }

    /// Waits for the window with a token.
    pub fn register(&mut self, token: String, waiter: T) -> (r: Registered<T>)
        requires
            old(self).wf(),
        ensures
            final(self).wf(),
            ({
                let after = registering(old(self).waiting(), old(self).early(), token@, waiter);
                &&& final(self).waiting() == after.0
                &&& final(self).early() == after.1
                &&& r == (match after.2 {
                    Some((waiter, window_id)) => Registered::Resolved { waiter, window_id },
                    None => Registered::Waiting {
                        displaced: if old(self).waiting().contains_key(token@) {
                            Some(old(self).waiting()[token@])
                        } else {
                            None
                        },
                    },
                })
            }),
    {
        match self.early_arrivals.remove(token.as_str()) {
            Some(window_id) => Registered::Resolved { waiter, window_id },
            None => {
                assert(self.early_arrivals@ =~= old(self).early_arrivals@);
                let displaced = self.by_token.insert(token, waiter);
                Registered::Waiting { displaced }
            },
        }
    }

    /// Takes an event. Where somebody waits for its window, the result is who
    /// and which; otherwise the window is kept. An event that does not report
    /// both a token and a window changes nothing.
    pub fn dispatch(&mut self, event: &Event) -> (r: Option<(T, u64)>)
        requires
            old(self).wf(),
        ensures
            final(self).wf(),
            match reported_spawn(event.event@, event.data@) {
                Some((token, id)) => {
                    let after = arriving(old(self).waiting(), old(self).early(), token, id);
                    &&& final(self).waiting() == after.0
                    &&& final(self).early() == after.1
                    &&& r == after.2
                },
                None => {
                    &&& r is None
                    &&& final(self).waiting() == old(self).waiting()
                    &&& final(self).early() == old(self).early()
                },
            },
    {
        if !str_eq(event.event.as_str(), topics::WINDOWS) {
            return None;
        }
        let token = match event.data.get("activation_token") {
            Some(v) => v.as_str(),
            None => None,
        };
        let id = match event.data.get("opened_or_changed") {
            Some(w) => match w.get("id") {
                Some(v) => v.as_u64(),
                None => None,
            },
            None => None,
        };
        match (token, id) {
            (Some(token), Some(id)) => match self.by_token.remove(token) {
                Some(waiter) => Some((waiter, id)),
                None => {
                    assert(self.by_token@ =~= old(self).by_token@);
                    self.early_arrivals.insert(token.to_owned(), id);
                    None
                },
            },
            _ => None,
        }
    }

    /// How many wait.
    pub fn pending_count(&self) -> (r: usize)
        requires
            self.wf(),
        ensures
            r == self.waiting().dom().len(),
    {
        self.by_token.len()
    }
}

/// Whether the window arrives first or somebody waits for it first, the one
/// who waits is told the window, once, and nothing of it is left behind.
pub proof fn law_order_does_not_matter<T>(
    waiting: Map<Seq<char>, T>,
    early: Map<Seq<char>, u64>,
    token: Seq<char>,
    waiter: T,
    id: u64,
)
    requires
        !waiting.contains_key(token),
        !early.contains_key(token),
    ensures
        ({
            let r1 = registering(waiting, early, token, waiter);
            let r2 = arriving(r1.0, r1.1, token, id);
            let a1 = arriving(waiting, early, token, id);
            let a2 = registering(a1.0, a1.1, token, waiter);
            &&& r1.2 is None
            &&& r2.2 == Some((waiter, id))
            &&& a1.2 is None
            &&& a2.2 == Some((waiter, id))
            &&& r2.0 == waiting
            &&& r2.1 == early
            &&& a2.0 == waiting
            &&& a2.1 == early
        }),
{
    assert(waiting.insert(token, waiter).remove(token) =~= waiting);
    assert(early.insert(token, id).remove(token) =~= early);
}

/// A window that arrives for one token is never handed to one who waits for
/// another.
pub proof fn law_tokens_are_independent<T>(
    waiting: Map<Seq<char>, T>,
    early: Map<Seq<char>, u64>,
    token: Seq<char>,
    other: Seq<char>,
    waiter: T,
    id: u64,
)
    requires
        token != other,
        !early.contains_key(other),
    ensures
        registering(waiting, early.insert(token, id), other, waiter).2 is None,
        arriving(waiting.insert(other, waiter), early, token, id).0.contains_key(other),
{
}

/// The event that the bridge emits for a window of a process that was started
/// with a token is read as that token and that window; without a token it is
/// read as nothing.
pub proof fn law_stamped_event_is_read_as_meant(w: Window, token: Option<Seq<char>>)
    ensures
        reported_spawn(topics::WINDOWS@, opened_view(w, token)) == (match token {
            Some(t) => Some((t, w.id)),
            None => None,
        }),
{
    reveal_strlit("opened_or_changed");
    reveal_strlit("activation_token");
    assert("opened_or_changed"@.len() == 17);
    assert("activation_token"@.len() == 16);
    lemma_window_fields(w);
    assert(field(opened_view(w, token), "opened_or_changed"@) == window_view(w));
    match token {
        Some(t) => {
            assert(field(opened_view(w, token), "activation_token"@) == JsonView::Str(t));
        },
        None => {
            assert(field(opened_view(w, token), "activation_token"@) == JsonView::Null);
        },
    }
}

} // verus!
