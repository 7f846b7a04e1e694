//! The client's side of the line protocol: which answer belongs to which
//! request.

use vstd::prelude::*;
use vstd::string::*;

use crate::bridge::proto::Response;
use crate::bridge::{runtime_choice, runtime_dir, socket_in, socket_path};
use crate::json::{Json, JsonView};
use crate::table::{distinct_names, table_of, NameTable};
use crate::text::{decimal, decimal_string, lemma_decimal_value, opt_view};

verus! {

/// What a request came to.
#[derive(Debug)]
pub enum ResponseOutcome {
    /// The bridge did it; this is what it answered.
    Done(Json),
    /// The bridge refused it, or is gone; this is why.
    Refused(String),
}

/// What an answer says about its request: without data it says null, and
/// without a reason that the error is unknown.
pub open spec fn is_outcome(o: ResponseOutcome, resp: Response) -> bool {
    if resp.ok {
        o matches ResponseOutcome::Done(j) && (match resp.data {
            Some(d) => j == d,
            None => j@ == JsonView::Null,
        })
    } else {
        o matches ResponseOutcome::Refused(e) && e@ == (match opt_view(resp.error) {
            Some(s) => s,
            None => "unknown error"@,
        })
    }
}

/// What an answer says about its request.
pub fn outcome_of(resp: Response) -> (r: ResponseOutcome)
    ensures
        is_outcome(r, resp),
{
    if resp.ok {
        match resp.data {
            Some(d) => ResponseOutcome::Done(d),
            None => ResponseOutcome::Done(Json::Null),
        }
    } else {
        match resp.error {
            Some(e) => ResponseOutcome::Refused(e),
            None => ResponseOutcome::Refused("unknown error".to_owned()),
        }
    }
}

/// Those who wait for an answer, by the id of their request.
pub struct PendingRequests<T> {
    waiting: NameTable<T>,
    next_id: u64,
}

impl<T> PendingRequests<T> {
    /// Who waits.
    pub closed spec fn view(&self) -> Map<Seq<char>, T> {
        self.waiting@
    }

    /// The number of the next request.
    pub closed spec fn next(&self) -> u64 {
        self.next_id
    }

    /// Every id that is waited under was given out before.
    pub closed spec fn wf(&self) -> bool {
        &&& self.waiting.wf()
        &&& forall|id: Seq<char>| #[trigger]
            self.waiting@.contains_key(id) ==> exists|n: nat|
                n < self.next_id && id == #[trigger] decimal(n)
    }

    /// Nobody waits; ids count from one.
    pub fn new() -> (r: Self)
        ensures
            r.wf(),
            r@ == Map::<Seq<char>, T>::empty(),
            r.next() == 1,
    {
        PendingRequests { waiting: NameTable::new(), next_id: 1 }
    }

    /// Another request can be given an id.
    pub fn can_begin(&self) -> (r: bool)
        ensures
            r == (self.next() < u64::MAX),
    {
        self.next_id < u64::MAX
    }

    /// Gives a request an id, under which somebody waits from then on. The id
    /// is new: nobody waits under it yet.
    pub fn begin(&mut self, waiter: T) -> (id: String)
        requires
            old(self).wf(),
            old(self).next() < u64::MAX,
        ensures
            final(self).wf(),
            id@ == decimal(old(self).next() as nat),
            final(self).next() == old(self).next() + 1,
            !old(self)@.contains_key(id@),
            final(self)@ == old(self)@.insert(id@, waiter),
    {
        let id = decimal_string(self.next_id);
        proof {
            if self.waiting@.contains_key(id@) {
                let n = choose|n: nat| n < self.next_id && id@ == #[trigger] decimal(n);
                lemma_decimal_value(n);
                lemma_decimal_value(self.next_id as nat);
            }
        }
        self.waiting.insert(id.clone(), waiter);
        self.next_id = self.next_id + 1;
        proof {
            assert forall|t: Seq<char>| #[trigger] self.waiting@.contains_key(t) implies exists|
                n: nat,
            |
                n < self.next_id && t == #[trigger] decimal(n) by {
                if t == id@ {
                    assert(t == decimal((self.next_id - 1) as nat));
                } else {
                    assert(old(self).waiting@.contains_key(t));
                    let n = choose|n: nat| n < old(self).next_id && t == #[trigger] decimal(n);
                    assert(t == decimal(n));
                }
            }
        }
        id
    }

    /// Gives up a request: nobody waits for it any more.
    pub fn cancel(&mut self, id: &str)
        requires
            old(self).wf(),
        ensures
            final(self).wf(),
            final(self).next() == old(self).next(),
            final(self)@ == old(self)@.remove(id@),
    {
        self.waiting.remove(id);
    }

    /// Takes an answer. The result is who is told what; an answer that nobody
    /// waits for is dropped.
    pub fn on_response(&mut self, resp: Response) -> (r: Option<(T, ResponseOutcome)>)
        requires
            old(self).wf(),
        ensures
            final(self).wf(),
            final(self).next() == old(self).next(),
            final(self)@ == old(self)@.remove(resp.id@),
            if old(self)@.contains_key(resp.id@) {
                r matches Some(told) && told.0 == old(self)@[resp.id@] && is_outcome(told.1, resp)
            } else {
                r is None
            },
    {
        match self.waiting.remove(resp.id.as_str()) {
            Some(waiter) => Some((waiter, outcome_of(resp))),
            None => None,
        }
    }

    /// The bridge is gone: everybody is told, and nobody waits any more.
    pub fn on_close(&mut self) -> (r: Vec<(T, ResponseOutcome)>)
        requires
            old(self).wf(),
        ensures
            final(self).wf(),
            final(self).next() == old(self).next(),
            final(self)@ == Map::<Seq<char>, T>::empty(),
            exists|held: Seq<(String, T)>|
                {
                    &&& #[trigger] distinct_names(held)
                    &&& table_of(held) == old(self)@
                    &&& r@.len() == held.len()
                    &&& forall|i: int|
                        0 <= i < held.len() ==> (#[trigger] r@[i]).0 == held[i].1 && (
                        r@[i].1 matches ResponseOutcome::Refused(e) && e@
                            == "bridge connection closed before response arrived"@)
                },
    {
        let mut held = self.waiting.drain();
        let ghost all = held@;
        let mut out: Vec<(T, ResponseOutcome)> = Vec::new();
        while held.len() > 0
            invariant
                held@.len() + out@.len() == all.len(),
                held@ == all.skip(out@.len() as int),
                forall|i: int|
                    0 <= i < out@.len() ==> (#[trigger] out@[i]).0 == all[i].1 && (
                    out@[i].1 matches ResponseOutcome::Refused(e) && e@
                        == "bridge connection closed before response arrived"@),
            decreases held@.len(),
        {
            let entry = held.remove(0);
            assert(entry == all[out@.len() as int]);
            out.push(
                (
                    entry.1,
                    ResponseOutcome::Refused(
                        "bridge connection closed before response arrived".to_owned(),
                    ),
                ),
            );
            assert(held@ =~= all.skip(out@.len() as int));
        }
        out
    }
}

/// What the caller of a request gets: the answer, or the bridge's reason.
pub fn result_of(outcome: ResponseOutcome) -> (r: Result<Json, String>)
    ensures
        match outcome {
            ResponseOutcome::Done(j) => r == Ok::<Json, String>(j),
            ResponseOutcome::Refused(e) => r matches Err(text) && text@ == "bridge: "@ + e@,
        },
{
    match outcome {
        ResponseOutcome::Done(j) => Ok(j),
        ResponseOutcome::Refused(e) => {
            let mut s = "bridge: ".to_owned();
            s.append(e.as_str());
            Err(s)
        },
    }
}

/// Where a client looks for the bridge: in the directory that the bridge
/// chooses too.
pub fn default_socket_path(from_env: Option<String>, fallback: Option<String>) -> (r: Result<
    String,
    String,
>)
    ensures
        match runtime_choice(from_env, fallback) {
            Some(d) => r matches Ok(path) && path@ == socket_in(d@),
            None => r matches Err(e) && e@
                == "XDG_RUNTIME_DIR not set and no runtime dir fallback available"@,
        },
{
    match runtime_dir(from_env, fallback) {
        Ok(d) => Ok(socket_path(d.as_str())),
        Err(_) => Err(
            "XDG_RUNTIME_DIR not set and no runtime dir fallback available".to_owned(),
        ),
    }
}

/// The ids of two requests differ.
pub proof fn law_request_ids_differ(a: nat, b: nat)
    requires
        a != b,
    ensures
        decimal(a) != decimal(b),
{
    lemma_decimal_value(a);
    lemma_decimal_value(b);
}

} // verus!
