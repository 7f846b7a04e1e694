//! `iris pin`: what is asked of the bridge, and what the user is told.

use vstd::prelude::*;
use vstd::string::*;

use crate::json::{as_id, as_text, field, items_view, lemma_items, Json, JsonView};
use crate::seqs::{first_index, lemma_first_index, lemma_no_first_index};
use crate::text::{decimal, decimal_string, opt_str_view};

verus! {

/// Arguments of `iris pin`.
#[derive(Debug)]
pub struct PinArgs {
    pub command: PinCmd,
}

/// What `iris pin` can do.
#[derive(Debug)]
pub enum PinCmd {
    /// Toggle the pin on the focused window.
    Toggle,
    /// List the pinned windows.
    List,
    /// Unpin all windows.
    Off,
}

/// The record with an id, among the windows of the whole state.
pub open spec fn record_of(state: JsonView, id: u64) -> JsonView {
    match field(state, "windows"@) {
        JsonView::Arr(items) => match first_index(
            items,
            |w: JsonView| as_id(field(w, "id"@)) == Some(id),
        ) {
            Some(i) => items[i],
            None => JsonView::Null,
        },
        _ => JsonView::Null,
    }
}

/// The application of a window, or a question mark.
pub open spec fn app_of(state: JsonView, id: u64) -> Seq<char> {
    match as_text(field(record_of(state, id), "app_id"@)) {
        Some(s) => s,
        None => "?"@,
    }
}

fn id_of(w: &Json) -> (r: Option<u64>)
    ensures
        r == as_id(field(w@, "id"@)),
{
    match w.get("id") {
        Some(v) => v.as_u64(),
        None => None,
    }
}

fn text_at<'a>(j: &'a Json, key: &str) -> (r: Option<&'a str>)
    ensures
        opt_str_view(r) == as_text(field(j@, key@)),
{
    match j.get(key) {
        Some(v) => v.as_str(),
        None => None,
    }
}

fn find_app(state: &Json, id: u64) -> (r: String)
    ensures
        r@ == app_of(state@, id),
{
    let items = match state.get("windows") {
        Some(v) => v.as_array(),
        None => None,
    };
    match items {
        None => "?".to_owned(),
        Some(items) => {
            let ghost all = items_view(items@);
            let ghost p = |w: JsonView| as_id(field(w, "id"@)) == Some(id);
            proof {
                lemma_items(items@);
            }
            let mut i: usize = 0;
            while i < items.len()
                invariant
                    i <= items@.len(),
                    all == items_view(items@),
                    all.len() == items@.len(),
                    forall|k: int| 0 <= k < items@.len() ==> #[trigger] all[k] == items@[k]@,
                    field(state@, "windows"@) == JsonView::Arr(all),
                    p == (|w: JsonView| as_id(field(w, "id"@)) == Some(id)),
                    forall|j: int| 0 <= j < i ==> !p(#[trigger] all[j]),
                decreases items@.len() - i,
            {
                assert(all[i as int] == items@[i as int]@);
                if id_of(&items[i]) == Some(id) {
                    proof {
                        lemma_first_index(all, p, i as int);
                    }
                    return match text_at(&items[i], "app_id") {
                        Some(a) => a.to_owned(),
                        None => "?".to_owned(),
                    };
                }
                i += 1;
            }
            proof {
                lemma_no_first_index(all, p);
            }
            "?".to_owned()
        },
    }
}

/// The window to toggle: the focused one, with its application.
pub fn toggle_target(state: &Json) -> (r: Result<(u64, String), String>)
    ensures
        match as_id(field(state@, "focused_window_id"@)) {
            Some(id) => r matches Ok(t) && t.0 == id && t.1@ == app_of(state@, id),
            None => r matches Err(e) && e@ == "no focused window"@,
        },
{
    let focused = match state.get("focused_window_id") {
        Some(v) => v.as_u64(),
        None => None,
    };
    match focused {
        Some(id) => Ok((id, find_app(state, id))),
        None => Err("no focused window".to_owned()),
    }
}

/// What became of the pin.
pub open spec fn verb(answer: JsonView) -> Seq<char> {
    if field(answer, "pinned"@) == JsonView::Bool(true) {
        "pinned"@
    } else {
        "unpinned"@
    }
}

/// What the user is told after a toggle: the line on the terminal, and the
/// notice.
pub fn toggle_summary(app_id: &str, id: u64, answer: &Json) -> (r: (String, String))
    ensures
        r.0@ == verb(answer@) + " "@ + app_id@ + " ("@ + decimal(id as nat) + ")"@,
        r.1@ == app_id@ + ": "@ + verb(answer@),
{
    let pinned = match answer.get("pinned") {
        Some(v) => match v.as_bool() {
            Some(b) => b,
            None => false,
        },
        None => false,
    };
    let v = if pinned {
        "pinned"
    } else {
        "unpinned"
    };
    let mut line = v.to_owned();
    line.append(" ");
    line.append(app_id);
    line.append(" (");
    line.append(decimal_string(id).as_str());
    line.append(")");
    let mut notice = app_id.to_owned();
    notice.append(": ");
    notice.append(v);
    (line, notice)
}

/// A row of the list of pinned windows.
#[derive(Debug)]
pub struct PinRow {
    pub app_id: String,
    pub title: String,
}

/// The row says what a record says; what the record lacks is a question mark
/// or empty.
pub open spec fn is_row_of(r: PinRow, w: JsonView) -> bool {
    &&& r.app_id@ == (match as_text(field(w, "app_id"@)) {
        Some(s) => s,
        None => "?"@,
    })
    &&& r.title@ == (match as_text(field(w, "title"@)) {
        Some(s) => s,
        None => ""@,
    })
}

/// The records in an answer; an answer that is no list holds none.
pub open spec fn records(answer: JsonView) -> Seq<JsonView> {
    match answer {
        JsonView::Arr(items) => items,
        _ => Seq::empty(),
    }
}

/// The rows of the list of pinned windows.
pub fn list_rows(answer: &Json) -> (r: Vec<PinRow>)
    ensures
        r@.len() == records(answer@).len(),
        forall|i: int| 0 <= i < r@.len() ==> is_row_of(#[trigger] r@[i], records(answer@)[i]),
{
    let mut r: Vec<PinRow> = Vec::new();
    match answer.as_array() {
        Some(items) => {
            proof {
                lemma_items(items@);
            }
            let mut i: usize = 0;
            while i < items.len()
                invariant
                    i <= items@.len(),
                    r@.len() == i,
                    items_view(items@).len() == items@.len(),
                    forall|k: int|
                        0 <= k < items@.len() ==> #[trigger] items_view(items@)[k] == items@[k]@,
                    forall|k: int| 0 <= k < i ==> is_row_of(#[trigger] r@[k], items_view(items@)[k]),
                decreases items@.len() - i,
            {
                assert(items_view(items@)[i as int] == items@[i as int]@);
                let app_id = match text_at(&items[i], "app_id") {
                    Some(a) => a.to_owned(),
                    None => "?".to_owned(),
                };
                let title = match text_at(&items[i], "title") {
                    Some(t) => t.to_owned(),
                    None => "".to_owned(),
                };
                r.push(PinRow { app_id, title });
                i += 1;
            }
        },
        None => {},
    }
    r
}

/// How many windows an answer says were unpinned.
pub open spec fn unpinned(answer: JsonView) -> u64 {
    match as_id(field(answer, "n_unpinned"@)) {
        Some(n) => n,
        None => 0,
    }
}

/// What the user is told after all windows were unpinned: the line on the
/// terminal, and the notice, which is shown only where there was one.
pub fn off_summary(answer: &Json) -> (r: (String, Option<String>))
    ensures
        r.0@ == "unpinned "@ + decimal(unpinned(answer@) as nat) + " windows"@,
        unpinned(answer@) == 0 ==> r.1 is None,
        unpinned(answer@) > 0 ==> (r.1 matches Some(s) && s@ == decimal(
            unpinned(answer@) as nat,
        ) + " windows"@),
{
    let n: u64 = match answer.get("n_unpinned") {
        Some(v) => match v.as_u64() {
            Some(n) => n,
            None => 0,
        },
        None => 0,
    };
    let mut line = "unpinned ".to_owned();
    line.append(decimal_string(n).as_str());
    line.append(" windows");
    if n > 0 {
        let mut notice = decimal_string(n);
        notice.append(" windows");
        (line, Some(notice))
    } else {
        (line, None)
    }
}

} // verus!
