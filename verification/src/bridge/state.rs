//! The bridge's picture of the compositor, and what a client subscribed to.

use std::collections::{HashMap, HashSet};

use vstd::prelude::*;

use crate::bridge::proto::{window_view, workspace_view, Window, Workspace};
use crate::json::{items_view, lemma_items_push, Json, JsonView};
use crate::table::NameSet;
use crate::text::views;

verus! {

broadcast use vstd::std_specs::hash::group_hash_axioms;

/// The cached windows and workspaces, the focus, and the pinned windows.
pub struct Inner {
    pub windows: HashMap<u64, Window>,
    pub workspaces: HashMap<u64, Workspace>,
    pub focused_window: Option<u64>,
    pub focused_workspace: Option<u64>,
    pub pinned_windows: HashSet<u64>,
}

/// `v` holds each member of `s` once and nothing else.
pub open spec fn enumerates(v: Seq<u64>, s: Set<u64>) -> bool {
    v.no_duplicates() && v.to_set() == s
}

impl Inner {
    /// Each record is cached under its own id.
    pub open spec fn wf(&self) -> bool {
        &&& forall|id: u64| #[trigger]
            self.windows@.contains_key(id) ==> self.windows@[id].id == id
        &&& forall|id: u64| #[trigger]
            self.workspaces@.contains_key(id) ==> self.workspaces@[id].id == id
    }

    /// The window is cached and floats.
    pub open spec fn floats(&self, id: u64) -> bool {
        self.windows@.contains_key(id) && self.windows@[id].is_floating
    }

    /// Only windows that float are pinned.
    pub open spec fn pins_float(&self) -> bool {
        forall|id: u64| #[trigger] self.pinned_windows@.contains(id) ==> self.floats(id)
    }

    /// Nothing is cached, focused or pinned.
    pub fn new() -> (r: Self)
        ensures
            r.wf(),
            r.pins_float(),
            r.windows@ == Map::<u64, Window>::empty(),
            r.workspaces@ == Map::<u64, Workspace>::empty(),
            r.focused_window is None,
            r.focused_workspace is None,
            r.pinned_windows@ == Set::<u64>::empty(),
    {
        Inner {
            windows: HashMap::new(),
            workspaces: HashMap::new(),
            focused_window: None,
            focused_workspace: None,
            pinned_windows: HashSet::new(),
        }
    }
}

/// The keys of a map, each once, in the order of the map's own walk.
pub fn keys_of<T>(m: &HashMap<u64, T>) -> (r: Vec<u64>)
    ensures
        enumerates(r@, m@.dom()),
{
    let mut r: Vec<u64> = Vec::new();
    for k in it: m.keys()
        invariant
            it.seq().unref().no_duplicates(),
            it.seq().unref().to_set() == m@.dom(),
            it.seq().unref().len() == it.seq().len(),
            r@ == it.seq().unref().take(it.index() as int),
            it.index() == it.seq().len() ==> r@ == it.seq().unref(),
    {
        r.push(*k);
        assert(it.seq().unref().take(it.index() + 1) =~= it.seq().unref().take(
            it.index() as int,
        ).push(*k));
        assert(it.seq().unref().take(it.seq().len() as int) =~= it.seq().unref());
    }
    r
}

/// The members of a set, each once, in the order of the set's own walk.
pub fn members_of(s: &HashSet<u64>) -> (r: Vec<u64>)
    ensures
        enumerates(r@, s@),
{
    let mut r: Vec<u64> = Vec::new();
    for k in it: s.iter()
        invariant
            it.seq().unref().no_duplicates(),
            it.seq().unref().to_set() == s@,
            it.seq().unref().len() == it.seq().len(),
            r@ == it.seq().unref().take(it.index() as int),
            it.index() == it.seq().len() ==> r@ == it.seq().unref(),
    {
        r.push(*k);
        assert(it.seq().unref().take(it.index() + 1) =~= it.seq().unref().take(
            it.index() as int,
        ).push(*k));
        assert(it.seq().unref().take(it.seq().len() as int) =~= it.seq().unref());
    }
    r
}

/// `v` is the windows of `m`, each once, in some order.
pub open spec fn lists_windows(v: Seq<Window>, m: Map<u64, Window>) -> bool {
    exists|ids: Seq<u64>| #[trigger]
        enumerates(ids, m.dom()) && v == ids.map_values(|id: u64| m[id])
}

/// `v` is the workspaces of `m`, each once, in some order.
pub open spec fn lists_workspaces(v: Seq<Workspace>, m: Map<u64, Workspace>) -> bool {
    exists|ids: Seq<u64>| #[trigger]
        enumerates(ids, m.dom()) && v == ids.map_values(|id: u64| m[id])
}

/// The JSON array of window records.
pub open spec fn windows_view(v: Seq<Window>) -> JsonView {
    JsonView::Arr(v.map_values(|w: Window| window_view(w)))
}

/// The JSON array of workspace records.
pub open spec fn workspaces_view(v: Seq<Workspace>) -> JsonView {
    JsonView::Arr(v.map_values(|w: Workspace| workspace_view(w)))
}

/// The cached windows.
pub fn windows_of(m: &HashMap<u64, Window>) -> (r: Vec<Window>)
    ensures
        lists_windows(r@, m@),
{
    let ids = keys_of(m);
    let mut r: Vec<Window> = Vec::new();
    let mut i: usize = 0;
    while i < ids.len()
        invariant
            i <= ids@.len(),
            enumerates(ids@, m@.dom()),
            r@ == ids@.take(i as int).map_values(|id: u64| m@[id]),
        decreases ids@.len() - i,
    {
        assert(ids@.to_set().contains(ids@[i as int]));
        match m.get(&ids[i]) {
            Some(w) => r.push(w.clone()),
            None => {},
        }
        i += 1;
        assert(ids@.take(i as int).map_values(|id: u64| m@[id]) =~= ids@.take(i - 1).map_values(
            |id: u64| m@[id],
        ).push(m@[ids@[i - 1]]));
    }
    assert(ids@.take(ids@.len() as int) =~= ids@);
    r
}

/// The cached workspaces.
pub fn workspaces_of(m: &HashMap<u64, Workspace>) -> (r: Vec<Workspace>)
    ensures
        lists_workspaces(r@, m@),
{
    let ids = keys_of(m);
    let mut r: Vec<Workspace> = Vec::new();
    let mut i: usize = 0;
    while i < ids.len()
        invariant
            i <= ids@.len(),
            enumerates(ids@, m@.dom()),
            r@ == ids@.take(i as int).map_values(|id: u64| m@[id]),
        decreases ids@.len() - i,
    {
        assert(ids@.to_set().contains(ids@[i as int]));
        match m.get(&ids[i]) {
            Some(w) => r.push(w.clone()),
            None => {},
        }
        i += 1;
        assert(ids@.take(i as int).map_values(|id: u64| m@[id]) =~= ids@.take(i - 1).map_values(
            |id: u64| m@[id],
        ).push(m@[ids@[i - 1]]));
    }
    assert(ids@.take(ids@.len() as int) =~= ids@);
    r
}

/// The JSON array of window records.
pub fn windows_json(v: &Vec<Window>) -> (r: Json)
    ensures
        r@ == windows_view(v@),
{
    let mut items: Vec<Json> = Vec::new();
    let mut i: usize = 0;
    assert(items_view(items@) =~= v@.take(0).map_values(|w: Window| window_view(w)));
    while i < v.len()
        invariant
            i <= v@.len(),
            items_view(items@) == v@.take(i as int).map_values(|w: Window| window_view(w)),
        decreases v@.len() - i,
    {
        let item = v[i].to_json();
        proof {
            lemma_items_push(items@, item);
        }
        items.push(item);
        i += 1;
        assert(v@.take(i as int).map_values(|w: Window| window_view(w)) =~= v@.take(
            i - 1,
        ).map_values(|w: Window| window_view(w)).push(window_view(v@[i - 1])));
    }
    assert(v@.take(v@.len() as int) =~= v@);
    Json::Arr(items)
}

/// The JSON array of workspace records.
pub fn workspaces_json(v: &Vec<Workspace>) -> (r: Json)
    ensures
        r@ == workspaces_view(v@),
{
    let mut items: Vec<Json> = Vec::new();
    let mut i: usize = 0;
    assert(items_view(items@) =~= v@.take(0).map_values(|w: Workspace| workspace_view(w)));
    while i < v.len()
        invariant
            i <= v@.len(),
            items_view(items@) == v@.take(i as int).map_values(|w: Workspace| workspace_view(w)),
        decreases v@.len() - i,
    {
        let item = v[i].to_json();
        proof {
            lemma_items_push(items@, item);
        }
        items.push(item);
        i += 1;
        assert(v@.take(i as int).map_values(|w: Workspace| workspace_view(w)) =~= v@.take(
            i - 1,
        ).map_values(|w: Workspace| workspace_view(w)).push(workspace_view(v@[i - 1])));
    }
    assert(v@.take(v@.len() as int) =~= v@);
    Json::Arr(items)
}

/// The JSON array of strings.
pub open spec fn texts_view(v: Seq<Seq<char>>) -> JsonView {
    JsonView::Arr(v.map_values(|s: Seq<char>| JsonView::Str(s)))
}

/// The JSON array of strings.
pub fn texts_json(v: &Vec<String>) -> (r: Json)
    ensures
        r@ == texts_view(views(v@)),
{
    let mut items: Vec<Json> = Vec::new();
    let mut i: usize = 0;
    assert(items_view(items@) =~= views(v@).take(0).map_values(|s: Seq<char>| JsonView::Str(s)));
    while i < v.len()
        invariant
            i <= v@.len(),
            items_view(items@) == views(v@).take(i as int).map_values(
                |s: Seq<char>| JsonView::Str(s),
            ),
        decreases v@.len() - i,
    {
        let item = Json::text(v[i].as_str());
        proof {
            lemma_items_push(items@, item);
        }
        items.push(item);
        i += 1;
        assert(views(v@).take(i as int).map_values(|s: Seq<char>| JsonView::Str(s)) =~= views(
            v@,
        ).take(i - 1).map_values(|s: Seq<char>| JsonView::Str(s)).push(
            JsonView::Str(views(v@)[i - 1]),
        ));
    }
    assert(views(v@).take(v@.len() as int) =~= views(v@));
    Json::Arr(items)
}

/// One more element in front makes the set of elements grow by it.
proof fn lemma_take_set(all: Seq<Seq<char>>, i: int)
    requires
        0 < i <= all.len(),
    ensures
        all.take(i).to_set() == all.take(i - 1).to_set().insert(all[i - 1]),
{
    let more = all.take(i);
    let fewer = all.take(i - 1);
    assert forall|t: Seq<char>|
        more.to_set().contains(t) == #[trigger] fewer.to_set().insert(all[i - 1]).contains(t) by {
        if fewer.to_set().contains(t) {
            let k = choose|k: int| 0 <= k < fewer.len() && fewer[k] == t;
            assert(more[k] == t);
        }
        assert(more[i - 1] == all[i - 1]);
        if more.to_set().contains(t) {
            let k = choose|k: int| 0 <= k < more.len() && more[k] == t;
            if k < i - 1 {
                assert(fewer[k] == t);
            }
        }
    }
    assert(more.to_set() =~= fewer.to_set().insert(all[i - 1]));
}

/// What one client subscribed to.
pub struct ClientSubs {
    pub topics: NameSet,
}

impl Default for ClientSubs {
    fn default() -> (r: Self)
        ensures
            r.topics.wf(),
            r.topics@ == Set::<Seq<char>>::empty(),
    {
        ClientSubs { topics: NameSet::new() }
    }
}

impl ClientSubs {
    /// The client subscribed to `topic`.
    pub fn matches(&self, topic: &str) -> (r: bool)
        ensures
            r == self.topics@.contains(topic@),
    {
        self.topics.contains(topic)
    }

    /// Adds topics.
    pub fn subscribe(&mut self, topics: &Vec<String>)
        requires
            old(self).topics.wf(),
        ensures
            final(self).topics.wf(),
            final(self).topics@ == old(self).topics@.union(views(topics@).to_set()),
    {
        let mut i: usize = 0;
        assert(self.topics@ =~= old(self).topics@.union(views(topics@).take(0).to_set()));
        while i < topics.len()
            invariant
                i <= topics@.len(),
                self.topics.wf(),
                self.topics@ == old(self).topics@.union(views(topics@).take(i as int).to_set()),
            decreases topics@.len() - i,
        {
            self.topics.insert(topics[i].clone());
            i += 1;
            proof {
                let more = views(topics@).take(i as int);
                lemma_take_set(views(topics@), i as int);
                assert(self.topics@ =~= old(self).topics@.union(more.to_set()));
            }
        }
        assert(views(topics@).take(topics@.len() as int) =~= views(topics@));
    }

    /// Drops topics.
    pub fn unsubscribe(&mut self, topics: &Vec<String>)
        requires
            old(self).topics.wf(),
        ensures
            final(self).topics.wf(),
            final(self).topics@ == old(self).topics@.difference(views(topics@).to_set()),
    {
        let mut i: usize = 0;
        assert(self.topics@ =~= old(self).topics@.difference(views(topics@).take(0).to_set()));
        while i < topics.len()
            invariant
                i <= topics@.len(),
                self.topics.wf(),
                self.topics@ == old(self).topics@.difference(
                    views(topics@).take(i as int).to_set(),
                ),
            decreases topics@.len() - i,
        {
            self.topics.remove(topics[i].as_str());
            i += 1;
            proof {
                let more = views(topics@).take(i as int);
                lemma_take_set(views(topics@), i as int);
                assert(self.topics@ =~= old(self).topics@.difference(more.to_set()));
            }
        }
        assert(views(topics@).take(topics@.len() as int) =~= views(topics@));
    }
}

} // verus!
