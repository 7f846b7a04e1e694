//! JSON values as the bridge and its clients exchange them.

use vstd::prelude::*;
use vstd::string::*;

use crate::text::str_eq;

verus! {

/// A JSON value. Integers are kept as they are read: unsigned where they are
/// not negative. A number with a fraction is kept as the bit pattern of its
/// double.
#[derive(Debug)]
pub enum Json {
    Null,
    Bool(bool),
    Uint(u64),
    Neg(i64),
    Float(u64),
    Str(String),
    Arr(Vec<Json>),
    Obj(Vec<(String, Json)>),
}

/// What a JSON value says: an object is a map from its keys.
pub ghost enum JsonView {
    Null,
    Bool(bool),
    Num(int),
    Float(u64),
    Str(Seq<char>),
    Arr(Seq<JsonView>),
    Obj(Map<Seq<char>, JsonView>),
}

/// What the elements of an array say.
pub open spec fn items_view(s: Seq<Json>) -> Seq<JsonView>
    decreases s,
{
    if s.len() == 0 {
        Seq::empty()
    } else {
        items_view(s.drop_last()).push(json_view(s.last()))
    }
}

/// What the entries of an object say: of two entries with one key, the later.
pub open spec fn entries_view(s: Seq<(String, Json)>) -> Map<Seq<char>, JsonView>
    decreases s,
{
    if s.len() == 0 {
        Map::empty()
    } else {
        entries_view(s.drop_last()).insert(s.last().0@, json_view(s.last().1))
    }
}

/// What a JSON value says.
pub open spec fn json_view(j: Json) -> JsonView
    decreases j,
{
    match j {
        Json::Null => JsonView::Null,
        Json::Bool(b) => JsonView::Bool(b),
        Json::Uint(n) => JsonView::Num(n as int),
        Json::Neg(n) => JsonView::Num(n as int),
        Json::Float(bits) => JsonView::Float(bits),
        Json::Str(s) => JsonView::Str(s@),
        Json::Arr(v) => JsonView::Arr(items_view(v@)),
        Json::Obj(v) => JsonView::Obj(entries_view(v@)),
    }
}

impl View for Json {
    type V = JsonView;

    open spec fn view(&self) -> JsonView {
        json_view(*self)
    }
}

/// What an optional string says: the string, or null.
pub open spec fn opt_text(o: Option<Seq<char>>) -> JsonView {
    match o {
        Some(s) => JsonView::Str(s),
        None => JsonView::Null,
    }
}

/// What an optional number says: the number, or null.
pub open spec fn opt_number(o: Option<u64>) -> JsonView {
    match o {
        Some(n) => JsonView::Num(n as int),
        None => JsonView::Null,
    }
}

/// The value under a key of an object; null where there is no such key, and
/// where the value is no object.
pub open spec fn field(j: JsonView, key: Seq<char>) -> JsonView {
    match j {
        JsonView::Obj(m) => if m.contains_key(key) {
            m[key]
        } else {
            JsonView::Null
        },
        _ => JsonView::Null,
    }
}

/// The value is an object that has the key.
pub open spec fn has_field(j: JsonView, key: Seq<char>) -> bool {
    j matches JsonView::Obj(m) && m.contains_key(key)
}

/// The value is a number that an unsigned 64-bit integer holds.
pub open spec fn as_id(j: JsonView) -> Option<u64> {
    match j {
        JsonView::Num(n) => if 0 <= n <= u64::MAX {
            Some(n as u64)
        } else {
            None
        },
        _ => None,
    }
}

/// The value is a string.
pub open spec fn as_text(j: JsonView) -> Option<Seq<char>> {
    match j {
        JsonView::Str(s) => Some(s),
        _ => None,
    }
}

/// Reading the elements of an array one by one gives them back.
pub proof fn lemma_items(s: Seq<Json>)
    ensures
        items_view(s).len() == s.len(),
        forall|i: int| 0 <= i < s.len() ==> #[trigger] items_view(s)[i] == json_view(s[i]),
    decreases s.len(),
{
    if s.len() > 0 {
        lemma_items(s.drop_last());
    }
}

/// Adding an element to an array.
pub proof fn lemma_items_push(s: Seq<Json>, j: Json)
    ensures
        items_view(s.push(j)) == items_view(s).push(json_view(j)),
{
    assert(s.push(j).drop_last() =~= s);
}

/// The entries from position `i` on decide about a key that occurs there.
proof fn lemma_entries_tail(s: Seq<(String, Json)>, i: int, key: Seq<char>)
    requires
        0 <= i <= s.len(),
        forall|k: int| i <= k < s.len() ==> (#[trigger] s[k]).0@ != key,
    ensures
        entries_view(s).contains_key(key) == entries_view(s.take(i)).contains_key(key),
        entries_view(s).contains_key(key) ==> entries_view(s)[key] == entries_view(s.take(i))[key],
    decreases s.len() - i,
{
    if i == s.len() {
        assert(s.take(i) =~= s);
    } else {
        lemma_entries_tail(s, i + 1, key);
        assert(s.take(i + 1).drop_last() =~= s.take(i));
        assert(s[i].0@ != key);
    }
}

impl Clone for Json {
    fn clone(&self) -> (r: Self)
        ensures
            r@ == self@,
        decreases self,
    {
        match self {
            Json::Null => Json::Null,
            Json::Bool(b) => Json::Bool(*b),
            Json::Uint(n) => Json::Uint(*n),
            Json::Neg(n) => Json::Neg(*n),
            Json::Float(bits) => Json::Float(*bits),
            Json::Str(s) => Json::Str(s.clone()),
            Json::Arr(v) => {
                let mut r: Vec<Json> = Vec::new();
                let mut i: usize = 0;
                assert(items_view(r@) =~= items_view(v@.take(0)));
                while i < v.len()
                    invariant
                        *self == Json::Arr(*v),
                        i <= v@.len(),
                        items_view(r@) == items_view(v@.take(i as int)),
                    decreases v@.len() - i,
                {
                    assert(decreases_to!(*self => self->Arr_0));
                    assert(decreases_to!(*v => v@[i as int]));
                    let j = v[i].clone();
                    proof {
                        lemma_items_push(r@, j);
                        assert(v@.take(i + 1).drop_last() =~= v@.take(i as int));
                    }
                    r.push(j);
                    i += 1;
                }
                assert(v@.take(v@.len() as int) =~= v@);
                Json::Arr(r)
            },
            Json::Obj(v) => {
                let mut r: Vec<(String, Json)> = Vec::new();
                let mut i: usize = 0;
                assert(entries_view(r@) =~= entries_view(v@.take(0)));
                while i < v.len()
                    invariant
                        *self == Json::Obj(*v),
                        i <= v@.len(),
                        entries_view(r@) == entries_view(v@.take(i as int)),
                    decreases v@.len() - i,
                {
                    assert(decreases_to!(*self => self->Obj_0));
                    assert(decreases_to!(*v => v@[i as int]));
                    assert(decreases_to!(v@[i as int] => v@[i as int].1));
                    let j = v[i].1.clone();
                    let ghost before = r@;
                    r.push((v[i].0.clone(), j));
                    proof {
                        assert(r@.drop_last() =~= before);
                        assert(v@.take(i + 1).drop_last() =~= v@.take(i as int));
                    }
                    i += 1;
                }
                assert(v@.take(v@.len() as int) =~= v@);
                Json::Obj(r)
            },
        }
    }
}

/// Puts one more entry into an object under construction.
pub fn put(entries: &mut Vec<(String, Json)>, key: &str, value: Json)
    ensures
        entries_view(final(entries)@) == entries_view(old(entries)@).insert(key@, value@),
{
    let ghost before = entries@;
    entries.push((key.to_owned(), value));
    assert(entries@.drop_last() =~= before);
}

impl Json {
    /// A JSON string.
    pub fn text(s: &str) -> (r: Json)
        ensures
            r@ == JsonView::Str(s@),
    {
        Json::Str(s.to_owned())
    }

    /// A string or null.
    pub fn text_or_null(s: &Option<String>) -> (r: Json)
        ensures
            r@ == opt_text(crate::text::opt_view(*s)),
    {
        match s {
            Some(s) => Json::Str(s.clone()),
            None => Json::Null,
        }
    }

    /// A number or null.
    pub fn number_or_null(n: Option<u64>) -> (r: Json)
        ensures
            r@ == opt_number(n),
    {
        match n {
            Some(n) => Json::Uint(n),
            None => Json::Null,
        }
    }

    /// A signed number.
    pub fn signed(n: i32) -> (r: Json)
        ensures
            r@ == JsonView::Num(n as int),
    {
        if n >= 0 {
            Json::Uint(n as u64)
        } else {
            Json::Neg(n as i64)
        }
    }

    /// The empty object.
    pub fn empty_object() -> (r: Json)
        ensures
            r@ == JsonView::Obj(Map::empty()),
    {
        Json::Obj(Vec::new())
    }

    /// An object with one entry.
    pub fn single(key: &str, value: Json) -> (r: Json)
        ensures
            r@ == JsonView::Obj(map![key@ => value@]),
    {
        let mut e: Vec<(String, Json)> = Vec::new();
        put(&mut e, key, value);
        Json::Obj(e)
    }

    /// The value under `key`, where this is an object that has it.
    pub fn get(&self, key: &str) -> (r: Option<&Json>)
        ensures
            match r {
                Some(j) => has_field(self@, key@) && j@ == field(self@, key@),
                None => !has_field(self@, key@),
            },
    {
        match self {
            Json::Obj(entries) => {
                let mut i: usize = entries.len();
                while i > 0
                    invariant
                        *self == Json::Obj(*entries),
                        i <= entries@.len(),
                        forall|k: int| i <= k < entries@.len() ==> (#[trigger] entries@[k]).0@ != key@,
                    decreases i,
                {
                    i -= 1;
                    if str_eq(entries[i].0.as_str(), key) {
                        proof {
                            lemma_entries_tail(entries@, i + 1, key@);
                            assert(entries@.take(i + 1).drop_last() =~= entries@.take(i as int));
                        }
                        return Some(&entries[i].1);
                    }
                }
                proof {
                    lemma_entries_tail(entries@, 0, key@);
                    assert(entries@.take(0) =~= Seq::empty());
                }
                None
            },
            _ => None,
        }
    }

    /// The unsigned number that this is, if it is one.
    pub fn as_u64(&self) -> (r: Option<u64>)
        ensures
            r == as_id(self@),
    {
        match self {
            Json::Uint(n) => Some(*n),
            Json::Neg(n) => if *n >= 0 {
                Some(*n as u64)
            } else {
                None
            },
            _ => None,
        }
    }

    /// The string that this is, if it is one.
    pub fn as_str(&self) -> (r: Option<&str>)
        ensures
            crate::text::opt_str_view(r) == as_text(self@),
    {
        match self {
            Json::Str(s) => Some(s.as_str()),
            _ => None,
        }
    }

    /// The truth value that this is, if it is one.
    pub fn as_bool(&self) -> (r: Option<bool>)
        ensures
            r == (match self@ {
                JsonView::Bool(b) => Some(b),
                _ => None,
            }),
    {
        match self {
            Json::Bool(b) => Some(*b),
            _ => None,
        }
    }

    /// The elements, where this is an array.
    pub fn as_array(&self) -> (r: Option<&Vec<Json>>)
        ensures
            match r {
                Some(v) => self@ == JsonView::Arr(items_view(v@)),
                None => !(self@ is Arr),
            },
    {
        match self {
            Json::Arr(v) => Some(v),
            _ => None,
        }
    }
}

} // verus!
