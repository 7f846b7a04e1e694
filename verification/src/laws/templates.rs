//! Variables in a snapshot's text: what stands in their place.

use vstd::prelude::*;
use vstd::string::*;
use vstd::utf8::*;

use crate::laws::files::good_key;
use crate::seqs::{lemma_first_index, lemma_no_first_index};
use crate::snapshot::template::{
    are_found, braces_at, end_of, expand, fill, filled_up_to, is_filled, is_plain_name, is_spelled,
    law_placeholder_is_replaced, law_unknown_variable_is_refused, lemma_encode_concat, replacement,
    text_between, Found, TemplateError,
};
use crate::table::NameTable;
use crate::text::{trimmed, trimmed_end, trimmed_start};

verus! {

/// The first pieces of a text, with values between them.
pub open spec fn woven(pieces: Seq<Seq<char>>, values: Seq<Seq<char>>, n: int) -> Seq<char>
    decreases n,
{
    if n <= 0 {
        pieces[0]
    } else {
        woven(pieces, values, n - 1) + values[n - 1] + pieces[n]
    }
}

/// The matches are the parts that stand between the pieces of a text; where
/// they begin and end is counted in bytes.
pub open spec fn stand_between(
    found: Seq<Found>,
    text: Seq<char>,
    pieces: Seq<Seq<char>>,
    parts: Seq<Seq<char>>,
) -> bool {
    &&& pieces.len() == found.len() + 1
    &&& parts.len() == found.len()
    &&& text == woven(pieces, parts, found.len() as int)
    &&& forall|i: int|
        0 <= i < found.len() ==> {
            &&& (#[trigger] found[i]).start == encode_utf8(woven(pieces, parts, i)).len()
            &&& found[i].end == encode_utf8(woven(pieces, parts, i) + parts[i]).len()
        }
}

/// What a match stands for: what its variable is set to, or else its default.
pub open spec fn stands_for(f: Found, vars: Map<Seq<char>, String>, value: Seq<char>) -> bool {
    &&& f.first matches Some(name)
    &&& good_key(name@)
    &&& vars.contains_key(name@) ==> value == vars[name@]@
    &&& !vars.contains_key(name@) ==> (f.second matches Some(d) && value == d@)
}

proof fn lemma_key_is_trimmed(name: Seq<char>)
    requires
        good_key(name),
    ensures
        trimmed(name) == name,
{
    assert(crate::laws::files::word_char(name[0]));
    assert(crate::laws::files::word_char(name[name.len() - 1]));
    assert(trimmed_start(name) == name);
    assert(trimmed_end(name) == name);
}

proof fn lemma_piece(text: Seq<char>, a: Seq<char>, b: Seq<char>, c: Seq<char>)
    requires
        text == a + b + c,
    ensures
        text_between(text, encode_utf8(a).len() as int, encode_utf8(a + b).len() as int) == b,
        encode_utf8(a).len() <= encode_utf8(a + b).len() <= encode_utf8(text).len(),
{
    lemma_encode_concat(a, b);
    lemma_encode_concat(a + b, c);
    let bytes = encode_utf8(text);
    assert(bytes.subrange(encode_utf8(a).len() as int, encode_utf8(a + b).len() as int)
        =~= encode_utf8(b));
    encode_utf8_decode_utf8(b);
}

/// The rest of a woven text behind its first pieces.
spec fn rest(pieces: Seq<Seq<char>>, parts: Seq<Seq<char>>, k: int, n: int) -> Seq<char>
    decreases n - k,
{
    if k >= n {
        Seq::empty()
    } else {
        parts[k] + pieces[k + 1] + rest(pieces, parts, k + 1, n)
    }
}

proof fn lemma_rest(pieces: Seq<Seq<char>>, parts: Seq<Seq<char>>, k: int, n: int)
    requires
        0 <= k <= n,
    ensures
        woven(pieces, parts, n) == woven(pieces, parts, k) + rest(pieces, parts, k, n),
    decreases n - k,
{
    if k < n {
        lemma_rest(pieces, parts, k + 1, n);
        assert(woven(pieces, parts, k + 1) + rest(pieces, parts, k + 1, n) =~= woven(
            pieces,
            parts,
            k,
        ) + rest(pieces, parts, k, n));
    } else {
        assert(woven(pieces, parts, n) =~= woven(pieces, parts, n) + Seq::<char>::empty());
    }
}

/// The piece behind the first matches lies between them and the next one.
proof fn lemma_between(
    found: Seq<Found>,
    text: Seq<char>,
    pieces: Seq<Seq<char>>,
    parts: Seq<Seq<char>>,
    k: int,
)
    requires
        stand_between(found, text, pieces, parts),
        0 <= k <= found.len(),
    ensures
        text_between(
            text,
            end_of(found.take(k)),
            if k < found.len() {
                found[k].start as int
            } else {
                encode_utf8(text).len() as int
            },
        ) == pieces[k],
{
    let n = found.len() as int;
    lemma_rest(pieces, parts, k, n);
    let c = rest(pieces, parts, k, n);
    if k == 0 {
        assert(found.take(0).len() == 0);
        let a = Seq::<char>::empty();
        assert(a + pieces[0] =~= pieces[0]);
        assert(text =~= a + pieces[0] + c);
        lemma_piece(text, a, pieces[0], c);
    } else {
        assert(found.take(k).last() == found[k - 1]);
        let a = woven(pieces, parts, k - 1) + parts[k - 1];
        assert(woven(pieces, parts, k) =~= a + pieces[k]);
        assert(text =~= a + pieces[k] + c);
        lemma_piece(text, a, pieces[k], c);
    }
    if k == n {
        assert(c =~= Seq::<char>::empty());
        assert(text =~= woven(pieces, parts, k));
    }
}

proof fn lemma_filled(
    found: Seq<Found>,
    text: Seq<char>,
    pieces: Seq<Seq<char>>,
    parts: Seq<Seq<char>>,
    values: Seq<Seq<char>>,
    vars: Map<Seq<char>, String>,
    k: int,
)
    requires
        stand_between(found, text, pieces, parts),
        values.len() == found.len(),
        forall|i: int| 0 <= i < found.len() ==> stands_for(#[trigger] found[i], vars, values[i]),
        0 <= k <= found.len(),
    ensures
        filled_up_to(text, found.take(k), vars) + pieces[k] == woven(pieces, values, k),
    decreases k,
{
    let upto = found.take(k);
    if k == 0 {
        assert(upto.len() == 0);
        assert(filled_up_to(text, upto, vars) + pieces[0] =~= pieces[0]);
    } else {
        let front = found.take(k - 1);
        assert(upto.drop_last() =~= front);
        assert(upto.last() == found[k - 1]);
        lemma_filled(found, text, pieces, parts, values, vars, k - 1);
        lemma_between(found, text, pieces, parts, k - 1);
        assert(stands_for(found[k - 1], vars, values[k - 1]));
        lemma_key_is_trimmed(found[k - 1].first->0@);
        assert(replacement(found[k - 1], vars) == Some(values[k - 1]));
    }
}

/// Every match is replaced by what it stands for, and everything around the
/// matches is left as it is, however many there are.
pub proof fn law_every_match_is_replaced(
    text: &str,
    found: Vec<Found>,
    vars: NameTable<String>,
    pieces: Seq<Seq<char>>,
    parts: Seq<Seq<char>>,
    values: Seq<Seq<char>>,
    r: Result<String, TemplateError>,
)
    requires
        call_ensures(fill, (text, &found, &vars), r),
        stand_between(found@, text@, pieces, parts),
        values.len() == found@.len(),
        forall|i: int| 0 <= i < found@.len() ==> stands_for(#[trigger] found@[i], vars@, values[i]),
    ensures
        r matches Ok(s) && s@ == woven(pieces, values, found@.len() as int),
{
    let n = found@.len() as int;
    let unknown = |f: Found| replacement(f, vars@) is None;
    assert forall|i: int| 0 <= i < found@.len() implies !unknown(#[trigger] found@[i]) by {
        assert(stands_for(found@[i], vars@, values[i]));
        lemma_key_is_trimmed(found@[i].first->0@);
    }
    lemma_no_first_index(found@, unknown);
    lemma_filled(found@, text@, pieces, parts, values, vars@, n);
    lemma_between(found@, text@, pieces, parts, n);
    assert(found@.take(n) =~= found@);
}

/// A match that stands for nothing is an error, and the first such match is
/// the one that is named.
pub proof fn law_unknown_match_is_named(
    text: &str,
    found: Vec<Found>,
    vars: NameTable<String>,
    k: int,
    r: Result<String, TemplateError>,
)
    requires
        call_ensures(fill, (text, &found, &vars), r),
        0 <= k < found@.len(),
        forall|i: int| 0 <= i <= k ==> (#[trigger] found@[i]).first is Some && good_key(
            found@[i].first->0@,
        ),
        forall|i: int|
            0 <= i < k ==> vars@.contains_key((#[trigger] found@[i]).first->0@) || found@[i].second
                is Some,
        !vars@.contains_key(found@[k].first->0@) && found@[k].second is None,
    ensures
        r matches Err(TemplateError::UnknownVariable(name)) && name@ == found@[k].first->0@,
{
    let unknown = |f: Found| replacement(f, vars@) is None;
    assert forall|i: int| 0 <= i < k implies !unknown(#[trigger] found@[i]) by {
        lemma_key_is_trimmed(found@[i].first->0@);
    }
    lemma_key_is_trimmed(found@[k].first->0@);
    assert(unknown(found@[k]));
    lemma_first_index(found@, unknown, k);
}

/// A placeholder without blanks: braces, a name, a default behind a colon
/// where there is one, braces.
pub open spec fn placeholder(name: Seq<char>, default: Option<Seq<char>>) -> Seq<char> {
    match default {
        Some(d) => "{{"@ + name + ":"@ + d + "}}"@,
        None => "{{"@ + name + "}}"@,
    }
}

/// In a text with one placeholder, what its variable is set to stands in its
/// place, or else its default; without either the variable is named in the
/// error. What stands around it is left as it is.
pub proof fn law_placeholder_is_filled_in(
    src: &str,
    vars: NameTable<String>,
    left: Seq<char>,
    name: Seq<char>,
    default: Option<Seq<char>>,
    right: Seq<char>,
    r: Result<String, TemplateError>,
)
    requires
        call_ensures(expand, (src, &vars), r),
        src@ == left + placeholder(name, default) + right,
        good_key(name),
        default matches Some(d) ==> !d.contains('}'),
        forall|i: int|
            0 <= i < src@.len() - 1 && #[trigger] src@[i] == '{' && src@[i + 1] == '{' ==> i
                == left.len(),
    ensures
        vars@.contains_key(name) ==> (r matches Ok(s) && s@ == left + vars@[name]@ + right),
        !vars@.contains_key(name) && default is Some ==> (r matches Ok(s) && s@ == left + default->0
            + right),
        !vars@.contains_key(name) && default is None ==> (r matches Err(
            TemplateError::UnknownVariable(n),
        ) && n@ == name),
{
    let found = choose|found: Seq<Found>| #[trigger]
        are_found(found, src@) && is_filled(r, src@, found, vars@);
    let whole = placeholder(name, default);
    let none = Seq::<char>::empty();
    lemma_plain(name, default);
    assert forall|i: int| #[trigger] braces_at(src@, i) implies i == left.len() by {
        assert(src@[i] == '{');
    }
    law_placeholder_is_replaced(
        r,
        src@,
        found,
        vars@,
        left,
        whole,
        right,
        none,
        name,
        none,
        default,
    );
}

proof fn lemma_plain(name: Seq<char>, default: Option<Seq<char>>)
    requires
        good_key(name),
        default matches Some(d) ==> !d.contains('}'),
    ensures
        is_spelled(placeholder(name, default), Seq::empty(), name, Seq::empty(), default),
        is_plain_name(name),
{
    let none = Seq::<char>::empty();
    let whole = placeholder(name, default);
    assert forall|i: int| 0 <= i < name.len() implies crate::snapshot::template::is_name_char(
        #[trigger] name[i],
    ) by {
        assert(crate::laws::files::word_char(name[i]));
    }
    assert forall|i: int| 0 <= i < name.len() implies (crate::text::is_alnum(#[trigger] name[i])
        || name[i] == '_') by {
        assert(crate::laws::files::word_char(name[i]));
    }
    match default {
        Some(d) => {
            assert(whole =~= "{{"@ + none + name + none + ":"@ + d + "}}"@);
        },
        None => {
            assert(whole =~= "{{"@ + none + name + none + "}}"@);
        },
    }
}

/// A placeholder of which neither a value nor a default is known is never
/// passed over, wherever it stands.
pub proof fn law_unknown_placeholder_is_refused(
    src: &str,
    vars: NameTable<String>,
    left: Seq<char>,
    name: Seq<char>,
    right: Seq<char>,
    r: Result<String, TemplateError>,
)
    requires
        call_ensures(expand, (src, &vars), r),
        src@ == left + ("{{"@ + name + "}}"@) + right,
        good_key(name),
        !vars@.contains_key(name),
        forall|i: int|
            0 <= i < left.len() - 1 && #[trigger] left[i] == '{' && left[i + 1] == '{' ==> exists|
                j: int,
            |
                i + 2 <= j < left.len() && #[trigger] left[j] == '}',
    ensures
        r is Err,
{
    let found = choose|found: Seq<Found>| #[trigger]
        are_found(found, src@) && is_filled(r, src@, found, vars@);
    lemma_plain(name, None);
    law_unknown_variable_is_refused(r, src@, found, vars@, left, name, right);
}

/// A text without two braces in a row is left as it is.
pub proof fn law_text_without_braces_is_kept(
    src: &str,
    vars: NameTable<String>,
    r: Result<String, TemplateError>,
)
    requires
        call_ensures(expand, (src, &vars), r),
        forall|i: int|
            0 <= i < src@.len() - 1 && #[trigger] src@[i] == '{' ==> src@[i + 1] != '{',
    ensures
        r matches Ok(s) && s@ == src@,
{
    assert(!crate::snapshot::template::has_braces(src@));
}

} // verus!
