//! Variables in the text of a snapshot.
//!
//! `{{name}}` and `{{name:default}}` are replaced before the text is parsed,
//! wherever they stand. A variable that is not given and has no default is an
//! error: nothing is passed over in silence.

use vstd::prelude::*;
use vstd::string::*;
use vstd::utf8::*;

use crate::seqs::{
    first_index, lemma_first_index, lemma_first_index_is_first, lemma_no_first_index,
};
use crate::table::NameTable;
use crate::text::{all_space, from_chars, is_alnum, is_space, opt_view, trim, trimmed};

verus! {

/// A placeholder: two braces, a name with blanks around it tolerated, an
/// optional default behind a colon, two braces. A default runs up to the next
/// closing brace.
pub const PLACEHOLDER: &'static str = r"\{\{\s*(\w+)\s*(?::([^}]*))?\}\}";

/// A match: where it starts and ends, in bytes, and the texts of its first
/// and second group, where they took part.
pub struct Found {
    pub start: usize,
    pub end: usize,
    pub first: Option<String>,
    pub second: Option<String>,
}

/// What a match says.
pub open spec fn found_view(f: Found) -> (int, int, Option<Seq<char>>, Option<Seq<char>>) {
    (f.start as int, f.end as int, opt_view(f.first), opt_view(f.second))
}

/// The matches of a pattern in a text, each as its start and end in bytes and
/// the texts of its first and second group; none at all where the pattern is
/// no regular expression.
pub uninterp spec fn regex_captures(
    pattern: Seq<char>,
    text: Seq<char>,
) -> Option<Seq<(int, int, Option<Seq<char>>, Option<Seq<char>>)>>;

/// The matches lie inside of the text, between characters, one behind the
/// other.
pub open spec fn well_placed(found: Seq<Found>, text: Seq<char>) -> bool {
    let bytes = encode_utf8(text);
    &&& forall|i: int|
        0 <= i < found.len() ==> {
            &&& (#[trigger] found[i]).start <= found[i].end <= bytes.len()
            &&& is_char_boundary(bytes, found[i].start as int)
            &&& is_char_boundary(bytes, found[i].end as int)
        }
    &&& forall|i: int, j: int|
        0 <= i < j < found.len() ==> (#[trigger] found[i]).end <= (#[trigger] found[j]).start
}

/// A character that a name may hold: no blank, and of ASCII the letters, the
/// digits and the underscore alone.
pub open spec fn is_name_char(c: char) -> bool {
    &&& !is_space(c)
    &&& (c as u32) < 0x80 ==> is_alnum(c) || c == '_'
}

/// The text of a name.
pub open spec fn is_name(name: Seq<char>) -> bool {
    &&& name.len() > 0
    &&& forall|i: int| 0 <= i < name.len() ==> is_name_char(#[trigger] name[i])
}

/// A name of ASCII letters, digits and underscores.
pub open spec fn is_plain_name(name: Seq<char>) -> bool {
    &&& name.len() > 0
    &&& forall|i: int|
        0 <= i < name.len() ==> (is_alnum(#[trigger] name[i]) || name[i] == '_')
}

/// A placeholder, taken apart: braces, a name between blanks, a default that
/// holds no closing brace, braces.
pub open spec fn is_spelled(
    whole: Seq<char>,
    before: Seq<char>,
    name: Seq<char>,
    after: Seq<char>,
    default: Option<Seq<char>>,
) -> bool {
    &&& all_space(before)
    &&& is_name(name)
    &&& all_space(after)
    &&& match default {
        Some(d) => !d.contains('}') && whole == "{{"@ + before + name + after + ":"@ + d + "}}"@,
        None => whole == "{{"@ + before + name + after + "}}"@,
    }
}

/// The text of a match is a placeholder, and its groups are the name and the
/// default.
pub open spec fn is_placeholder(whole: Seq<char>, f: Found) -> bool {
    &&& f.first is Some
    &&& exists|before: Seq<char>, after: Seq<char>| #[trigger]
        is_spelled(whole, before, f.first->0@, after, opt_view(f.second))
}

/// Every match is a placeholder.
pub open spec fn are_placeholders(found: Seq<Found>, text: Seq<char>) -> bool {
    forall|i: int|
        0 <= i < found.len() ==> is_placeholder(
            text_between(text, (#[trigger] found[i]).start as int, found[i].end as int),
            found[i],
        )
}

/// A position, in bytes, lies in a match.
pub open spec fn lies_in_match(found: Seq<Found>, at: int) -> bool {
    exists|i: int| 0 <= i < found.len() && (#[trigger] found[i]).start <= at < found[i].end
}

/// No placeholder is passed over: one with a plain name starts in a match.
pub open spec fn none_is_missed(found: Seq<Found>, text: Seq<char>) -> bool {
    forall|
        left: Seq<char>,
        whole: Seq<char>,
        right: Seq<char>,
        before: Seq<char>,
        name: Seq<char>,
        after: Seq<char>,
        default: Option<Seq<char>>,
    |
        text == #[trigger] (left + whole + right) && #[trigger] is_spelled(
            whole,
            before,
            name,
            after,
            default,
        ) && is_plain_name(name) ==> lies_in_match(found, encode_utf8(left).len() as int)
}

/// `Regex::new` and `Regex::captures_iter`: the matches of a pattern in a
/// text, from left to right. They do not overlap, and their ends lie between
/// characters of the text. Which matches there are depends on the pattern and
/// the text alone. `PLACEHOLDER` is a regular expression, and what it matches
/// is spelled as it says. Each match is the leftmost behind the one before it,
/// so a placeholder starts in a match: in its own, or in one that began
/// earlier. Which characters beyond ASCII a name may hold is not stated.
#[verifier::external_body]
fn captures(pattern: &str, text: &str) -> (r: Option<Vec<Found>>)
    ensures
        match r {
            Some(v) => regex_captures(pattern@, text@) == Some(
                v@.map_values(|f: Found| found_view(f)),
            ),
            None => regex_captures(pattern@, text@) is None,
        },
        r matches Some(v) ==> well_placed(v@, text@),
        r matches Some(v) ==> (pattern@ == PLACEHOLDER@ ==> are_placeholders(v@, text@)),
        r matches Some(v) ==> (pattern@ == PLACEHOLDER@ ==> none_is_missed(v@, text@)),
        r is None ==> pattern@ != PLACEHOLDER@,
{
    let re = regex::Regex::new(pattern).ok()?;
    let mut found = Vec::new();
    for caps in re.captures_iter(text) {
        found.push(Found {
            start: caps.get_match().start(),
            end: caps.get_match().end(),
            first: caps.get(1).map(|m| m.as_str().to_owned()),
            second: caps.get(2).map(|m| m.as_str().to_owned()),
        });
    }
    Some(found)
}

/// Why a text could not be filled in.
#[derive(Debug)]
pub enum TemplateError {
    /// A variable that was not given and has no default.
    UnknownVariable(String),
}

impl TemplateError {
    /// The text that the user is told.
    pub open spec fn text(&self) -> Seq<char> {
        match self {
            TemplateError::UnknownVariable(name) => "unknown variable {{"@ + name@
                + "}} (pass --var "@ + name@ + "=...)"@,
        }
    }

    /// The text that the user is told.
    pub fn message(&self) -> (r: String)
        ensures
            r@ == self.text(),
    {
        match self {
            TemplateError::UnknownVariable(name) => {
                let mut s = "unknown variable {{".to_owned();
                s.append(name.as_str());
                s.append("}} (pass --var ");
                s.append(name.as_str());
                s.append("=...)");
                s
            },
        }
    }
}

/// The name in a match, without blanks around it.
pub open spec fn variable(first: Option<Seq<char>>) -> Seq<char> {
    match first {
        Some(s) => trimmed(s),
        None => Seq::empty(),
    }
}

/// What stands in place of a match: what the variable is set to, or else the
/// default.
pub open spec fn replacement(f: Found, vars: Map<Seq<char>, String>) -> Option<Seq<char>> {
    let name = variable(opt_view(f.first));
    if vars.contains_key(name) {
        Some(vars[name]@)
    } else {
        opt_view(f.second)
    }
}

/// The text between two positions, given in bytes.
pub open spec fn text_between(text: Seq<char>, from: int, to: int) -> Seq<char> {
    decode_utf8(encode_utf8(text).subrange(from, to))
}

/// Where the part behind the matches begins.
pub open spec fn end_of(found: Seq<Found>) -> int {
    if found.len() == 0 {
        0
    } else {
        found.last().end as int
    }
}

/// The text up to the end of the last match, with every match replaced.
pub open spec fn filled_up_to(
    text: Seq<char>,
    found: Seq<Found>,
    vars: Map<Seq<char>, String>,
) -> Seq<char>
    decreases found.len(),
{
    if found.len() == 0 {
        Seq::empty()
    } else {
        let front = found.drop_last();
        filled_up_to(text, front, vars) + text_between(
            text,
            end_of(front),
            found.last().start as int,
        ) + replacement(found.last(), vars)->0
    }
}

/// The text with every match replaced.
pub open spec fn filled(
    text: Seq<char>,
    found: Seq<Found>,
    vars: Map<Seq<char>, String>,
) -> Seq<char> {
    filled_up_to(text, found, vars) + text_between(
        text,
        end_of(found),
        encode_utf8(text).len() as int,
    )
}

/// The first match for which nothing is known.
pub open spec fn first_unknown(found: Seq<Found>, vars: Map<Seq<char>, String>) -> Option<int> {
    first_index(found, |f: Found| replacement(f, vars) is None)
}

/// The result of filling in a text: the text, or the first variable of which
/// nothing is known.
pub open spec fn is_filled(
    r: Result<String, TemplateError>,
    text: Seq<char>,
    found: Seq<Found>,
    vars: Map<Seq<char>, String>,
) -> bool {
    match first_unknown(found, vars) {
        None => r matches Ok(s) && s@ == filled(text, found, vars),
        Some(i) => r matches Err(TemplateError::UnknownVariable(name)) && name@ == variable(
            opt_view(found[i].first),
        ),
    }
}

fn slice<'a>(text: &'a str, from: usize, to: usize) -> (r: &'a str)
    requires
        from <= to <= encode_utf8(text@).len(),
        is_char_boundary(encode_utf8(text@), from as int),
        is_char_boundary(encode_utf8(text@), to as int),
    ensures
        r@ == text_between(text@, from as int, to as int),
{
    let ghost bytes = text.spec_bytes();
    proof {
        encode_utf8_valid_utf8(text@);
    }
    let (_, tail) = text.split_at(from);
    let ghost rest = bytes.subrange(from as int, bytes.len() as int);
    proof {
        valid_utf8_split(bytes, from as int);
        if to < bytes.len() {
            is_char_boundary_iff_not_is_continuation_byte(bytes, to as int);
            is_char_boundary_iff_not_is_continuation_byte(rest, to - from);
            assert(rest[to - from] == bytes[to as int]);
        } else {
            is_char_boundary_start_end_of_seq(rest);
        }
    }
    let (piece, _) = tail.split_at(to - from);
    proof {
        assert(piece.spec_bytes() =~= bytes.subrange(from as int, to as int));
        encode_utf8_decode_utf8(piece@);
    }
    piece
}

/// Replaces every match in a text.
pub fn fill(text: &str, found: &Vec<Found>, vars: &NameTable<String>) -> (r: Result<
    String,
    TemplateError,
>)
    requires
        vars.wf(),
        well_placed(found@, text@),
    ensures
        is_filled(r, text@, found@, vars@),
{
    let ghost unknown = |f: Found| replacement(f, vars@) is None;
    let mut out = String::new();
    let mut last: usize = 0;
    let mut i: usize = 0;
    proof {
        encode_utf8_valid_utf8(text@);
        is_char_boundary_start_end_of_seq(encode_utf8(text@));
        assert(out@ =~= filled_up_to(text@, found@.take(0), vars@));
    }
    while i < found.len()
        invariant
            i <= found@.len(),
            vars.wf(),
            well_placed(found@, text@),
            unknown == (|f: Found| replacement(f, vars@) is None),
            forall|j: int| 0 <= j < i ==> !unknown(#[trigger] found@[j]),
            last == end_of(found@.take(i as int)),
            last <= encode_utf8(text@).len(),
            is_char_boundary(encode_utf8(text@), last as int),
            out@ == filled_up_to(text@, found@.take(i as int), vars@),
        decreases found@.len() - i,
    {
        let f = &found[i];
        let name = match &f.first {
            Some(s) => {
                let t = trim(s.as_str());
                let n = from_chars(&t, 0, t.len());
                assert(t@.subrange(0, t@.len() as int) =~= t@);
                n
            },
            None => {
                let n = String::new();
                assert(n@ =~= Seq::empty());
                n
            },
        };
        assert(name@ == variable(opt_view(f.first)));
        let value = match vars.get(name.as_str()) {
            Some(v) => Some(v.as_str()),
            None => match &f.second {
                Some(d) => Some(d.as_str()),
                None => None,
            },
        };
        proof {
            if i > 0 {
                assert(found@.take(i as int).last() == found@[i - 1]);
                assert(found@[i - 1].end <= found@[i as int].start);
            }
            assert(found@.take(i + 1).drop_last() =~= found@.take(i as int));
        }
        match value {
            Some(v) => {
                out.append(slice(text, last, f.start));
                out.append(v);
                last = f.end;
            },
            None => {
                proof {
                    lemma_first_index(found@, unknown, i as int);
                }
                return Err(TemplateError::UnknownVariable(name));
            },
        }
        i += 1;
    }
    proof {
        lemma_no_first_index(found@, unknown);
        assert(found@.take(found@.len() as int) =~= found@);
        encode_utf8_valid_utf8(text@);
        is_char_boundary_start_end_of_seq(encode_utf8(text@));
    }
    let len: usize = text.as_bytes().len();
    out.append(slice(text, last, len));
    Ok(out)
}

/// Two opening braces stand in a text.
pub open spec fn has_braces(text: Seq<char>) -> bool {
    exists|i: int| 0 <= i < text.len() - 1 && #[trigger] text[i] == '{' && text[i + 1] == '{'
}

/// `found` is what the pattern finds in a text.
pub open spec fn are_found(found: Seq<Found>, text: Seq<char>) -> bool {
    &&& regex_captures(PLACEHOLDER@, text) == Some(found.map_values(|f: Found| found_view(f)))
    &&& well_placed(found, text)
    &&& are_placeholders(found, text)
    &&& none_is_missed(found, text)
}

/// Replaces `{{name}}` and `{{name:default}}` in a text.
pub fn expand(toml_src: &str, vars: &NameTable<String>) -> (r: Result<String, TemplateError>)
    requires
        vars.wf(),
    ensures
        exists|found: Seq<Found>| #[trigger]
            are_found(found, toml_src@) && is_filled(r, toml_src@, found, vars@),
        !has_braces(toml_src@) ==> (r matches Ok(s) && s@ == toml_src@),
{
    let found = captures(PLACEHOLDER, toml_src).unwrap();
    proof {
        assert(are_found(found@, toml_src@));
        if !has_braces(toml_src@) {
            law_plain_text_is_unchanged(toml_src@, found@, vars@);
        }
    }
    fill(toml_src, &found, vars)
}

// ------------------------------------------------------------------------ laws

/// The text is what stands in front of a piece, the piece, and what stands
/// behind it.
proof fn lemma_text_between(text: Seq<char>, from: int, to: int)
    requires
        0 <= from <= to <= encode_utf8(text).len(),
        is_char_boundary(encode_utf8(text), from),
        is_char_boundary(encode_utf8(text), to),
    ensures
        text == text_between(text, 0, from) + text_between(text, from, to) + text_between(
            text,
            to,
            encode_utf8(text).len() as int,
        ),
        encode_utf8(text_between(text, 0, from)).len() == from,
        encode_utf8(text_between(text, from, to)).len() == to - from,
{
    let bytes = encode_utf8(text);
    encode_utf8_valid_utf8(text);
    encode_utf8_decode_utf8(text);
    let rest = bytes.subrange(from, bytes.len() as int);
    valid_utf8_split(bytes, from);
    decode_utf8_split(bytes, from);
    decode_utf8_encode_utf8(bytes.subrange(0, from));
    if to < bytes.len() {
        is_char_boundary_iff_not_is_continuation_byte(bytes, to);
        is_char_boundary_iff_not_is_continuation_byte(rest, to - from);
        assert(rest[to - from] == bytes[to]);
    } else {
        is_char_boundary_start_end_of_seq(rest);
    }
    valid_utf8_split(rest, to - from);
    decode_utf8_split(rest, to - from);
    assert(rest.subrange(0, to - from) =~= bytes.subrange(from, to));
    assert(rest.subrange(to - from, rest.len() as int) =~= bytes.subrange(to, bytes.len() as int));
    decode_utf8_encode_utf8(bytes.subrange(from, to));
    assert(text =~= text_between(text, 0, from) + text_between(text, from, to) + text_between(
        text,
        to,
        bytes.len() as int,
    ));
}

/// A text is encoded piece by piece.
pub proof fn lemma_encode_concat(a: Seq<char>, b: Seq<char>)
    ensures
        encode_utf8(a + b) == encode_utf8(a) + encode_utf8(b),
    decreases a.len(),
{
    if a.len() == 0 {
        assert(a + b =~= b);
        assert(encode_utf8(a) + encode_utf8(b) =~= encode_utf8(b));
    } else {
        assert((a + b).drop_first() =~= a.drop_first() + b);
        lemma_encode_concat(a.drop_first(), b);
        assert(encode_utf8(a + b) =~= encode_utf8(a) + encode_utf8(b));
    }
}

/// Of two beginnings of a text, the one with more characters has more bytes.
proof fn lemma_longer_beginning(text: Seq<char>, a: Seq<char>, b: Seq<char>)
    requires
        a.len() < b.len() <= text.len(),
        a == text.take(a.len() as int),
        b == text.take(b.len() as int),
    ensures
        encode_utf8(a).len() < encode_utf8(b).len(),
{
    let more = text.subrange(a.len() as int, b.len() as int);
    assert(b =~= a + more);
    lemma_encode_concat(a, more);
    assert(encode_scalar(more[0] as u32).len() > 0);
    assert(encode_utf8(more).len() > 0);
}

/// A text splits in one way only into characters of one kind and a rest that
/// begins with another.
proof fn lemma_one_split(
    a: Seq<char>,
    x: Seq<char>,
    b: Seq<char>,
    y: Seq<char>,
    p: spec_fn(char) -> bool,
)
    requires
        a + x == b + y,
        forall|i: int| 0 <= i < a.len() ==> p(#[trigger] a[i]),
        forall|i: int| 0 <= i < b.len() ==> p(#[trigger] b[i]),
        x.len() > 0 && !p(x[0]),
        y.len() > 0 && !p(y[0]),
    ensures
        a == b,
        x == y,
{
    let s = a + x;
    assert(s[a.len() as int] == x[0]);
    assert(s[b.len() as int] == (b + y)[b.len() as int] == y[0]);
    if a.len() < b.len() {
        assert(s[a.len() as int] == b[a.len() as int]);
    }
    if b.len() < a.len() {
        assert(s[b.len() as int] == a[b.len() as int]);
    }
    assert(a =~= s.take(a.len() as int));
    assert(b =~= (b + y).take(a.len() as int));
    assert(x =~= s.skip(a.len() as int));
    assert(y =~= (b + y).skip(a.len() as int));
}

/// What stands behind the name of a placeholder.
spec fn ending(after: Seq<char>, default: Option<Seq<char>>) -> Seq<char> {
    match default {
        Some(d) => after + (":"@ + (d + "}}"@)),
        None => after + "}}"@,
    }
}

/// A placeholder is braces, blanks, a name, and what stands behind it.
proof fn lemma_spelling(
    whole: Seq<char>,
    before: Seq<char>,
    name: Seq<char>,
    after: Seq<char>,
    default: Option<Seq<char>>,
)
    requires
        is_spelled(whole, before, name, after, default),
    ensures
        whole == "{{"@ + (before + (name + ending(after, default))),
        whole.len() >= 5,
        whole[0] == '{' && whole[1] == '{' && whole[2] != '{',
        forall|i: int| 2 <= i < whole.len() - 2 ==> #[trigger] whole[i] != '}',
        whole[whole.len() - 2] == '}' && whole[whole.len() - 1] == '}',
{
    reveal_strlit("{{");
    reveal_strlit("}}");
    reveal_strlit(":");
    assert(whole =~= "{{"@ + (before + (name + ending(after, default))));
    assert(is_name_char(name[0]));
    if before.len() > 0 {
        assert(whole[2] == before[0]);
    } else {
        assert(whole[2] == name[0]);
    }
    assert forall|i: int| 2 <= i < whole.len() - 2 implies #[trigger] whole[i] != '}' by {
        let j = i - 2;
        if j < before.len() {
            assert(whole[i] == before[j]);
        } else if j < before.len() + name.len() {
            assert(whole[i] == name[j - before.len()]);
        } else if j < before.len() + name.len() + after.len() {
            assert(whole[i] == after[j - before.len() - name.len()]);
        } else if default is Some && j > before.len() + name.len() + after.len() {
            let d = default->0;
            let k = j - before.len() - name.len() - after.len() - 1;
            assert(whole[i] == d[k]);
            assert(d.contains(d[k]));
        }
    }
}

/// What stands behind a name ends in one way only.
proof fn lemma_one_ending(
    after: Seq<char>,
    default: Option<Seq<char>>,
    right: Seq<char>,
    after2: Seq<char>,
    default2: Option<Seq<char>>,
    right2: Seq<char>,
)
    requires
        ending(after, default) + right == ending(after2, default2) + right2,
        all_space(after) && all_space(after2),
        default matches Some(d) ==> !d.contains('}'),
        default2 matches Some(d) ==> !d.contains('}'),
    ensures
        after == after2,
        default == default2,
        right == right2,
{
    reveal_strlit("}}");
    reveal_strlit(":");
    let none = Seq::<char>::empty();
    let tail = ending(none, default) + right;
    let tail2 = ending(none, default2) + right2;
    assert(ending(after, default) + right =~= after + tail);
    assert(ending(after2, default2) + right2 =~= after2 + tail2);
    assert(tail[0] == (if default is Some { ':' } else { '}' }));
    assert(tail2[0] == (if default2 is Some { ':' } else { '}' }));
    lemma_one_split(after, tail, after2, tail2, |c: char| is_space(c));
    match default {
        Some(d) => {
            let d2 = default2->0;
            assert(tail.skip(1) =~= d + ("}}"@ + right));
            assert(tail2.skip(1) =~= d2 + ("}}"@ + right2));
            assert forall|i: int| 0 <= i < d.len() implies #[trigger] d[i] != '}' by {
                assert(d.contains(d[i]));
            }
            assert forall|i: int| 0 <= i < d2.len() implies #[trigger] d2[i] != '}' by {
                assert(d2.contains(d2[i]));
            }
            lemma_one_split(d, "}}"@ + right, d2, "}}"@ + right2, |c: char| c != '}');
            assert(right =~= ("}}"@ + right).skip(2));
            assert(right2 =~= ("}}"@ + right2).skip(2));
        },
        None => {
            assert(right =~= tail.skip(2));
            assert(right2 =~= tail2.skip(2));
        },
    }
}

/// What stands behind a name begins with no character of a name.
proof fn lemma_ending_begins(after: Seq<char>, default: Option<Seq<char>>)
    requires
        all_space(after),
    ensures
        ending(after, default).len() > 0,
        !is_name_char(ending(after, default)[0]),
{
    reveal_strlit("}}");
    reveal_strlit(":");
    let end = ending(after, default);
    if after.len() > 0 {
        assert(end[0] == after[0]);
    } else {
        assert(end[0] == (if default is Some { ':' } else { '}' }));
    }
}

/// A text begins with one placeholder at most.
proof fn lemma_one_spelling(
    whole: Seq<char>,
    right: Seq<char>,
    before: Seq<char>,
    name: Seq<char>,
    after: Seq<char>,
    default: Option<Seq<char>>,
    whole2: Seq<char>,
    right2: Seq<char>,
    before2: Seq<char>,
    name2: Seq<char>,
    after2: Seq<char>,
    default2: Option<Seq<char>>,
)
    requires
        whole + right == whole2 + right2,
        is_spelled(whole, before, name, after, default),
        is_spelled(whole2, before2, name2, after2, default2),
    ensures
        name == name2,
        default == default2,
        right == right2,
{
    reveal_strlit("{{");
    lemma_spelling(whole, before, name, after, default);
    lemma_spelling(whole2, before2, name2, after2, default2);
    lemma_ending_begins(after, default);
    lemma_ending_begins(after2, default2);
    let end = ending(after, default) + right;
    let end2 = ending(after2, default2) + right2;
    assert(before + (name + end) =~= (whole + right).skip(2));
    assert(before2 + (name2 + end2) =~= (whole2 + right2).skip(2));
    assert((name + end)[0] == name[0]);
    assert((name2 + end2)[0] == name2[0]);
    lemma_one_split(before, name + end, before2, name2 + end2, |c: char| is_space(c));
    lemma_one_split(name, end, name2, end2, |c: char| is_name_char(c));
    lemma_one_ending(after, default, right, after2, default2, right2);
}

/// Two opening braces stand in a text, and no closing brace behind them.
pub open spec fn is_open(text: Seq<char>) -> bool {
    exists|i: int|
        0 <= i < text.len() - 1 && #[trigger] text[i] == '{' && text[i + 1] == '{' && forall|
            j: int,
        |
            i + 2 <= j < text.len() ==> #[trigger] text[j] != '}'
}

/// A match, taken apart: what stands in front of it, its blanks, and what
/// stands behind it.
proof fn lemma_match(text: Seq<char>, found: Seq<Found>, k: int) -> (r: (
    Seq<char>,
    Seq<char>,
    Seq<char>,
    Seq<char>,
    Seq<char>,
))
    requires
        well_placed(found, text),
        are_placeholders(found, text),
        0 <= k < found.len(),
    ensures
        r.0 == text_between(text, 0, found[k].start as int),
        r.2 == text_between(text, found[k].end as int, encode_utf8(text).len() as int),
        text == r.0 + r.1 + r.2,
        found[k].first is Some,
        is_spelled(r.1, r.3, found[k].first->0@, r.4, opt_view(found[k].second)),
        encode_utf8(r.0).len() == found[k].start,
        encode_utf8(r.0 + r.1).len() == found[k].end,
{
    let f = found[k];
    let left = text_between(text, 0, f.start as int);
    let whole = text_between(text, f.start as int, f.end as int);
    let right = text_between(text, f.end as int, encode_utf8(text).len() as int);
    assert(is_placeholder(whole, f));
    let (before, after) = choose|before: Seq<char>, after: Seq<char>| #[trigger]
        is_spelled(whole, before, f.first->0@, after, opt_view(f.second));
    lemma_text_between(text, f.start as int, f.end as int);
    lemma_encode_concat(left, whole);
    (left, whole, right, before, after)
}

/// Of two beginnings of a text, the one with more bytes has more characters.
proof fn lemma_shorter_beginning(
    text: Seq<char>,
    a: Seq<char>,
    x: Seq<char>,
    b: Seq<char>,
    y: Seq<char>,
)
    requires
        text == a + x,
        text == b + y,
    ensures
        encode_utf8(a).len() < encode_utf8(b).len() <==> a.len() < b.len(),
{
    assert(a =~= text.take(a.len() as int));
    assert(b =~= text.take(b.len() as int));
    if a.len() < b.len() {
        lemma_longer_beginning(text, a, b);
    } else if b.len() < a.len() {
        lemma_longer_beginning(text, b, a);
    } else {
        assert(a =~= b);
    }
}

/// A placeholder behind closed text does not begin in the midst of another.
proof fn lemma_not_inside(
    l: Seq<char>,
    w: Seq<char>,
    r: Seq<char>,
    left: Seq<char>,
    whole: Seq<char>,
    right: Seq<char>,
)
    requires
        l + w + r == left + whole + right,
        l.len() <= left.len() < l.len() + w.len(),
        !is_open(left),
        w.len() >= 5,
        w[0] == '{' && w[1] == '{' && w[2] != '{',
        forall|i: int| 2 <= i < w.len() - 2 ==> #[trigger] w[i] != '}',
        w[w.len() - 2] == '}' && w[w.len() - 1] == '}',
        whole.len() >= 2,
        whole[0] == '{' && whole[1] == '{',
    ensures
        l == left,
        w + r == whole + right,
{
    let text = l + w + r;
    let p = left.len() as int;
    let i = l.len() as int;
    assert(text[p] == whole[0]);
    assert(text[p + 1] == whole[1]);
    assert(text[p] == w[p - i]);
    if p == i + 1 {
        assert(text[p + 1] == w[2]);
    } else if i < p {
        assert(left[i] == text[i] == w[0]);
        assert(left[i + 1] == text[i + 1] == w[1]);
        assert forall|m: int| i + 2 <= m < p implies #[trigger] left[m] != '}' by {
            assert(left[m] == text[m] == w[m - i]);
        }
        assert(is_open(left));
    }
    assert(l =~= text.take(i));
    assert(left =~= text.take(i));
    assert(w + r =~= text.skip(i));
    assert(whole + right =~= text.skip(i));
}

/// A placeholder behind closed text is a match of its own.
proof fn lemma_recognised(
    text: Seq<char>,
    found: Seq<Found>,
    left: Seq<char>,
    whole: Seq<char>,
    right: Seq<char>,
    before: Seq<char>,
    name: Seq<char>,
    after: Seq<char>,
    default: Option<Seq<char>>,
) -> (k: int)
    requires
        are_found(found, text),
        text == left + whole + right,
        is_spelled(whole, before, name, after, default),
        is_plain_name(name),
        !is_open(left),
    ensures
        0 <= k < found.len(),
        found[k].first is Some && found[k].first->0@ == name,
        opt_view(found[k].second) == default,
        text_between(text, 0, found[k].start as int) == left,
        text_between(text, found[k].end as int, encode_utf8(text).len() as int) == right,
{
    let at = encode_utf8(left).len() as int;
    assert(lies_in_match(found, at));
    let k = choose|k: int|
        0 <= k < found.len() && (#[trigger] found[k]).start <= at < found[k].end;
    let f = found[k];
    let (l, w, r, b, a) = lemma_match(text, found, k);
    assert(text =~= l + (w + r));
    assert(text =~= left + (whole + right));
    lemma_shorter_beginning(text, left, whole + right, l, w + r);
    lemma_shorter_beginning(text, left, whole + right, l + w, r);
    lemma_spelling(w, b, f.first->0@, a, opt_view(f.second));
    lemma_spelling(whole, before, name, after, default);
    lemma_not_inside(l, w, r, left, whole, right);
    lemma_one_spelling(
        w,
        r,
        b,
        f.first->0@,
        a,
        opt_view(f.second),
        whole,
        right,
        before,
        name,
        after,
        default,
    );
    k
}

/// A name has no blanks around it.
proof fn lemma_plain_name(name: Seq<char>)
    requires
        is_plain_name(name),
    ensures
        trimmed(name) == name,
{
    assert(!is_space(name[0]));
    assert(!is_space(name[name.len() - 1]));
}

/// A variable that is neither given nor has a default is never passed over:
/// a text that holds such a placeholder is refused. What does not count as a
/// placeholder is what stands in the default of an earlier one.
pub proof fn law_unknown_variable_is_refused(
    r: Result<String, TemplateError>,
    text: Seq<char>,
    found: Seq<Found>,
    vars: Map<Seq<char>, String>,
    left: Seq<char>,
    name: Seq<char>,
    right: Seq<char>,
)
    requires
        are_found(found, text),
        is_filled(r, text, found, vars),
        text == left + ("{{"@ + name + "}}"@) + right,
        is_plain_name(name),
        !is_open(left),
        !vars.contains_key(name),
    ensures
        r is Err,
{
    let whole = "{{"@ + name + "}}"@;
    let none = Seq::<char>::empty();
    assert(whole =~= "{{"@ + none + name + none + "}}"@);
    assert(is_spelled(whole, none, name, none, None));
    let k = lemma_recognised(text, found, left, whole, right, none, name, none, None);
    lemma_plain_name(name);
    let unknown = |f: Found| replacement(f, vars) is None;
    assert(unknown(found[k]));
    lemma_first_index_is_first(found, unknown);
}

/// Where two opening braces stand in a text.
pub open spec fn braces_at(text: Seq<char>, i: int) -> bool {
    0 <= i < text.len() - 1 && text[i] == '{' && text[i + 1] == '{'
}

/// A placeholder is replaced by what its variable is set to, or else by its
/// default, and what stands around it is left as it is.
pub proof fn law_placeholder_is_replaced(
    r: Result<String, TemplateError>,
    text: Seq<char>,
    found: Seq<Found>,
    vars: Map<Seq<char>, String>,
    left: Seq<char>,
    whole: Seq<char>,
    right: Seq<char>,
    before: Seq<char>,
    name: Seq<char>,
    after: Seq<char>,
    default: Option<Seq<char>>,
)
    requires
        are_found(found, text),
        is_filled(r, text, found, vars),
        text == left + whole + right,
        is_spelled(whole, before, name, after, default),
        is_plain_name(name),
        forall|i: int| #[trigger] braces_at(text, i) ==> i == left.len(),
    ensures
        vars.contains_key(name) ==> (r matches Ok(s) && s@ == left + vars[name]@ + right),
        !vars.contains_key(name) && default is Some ==> (r matches Ok(s) && s@ == left + default->0
            + right),
        !vars.contains_key(name) && default is None ==> (r matches Err(
            TemplateError::UnknownVariable(n),
        ) && n@ == name),
{
    let len = encode_utf8(text).len() as int;
    if is_open(left) {
        let i = choose|i: int|
            0 <= i < left.len() - 1 && #[trigger] left[i] == '{' && left[i + 1] == '{';
        assert(braces_at(text, i));
    }
    let k = lemma_recognised(text, found, left, whole, right, before, name, after, default);
    lemma_plain_name(name);
    assert forall|i: int| 0 <= i < found.len() implies (#[trigger] found[i]).start
        == found[k].start && found[i].start < found[i].end by {
        let f = found[i];
        let (l, w, r, b, a) = lemma_match(text, found, i);
        let (l2, w2, r2, b2, a2) = lemma_match(text, found, k);
        lemma_spelling(w, b, f.first->0@, a, opt_view(f.second));
        assert(text[l.len() as int] == w[0]);
        assert(text[l.len() as int + 1] == w[1]);
        assert(braces_at(text, l.len() as int));
        assert(text =~= l + (w + r));
        assert(text =~= left + (whole + right));
        lemma_shorter_beginning(text, l, w + r, left, whole + right);
        lemma_shorter_beginning(text, left, whole + right, l, w + r);
        lemma_shorter_beginning(text, l, w + r, l + w, r);
    }
    assert(found.len() == 1) by {
        if found.len() > 1 {
            assert(found[0].end <= found[1].start);
        }
    }
    let f = found[0];
    assert(found.drop_last() =~= Seq::<Found>::empty());
    assert(filled_up_to(text, found.drop_last(), vars) =~= Seq::<char>::empty());
    assert(end_of(found.drop_last()) == 0);
    let unknown = |f: Found| replacement(f, vars) is None;
    if unknown(f) {
        lemma_first_index(found, unknown, 0);
    } else {
        lemma_no_first_index(found, unknown);
        assert(filled(text, found, vars) =~= left + replacement(f, vars)->0 + right);
    }
}

/// A text without two opening braces is left as it is.
pub proof fn law_plain_text_is_unchanged(
    text: Seq<char>,
    found: Seq<Found>,
    vars: Map<Seq<char>, String>,
)
    requires
        are_found(found, text),
        !has_braces(text),
    ensures
        first_unknown(found, vars) is None,
        filled(text, found, vars) == text,
{
    if found.len() > 0 {
        let f = found[0];
        let (left, whole, right, before, after) = lemma_match(text, found, 0);
        lemma_spelling(whole, before, f.first->0@, after, opt_view(f.second));
        assert(text[left.len() as int] == '{');
        assert(text[left.len() as int + 1] == '{');
    }
    assert(found =~= Seq::<Found>::empty());
    let bytes = encode_utf8(text);
    encode_utf8_decode_utf8(text);
    assert(bytes.subrange(0, bytes.len() as int) =~= bytes);
    assert(filled(text, found, vars) =~= text);
}

/// A variable that is given wins over a default; a default is used where the
/// variable is not given.
pub proof fn law_given_variable_wins(f: Found, vars: Map<Seq<char>, String>, value: String)
    ensures
        replacement(f, vars.insert(variable(opt_view(f.first)), value)) == Some(value@),
        !vars.contains_key(variable(opt_view(f.first))) ==> replacement(f, vars) == opt_view(
            f.second,
        ),
{
}

/// Variables that no placeholder names do not matter.
pub proof fn law_other_variables_do_not_matter(
    text: Seq<char>,
    found: Seq<Found>,
    vars: Map<Seq<char>, String>,
    other: Seq<char>,
    value: String,
)
    requires
        forall|i: int| 0 <= i < found.len() ==> variable(opt_view((#[trigger] found[i]).first)) != other,
    ensures
        filled(text, found, vars.insert(other, value)) == filled(text, found, vars),
        first_unknown(found, vars.insert(other, value)) == first_unknown(found, vars),
{
    lemma_other_variable(text, found, vars, other, value);
}

proof fn lemma_other_variable(
    text: Seq<char>,
    found: Seq<Found>,
    vars: Map<Seq<char>, String>,
    other: Seq<char>,
    value: String,
)
    requires
        forall|i: int| 0 <= i < found.len() ==> variable(opt_view((#[trigger] found[i]).first)) != other,
    ensures
        filled_up_to(text, found, vars.insert(other, value)) == filled_up_to(text, found, vars),
        first_unknown(found, vars.insert(other, value)) == first_unknown(found, vars),
    decreases found.len(),
{
    if found.len() > 0 {
        let front = found.drop_last();
        assert forall|i: int| 0 <= i < front.len() implies variable(
            opt_view((#[trigger] front[i]).first),
        ) != other by {
            assert(front[i] == found[i]);
        }
        lemma_other_variable(text, front, vars, other, value);
        assert(variable(opt_view(found[found.len() - 1].first)) != other);
    }
}

} // verus!
