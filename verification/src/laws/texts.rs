//! Numbers, blanks and values in texts: what is written and what is read.

use vstd::prelude::*;
use vstd::string::*;

use crate::json::Json;
use crate::order::{is_text_before, text_before};
use crate::text::{
    all_digits, decimal, decimal_string, digits_value, is_blank, lemma_decimal_value, parse_i32,
    parse_u8, signed_decimal_string, trim, trimmed, trimmed_end, trimmed_start,
};

verus! {

// --------------------------------------------------------------------- numbers

/// A decimal digit.
pub open spec fn digit(c: char) -> bool {
    0x30 <= c as int <= 0x39
}

/// Decimal digits and nothing else.
pub open spec fn only_digits(s: Seq<char>) -> bool {
    forall|i: int| 0 <= i < s.len() ==> digit(#[trigger] s[i])
}

/// The number that digits stand for, the last one counting once.
pub open spec fn number(s: Seq<char>) -> int
    decreases s.len(),
{
    if s.len() == 0 {
        0
    } else {
        10 * number(s.drop_last()) + (s.last() as int - 0x30)
    }
}

proof fn lemma_number(s: Seq<char>)
    requires
        only_digits(s),
    ensures
        digits_value(s) == number(s),
    decreases s.len(),
{
    if s.len() > 0 {
        assert forall|i: int| 0 <= i < s.drop_last().len() implies digit(
            #[trigger] s.drop_last()[i],
        ) by {
            assert(s.drop_last()[i] == s[i]);
        }
        assert(digit(s[s.len() - 1]));
        lemma_number(s.drop_last());
    }
}

proof fn lemma_decimal(n: nat)
    ensures
        decimal(n).len() > 0,
        only_digits(decimal(n)),
        number(decimal(n)) == n,
        n > 0 ==> decimal(n)[0] != '0',
        n == 0 ==> decimal(n).len() == 1,
    decreases n,
{
    lemma_decimal_value(n);
    assert forall|i: int| 0 <= i < decimal(n).len() implies digit(#[trigger] decimal(n)[i]) by {
        assert(crate::text::is_digit(decimal(n)[i]));
    }
    lemma_number(decimal(n));
    if n >= 10 {
        lemma_decimal(n / 10);
        assert(decimal(n)[0] == decimal(n / 10)[0]);
    }
}

/// A number is written in digits that stand for it, without needless zeros in
/// front.
pub proof fn law_numbers_are_written(n: u64, r: String)
    requires
        call_ensures(decimal_string, (n,), r),
    ensures
        r@.len() > 0,
        only_digits(r@),
        number(r@) == n,
        r@[0] == '0' ==> r@.len() == 1,
{
    lemma_decimal(n as nat);
}

/// A negative number is written with a minus sign in front, another one
/// without a sign.
pub proof fn law_signed_numbers_are_written(n: i32, r: String)
    requires
        call_ensures(signed_decimal_string, (n,), r),
    ensures
        n >= 0 ==> only_digits(r@) && r@.len() > 0 && number(r@) == n,
        n < 0 ==> r@.len() > 1 && r@[0] == '-' && only_digits(r@.skip(1)) && number(r@.skip(1))
            == -n,
{
    if n < 0 {
        lemma_decimal((-n) as nat);
        assert(r@.skip(1) =~= decimal((-n) as nat));
    } else {
        lemma_decimal(n as nat);
    }
}

/// A small number is read from digits, with or without one plus sign in
/// front; anything else, and anything larger, is not read.
pub proof fn law_small_numbers_are_read(s: &str, r: Option<u8>)
    requires
        call_ensures(parse_u8, (s,), r),
    ensures
        ({
            let digits = if s@.len() > 0 && s@[0] == '+' {
                s@.skip(1)
            } else {
                s@
            };
            &&& r is Some <==> digits.len() > 0 && only_digits(digits) && number(digits) < 256
            &&& r matches Some(n) ==> n == number(digits)
        }),
{
    let digits = if s@.len() > 0 && s@[0] == '+' {
        s@.skip(1)
    } else {
        s@
    };
    lemma_digits(digits);
}

/// Digits are what is read as digits, and stand for the number that is read.
pub proof fn lemma_digits(s: Seq<char>)
    ensures
        only_digits(s) == all_digits(s),
        only_digits(s) ==> digits_value(s) == number(s),
{
    if only_digits(s) {
        lemma_number(s);
        assert forall|i: int| 0 <= i < s.len() implies crate::text::is_digit(#[trigger] s[i]) by {
            assert(digit(s[i]));
        }
    }
    if all_digits(s) {
        assert forall|i: int| 0 <= i < s.len() implies digit(#[trigger] s[i]) by {
            assert(crate::text::is_digit(s[i]));
        }
    }
}

/// A number is read from digits, with or without one sign in front; anything
/// else, and anything that does not fit, is not read.
pub proof fn law_signed_numbers_are_read(v: Vec<char>, r: Option<i32>)
    requires
        call_ensures(parse_i32, (&v,), r),
    ensures
        ({
            let signed = v@.len() > 0 && (v@[0] == '+' || v@[0] == '-');
            let digits = if signed {
                v@.skip(1)
            } else {
                v@
            };
            let n = if v@.len() > 0 && v@[0] == '-' {
                -number(digits)
            } else {
                number(digits)
            };
            &&& r is Some <==> digits.len() > 0 && only_digits(digits) && -0x8000_0000 <= n
                <= 0x7fff_ffff
            &&& r matches Some(m) ==> m == n
        }),
{
    lemma_digits(v@);
    lemma_digits(v@.skip(1));
    lemma_not_negative(v@);
    lemma_not_negative(v@.skip(1));
}

proof fn lemma_not_negative(s: Seq<char>)
    ensures
        only_digits(s) ==> number(s) >= 0,
{
    if only_digits(s) {
        lemma_number(s);
    }
}

// ---------------------------------------------------------------------- blanks

/// A blank character.
pub open spec fn blank(c: char) -> bool {
    let n = c as u32;
    ||| n == 0x9 || n == 0xa || n == 0xb || n == 0xc || n == 0xd || n == 0x20
    ||| n == 0x85 || n == 0xa0 || n == 0x1680 || n == 0x2028 || n == 0x2029
    ||| n == 0x202f || n == 0x205f || n == 0x3000
    ||| 0x2000 <= n <= 0x200a
}

/// Blanks and nothing else.
pub open spec fn only_blanks(s: Seq<char>) -> bool {
    forall|i: int| 0 <= i < s.len() ==> blank(#[trigger] s[i])
}

proof fn lemma_trimmed_start(s: Seq<char>) -> (a: Seq<char>)
    ensures
        s == a + trimmed_start(s),
        only_blanks(a),
        trimmed_start(s).len() > 0 ==> !blank(trimmed_start(s)[0]),
    decreases s.len(),
{
    if s.len() > 0 && crate::text::is_space(s[0]) {
        let rest = lemma_trimmed_start(s.skip(1));
        let a = seq![s[0]] + rest;
        assert(s =~= seq![s[0]] + s.skip(1));
        assert(s =~= a + trimmed_start(s));
        assert forall|i: int| 0 <= i < a.len() implies blank(#[trigger] a[i]) by {
            if i > 0 {
                assert(a[i] == rest[i - 1]);
                assert(blank(rest[i - 1]));
            }
        }
        a
    } else {
        assert(s =~= Seq::<char>::empty() + s);
        Seq::empty()
    }
}

proof fn lemma_trimmed_end(s: Seq<char>) -> (b: Seq<char>)
    ensures
        s == trimmed_end(s) + b,
        only_blanks(b),
        trimmed_end(s).len() > 0 ==> !blank(trimmed_end(s).last()),
        trimmed_end(s).len() > 0 ==> trimmed_end(s)[0] == s[0],
    decreases s.len(),
{
    if s.len() > 0 && crate::text::is_space(s.last()) {
        let rest = lemma_trimmed_end(s.drop_last());
        let b = rest.push(s.last());
        assert(s =~= s.drop_last().push(s.last()));
        assert(s =~= trimmed_end(s) + b);
        assert forall|i: int| 0 <= i < b.len() implies blank(#[trigger] b[i]) by {
            if i < rest.len() {
                assert(b[i] == rest[i]);
                assert(blank(rest[i]));
            }
        }
        b
    } else {
        assert(s =~= s + Seq::<char>::empty());
        Seq::empty()
    }
}

/// The text lies between blanks alone.
pub open spec fn lies_between_blanks(s: Seq<char>, t: Seq<char>) -> bool {
    exists|a: Seq<char>, b: Seq<char>| s == #[trigger] (a + t + b) && only_blanks(a) && only_blanks(b)
}

/// Trimming takes off blanks at both ends, all of them, and nothing else.
pub proof fn law_trimming_takes_off_blanks(s: &str, t: Vec<char>)
    requires
        call_ensures(trim, (s,), t),
    ensures
        lies_between_blanks(s@, t@),
        t@.len() > 0 ==> !blank(t@[0]) && !blank(t@.last()),
{
    let a = lemma_trimmed_start(s@);
    let b = lemma_trimmed_end(trimmed_start(s@));
    assert(s@ =~= a + t@ + b);
}

proof fn lemma_trim_start(a: Seq<char>, t: Seq<char>)
    requires
        only_blanks(a),
        t.len() > 0 && !blank(t[0]),
    ensures
        trimmed_start(a + t) == t,
    decreases a.len(),
{
    let s = a + t;
    if a.len() > 0 {
        assert(blank(a[0]));
        assert(s[0] == a[0]);
        assert forall|i: int| 0 <= i < a.skip(1).len() implies blank(#[trigger] a.skip(1)[i]) by {
            assert(blank(a[i + 1]));
        }
        lemma_trim_start(a.skip(1), t);
        assert(s.skip(1) =~= a.skip(1) + t);
    } else {
        assert(s =~= t);
    }
}

proof fn lemma_trim_end(t: Seq<char>, b: Seq<char>)
    requires
        only_blanks(b),
        t.len() > 0 && !blank(t.last()),
    ensures
        trimmed_end(t + b) == t,
    decreases b.len(),
{
    let s = t + b;
    if b.len() > 0 {
        assert(blank(b[b.len() - 1]));
        assert(s.last() == b.last());
        assert forall|i: int| 0 <= i < b.drop_last().len() implies blank(
            #[trigger] b.drop_last()[i],
        ) by {
            assert(blank(b[i]));
        }
        lemma_trim_end(t, b.drop_last());
        assert(s.drop_last() =~= t + b.drop_last());
    } else {
        assert(s =~= t);
    }
}

/// A text that lies between blanks and has none at its ends is what trimming
/// leaves.
pub proof fn lemma_trimmed_is(s: Seq<char>, t: Seq<char>)
    requires
        lies_between_blanks(s, t),
        t.len() > 0 && !blank(t[0]) && !blank(t.last()),
    ensures
        trimmed(s) == t,
{
    let (a, b) = choose|a: Seq<char>, b: Seq<char>|
        s == #[trigger] (a + t + b) && only_blanks(a) && only_blanks(b);
    assert(s =~= a + (t + b));
    lemma_trim_start(a, t + b);
    lemma_trim_end(t, b);
}

/// Trimming leaves what lies between blanks.
pub proof fn lemma_trimmed_lies_between(s: Seq<char>)
    ensures
        lies_between_blanks(s, trimmed(s)),
{
    let a = lemma_trimmed_start(s);
    let b = lemma_trimmed_end(trimmed_start(s));
    assert(s =~= a + trimmed(s) + b);
}

/// A text is blank where it holds blanks and nothing else.
pub proof fn law_blank_texts(s: &str, r: bool)
    requires
        call_ensures(is_blank, (s,), r),
    ensures
        r <==> only_blanks(s@),
{
    if r {
        assert forall|i: int| 0 <= i < s@.len() implies blank(#[trigger] s@[i]) by {
            assert(crate::text::is_space(s@[i]));
        }
    }
    if only_blanks(s@) {
        assert forall|i: int| 0 <= i < s@.len() implies crate::text::is_space(
            #[trigger] s@[i],
        ) by {
            assert(blank(s@[i]));
        }
    }
}

// ----------------------------------------------------------------------- order

/// The first `n` characters of two texts agree.
pub open spec fn agree(a: Seq<char>, b: Seq<char>, n: int) -> bool {
    &&& 0 <= n <= a.len() && n <= b.len()
    &&& forall|i: int| 0 <= i < n ==> #[trigger] a[i] == b[i]
}

proof fn lemma_text_before(a: Seq<char>, b: Seq<char>, n: int)
    requires
        agree(a, b, n),
        n < a.len() && n < b.len() ==> a[n] != b[n],
    ensures
        text_before(a, b) <==> n < b.len() && (n == a.len() || a[n] < b[n]),
    decreases n,
{
    if n > 0 {
        assert(a[0] == b[0]);
        assert forall|i: int| 0 <= i < n - 1 implies #[trigger] a.skip(1)[i] == b.skip(1)[i] by {
            assert(a[i + 1] == b[i + 1]);
        }
        lemma_text_before(a.skip(1), b.skip(1), n - 1);
    }
}

/// One text comes before another where it ends first, or holds the smaller
/// character at the first place at which they differ.
pub proof fn law_texts_are_ordered(a: &str, b: &str, n: int, r: bool)
    requires
        call_ensures(is_text_before, (a, b), r),
        agree(a@, b@, n),
        n < a@.len() && n < b@.len() ==> a@[n] != b@[n],
    ensures
        r <==> n < b@.len() && (n == a@.len() || a@[n] < b@[n]),
{
    lemma_text_before(a@, b@, n);
}

// ---------------------------------------------------------------------- values

/// The value under a key is the last one that was put there; what was never
/// put there is not found.
pub proof fn law_value_is_found_under_its_key(
    entries: Vec<(String, Json)>,
    key: &str,
    r: Option<&Json>,
    k: int,
)
    requires
        call_ensures(Json::get, (&Json::Obj(entries), key), r),
        0 <= k <= entries@.len(),
        forall|i: int| k <= i < entries@.len() ==> (#[trigger] entries@[i]).0@ != key@,
    ensures
        k == 0 ==> r is None,
        k > 0 && entries@[k - 1].0@ == key@ ==> (r matches Some(j) && j@ == entries@[k - 1].1@),
{
    lemma_entries(entries@, k, key@);
}

proof fn lemma_entries(s: Seq<(String, Json)>, k: int, key: Seq<char>)
    requires
        0 <= k <= s.len(),
        forall|i: int| k <= i < s.len() ==> (#[trigger] s[i]).0@ != key,
    ensures
        k == 0 ==> !crate::json::entries_view(s).contains_key(key),
        k > 0 && s[k - 1].0@ == key ==> crate::json::entries_view(s).contains_key(key)
            && crate::json::entries_view(s)[key] == s[k - 1].1@,
    decreases s.len() - k,
{
    let n = s.len() as int;
    if s.len() == 0 {
    } else if k < n {
        assert(s[n - 1].0@ != key);
        let front = s.drop_last();
        assert forall|i: int| k <= i < front.len() implies (#[trigger] front[i]).0@ != key by {
            assert(front[i] == s[i]);
        }
        lemma_entries(front, k, key);
    }
}

/// Only an object has keys.
pub proof fn law_other_values_have_no_keys(j: Json, key: &str, r: Option<&Json>)
    requires
        call_ensures(Json::get, (&j, key), r),
        !(j is Obj),
    ensures
        r is None,
{
}

/// A number, a text and a truth value are read as what they are, and as
/// nothing else.
pub proof fn law_values_are_read(
    j: Json,
    number: Option<u64>,
    text: Option<&str>,
    truth: Option<bool>,
    items: Option<&Vec<Json>>,
)
    requires
        call_ensures(Json::as_u64, (&j,), number),
        call_ensures(Json::as_str, (&j,), text),
        call_ensures(Json::as_bool, (&j,), truth),
        call_ensures(Json::as_array, (&j,), items),
    ensures
        j matches Json::Uint(n) ==> number == Some(n),
        j matches Json::Neg(n) ==> (number is Some <==> n >= 0),
        number is Some ==> j is Uint || j is Neg,
        text is Some <==> j is Str,
        j matches Json::Str(s) ==> (text matches Some(t) && t@ == s@),
        truth is Some <==> j is Bool,
        j matches Json::Bool(b) ==> truth == Some(b),
        items is Some <==> j is Arr,
{
}

/// A value that was written is read back: a signed number, an optional number
/// and an optional text.
pub proof fn law_written_values_are_read_back(
    n: i32,
    a: Json,
    o: Option<u64>,
    b: Json,
    s: Option<String>,
    c: Json,
    ra: Option<u64>,
    rb: Option<u64>,
    rc: Option<&str>,
)
    requires
        call_ensures(Json::signed, (n,), a),
        call_ensures(Json::as_u64, (&a,), ra),
        call_ensures(Json::number_or_null, (o,), b),
        call_ensures(Json::as_u64, (&b,), rb),
        call_ensures(Json::text_or_null, (&s,), c),
        call_ensures(Json::as_str, (&c,), rc),
    ensures
        n >= 0 ==> ra == Some(n as u64),
        n < 0 ==> ra is None,
        rb == o,
        s is Some <==> rc is Some,
        s matches Some(t) ==> (rc matches Some(u) && u@ == t@),
{
}

/// Blanks are what trimming counts as blank.
pub proof fn lemma_only_blanks(s: Seq<char>)
    ensures
        only_blanks(s) <==> crate::text::all_space(s),
{
    if crate::text::all_space(s) {
        assert forall|i: int| 0 <= i < s.len() implies blank(#[trigger] s[i]) by {
            assert(crate::text::is_space(s[i]));
        }
    }
    if only_blanks(s) {
        assert forall|i: int| 0 <= i < s.len() implies crate::text::is_space(#[trigger] s[i]) by {
            assert(blank(s[i]));
        }
    }
}

} // verus!
