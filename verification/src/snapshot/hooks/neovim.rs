//! Stand-alone editor windows. The editor is told over its socket to write a
//! session file, and is started again from that file.
//!
//! The editor must listen on a socket for this to work; without one the
//! capture fails and the generic record is made instead.

use vstd::prelude::*;
use vstd::string::*;

use crate::bridge::proto::Window;
use crate::snapshot::hooks::{
    just, three, wrong_variant, AppHook, Facts, HookError, HookView, Need, Outcome,
};
use crate::snapshot::schema::HookData;
use crate::text::{
    clone_strings, decimal, decimal_string, digits_value, has_prefix, lemma_decimal_value,
    signed_decimal, signed_decimal_string, starts_with, str_eq, to_chars,
};

verus! {

/// The hook for stand-alone editors.
pub struct NeovimHook;

impl AppHook for NeovimHook {
    open spec fn label(&self) -> Seq<char> {
        "neovim"@
    }

    open spec fn handles(&self, app_id: Option<Seq<char>>) -> bool {
        app_id == Some("nvim"@)
    }

    open spec fn need(&self, w: Window) -> Outcome<Need> {
        match w.pid {
            None => Outcome::Failed("nvim window has no pid; can't probe RPC socket"@),
            Some(pid) => Outcome::Done(Need::Session(pid)),
        }
    }

    open spec fn record(&self, w: Window, facts: Facts) -> Outcome<HookView> {
        Outcome::Done(
            HookView::Neovim { session_path: facts->Session_0@, argv_fallback: seq!["nvim"@] },
        )
    }

    open spec fn argv(&self, data: HookView) -> Outcome<Seq<Seq<char>>> {
        match data {
            HookView::Neovim { session_path, argv_fallback } => if session_path.len() > 0 {
                Outcome::Done(seq!["nvim"@, "-S"@, session_path])
            } else if argv_fallback.len() == 0 {
                Outcome::Failed("Neovim HookData has no session_path AND no argv_fallback"@)
            } else {
                Outcome::Done(argv_fallback)
            },
            _ => Outcome::Failed(wrong_variant("NeovimHook"@, "non-Neovim"@)),
        }
    }

    fn name(&self) -> &'static str {
        "neovim"
    }

    fn matches(&self, app_id: Option<&str>) -> bool {
        match app_id {
            Some(id) => str_eq(id, "nvim"),
            None => false,
        }
    }

    fn plan_capture(&self, w: &Window) -> Result<Need, HookError> {
        match w.pid {
            None => Err(
                HookError::NoPid("nvim window has no pid; can't probe RPC socket".to_owned()),
            ),
            Some(pid) => Ok(Need::Session(pid)),
        }
    }

    fn finish_capture(&self, w: &Window, facts: Facts) -> Result<HookData, HookError> {
        match facts {
            Facts::Session(session_path) => Ok(
                HookData::Neovim { session_path, argv_fallback: just("nvim") },
            ),
            _ => Err(HookError::Outside("NeovimHook needs a session".to_owned())),
        }
    }

    fn build_argv(&self, data: &HookData) -> Result<Vec<String>, HookError> {
        match data {
            HookData::Neovim { session_path, argv_fallback } => {
                if session_path.as_str().unicode_len() == 0 {
                    if argv_fallback.len() == 0 {
                        return Err(
                            HookError::EmptyArgv(
                                "Neovim HookData has no session_path AND no argv_fallback",
                            ),
                        );
                    }
                    return Ok(clone_strings(argv_fallback));
                }
                Ok(three("nvim", "-S", session_path.as_str()))
            },
            _ => Err(HookError::WrongVariant { hook: "NeovimHook", expects: "non-Neovim" }),
        }
    }
}

// -------------------------------------------------------------------- sockets

/// What the names of an editor's sockets begin with.
pub open spec fn socket_prefix(pid: i32) -> Seq<char> {
    "nvim."@ + signed_decimal(pid as int) + "."@
}

/// The name of an editor's usual socket.
pub fn canonical_socket(pid: i32) -> (r: String)
    ensures
        r@ == socket_prefix(pid) + "0"@,
{
    let mut s = "nvim.".to_owned();
    s.append(signed_decimal_string(pid).as_str());
    s.append(".");
    s.append("0");
    s
}

/// None of the names is one of the editor's sockets.
pub open spec fn no_socket_among(names: Seq<String>, pid: i32) -> bool {
    forall|j: int|
        0 <= j < names.len() ==> !starts_with((#[trigger] names[j])@, socket_prefix(pid))
}

/// The first of the names that is one of the editor's sockets.
pub fn pick_socket(pid: i32, names: &Vec<String>) -> (r: Option<usize>)
    ensures
        match r {
            Some(i) => {
                &&& i < names@.len()
                &&& starts_with(names@[i as int]@, socket_prefix(pid))
                &&& forall|j: int|
                    0 <= j < i ==> !starts_with((#[trigger] names@[j])@, socket_prefix(pid))
            },
            None => forall|j: int|
                0 <= j < names@.len() ==> !starts_with((#[trigger] names@[j])@, socket_prefix(pid)),
        },
        r is None ==> no_socket_among(names@, pid),
{
    let mut prefix = "nvim.".to_owned();
    prefix.append(signed_decimal_string(pid).as_str());
    prefix.append(".");
    let mut i: usize = 0;
    while i < names.len()
        invariant
            prefix@ == socket_prefix(pid),
            i <= names@.len(),
            forall|j: int|
                0 <= j < i ==> !starts_with((#[trigger] names@[j])@, socket_prefix(pid)),
        decreases names@.len() - i,
    {
        if has_prefix(names[i].as_str(), prefix.as_str()) {
            return Some(i);
        }
        i += 1;
    }
    None
}

// ------------------------------------------------------------------- sessions

/// So many zeros.
pub open spec fn zeros(n: nat) -> Seq<char> {
    Seq::new(n, |i: int| '0')
}

/// `n` in decimal, with zeros in front up to nine digits.
pub open spec fn padded(n: nat) -> Seq<char> {
    let digits = decimal(n);
    if digits.len() < 9 {
        zeros((9 - digits.len()) as nat) + digits
    } else {
        digits
    }
}

/// The suffix of the next session file: the counter's value, which moves on
/// by one and starts over after the largest.
pub fn random_suffix(counter: &mut u64) -> (r: String)
    ensures
        r@ == padded(*old(counter) as nat),
        *final(counter) == (if *old(counter) == u64::MAX {
            0u64
        } else {
            (*old(counter) + 1) as u64
        }),
{
    let n: u64 = *counter;
    if n == u64::MAX {
        *counter = 0;
    } else {
        *counter = n + 1;
    }
    let digits = decimal_string(n);
    let len: usize = digits.as_str().unicode_len();
    let mut s = String::new();
    let mut k: usize = len;
    while k < 9
        invariant
            len == decimal(n as nat).len(),
            len <= k,
            k <= 9 || k == len,
            s@ == zeros((k - len) as nat),
        decreases 9 - k,
    {
        s.push('0');
        k += 1;
        assert(s@ =~= zeros((k - len) as nat));
    }
    s.append(digits.as_str());
    assert(s@ =~= padded(n as nat));
    s
}

/// The name of a session file.
pub fn session_file_name(pid: i32, suffix: &str) -> (r: String)
    ensures
        r@ == "nvim-"@ + signed_decimal(pid as int) + "-"@ + suffix@ + ".vim"@,
{
    let mut s = "nvim-".to_owned();
    s.append(signed_decimal_string(pid).as_str());
    s.append("-");
    s.append(suffix);
    s.append(".vim");
    s
}

/// A text as it stands between the editor's single quotes: each single quote
/// is doubled.
pub open spec fn vim_escaped(s: Seq<char>) -> Seq<char>
    decreases s.len(),
{
    if s.len() == 0 {
        Seq::empty()
    } else if s.last() == '\'' {
        vim_escaped(s.drop_last()).push('\'').push('\'')
    } else {
        vim_escaped(s.drop_last()).push(s.last())
    }
}

/// The expression that makes an editor write its session to a file.
pub fn mksession_expr(path: &str) -> (r: String)
    ensures
        r@ == "execute('mksession! "@ + vim_escaped(path@) + "')"@,
{
    let v = to_chars(path);
    let mut escaped = String::new();
    let mut i: usize = 0;
    assert(escaped@ =~= vim_escaped(v@.take(0)));
    while i < v.len()
        invariant
            i <= v@.len(),
            escaped@ == vim_escaped(v@.take(i as int)),
        decreases v@.len() - i,
    {
        if v[i] == '\'' {
            escaped.push('\'');
            escaped.push('\'');
        } else {
            escaped.push(v[i]);
        }
        i += 1;
        assert(v@.take(i as int).drop_last() =~= v@.take(i - 1));
    }
    assert(v@.take(v@.len() as int) =~= v@);
    let mut s = "execute('mksession! ".to_owned();
    s.append(escaped.as_str());
    s.append("')");
    s
}

/// What the editor reads between single quotes: two of them stand for one.
/// A single one would end the text.
pub open spec fn vim_read(s: Seq<char>) -> Option<Seq<char>>
    decreases s.len(),
{
    if s.len() == 0 {
        Some(Seq::empty())
    } else if s.last() != '\'' {
        match vim_read(s.drop_last()) {
            Some(t) => Some(t.push(s.last())),
            None => None,
        }
    } else if s.len() >= 2 && s[s.len() - 2] == '\'' {
        match vim_read(s.drop_last().drop_last()) {
            Some(t) => Some(t.push('\'')),
            None => None,
        }
    } else {
        None
    }
}

/// The editor reads an escaped path as the path.
pub proof fn law_escaped_path_is_read_back(s: Seq<char>)
    ensures
        vim_read(vim_escaped(s)) == Some(s),
    decreases s.len(),
{
    if s.len() == 0 {
        assert(s =~= Seq::empty());
    } else {
        let front = s.drop_last();
        law_escaped_path_is_read_back(front);
        let e = vim_escaped(front);
        if s.last() == '\'' {
            assert(e.push('\'').push('\'').drop_last() =~= e.push('\''));
            assert(e.push('\'').drop_last() =~= e);
        } else {
            assert(e.push(s.last()).drop_last() =~= e);
        }
        assert(front.push(s.last()) =~= s);
    }
}

proof fn lemma_zeros_add_nothing(n: nat, s: Seq<char>)
    ensures
        digits_value(zeros(n) + s) == digits_value(s),
    decreases s.len(), n,
{
    if s.len() > 0 {
        lemma_zeros_add_nothing(n, s.drop_last());
        assert((zeros(n) + s).drop_last() =~= zeros(n) + s.drop_last());
    } else {
        assert(zeros(n) + s =~= zeros(n));
        assert(digits_value(s) == 0);
        if n > 0 {
            lemma_zeros_add_nothing((n - 1) as nat, s);
            assert(zeros((n - 1) as nat) + s =~= zeros((n - 1) as nat));
            assert(zeros(n).drop_last() =~= zeros((n - 1) as nat));
        } else {
            assert(zeros(n) =~= s);
        }
    }
}

/// Two captures with different counters never share a suffix.
pub proof fn law_suffixes_are_distinct(a: nat, b: nat)
    requires
        a != b,
    ensures
        padded(a) != padded(b),
{
    lemma_decimal_value(a);
    lemma_decimal_value(b);
    lemma_zeros_add_nothing((9 - decimal(a).len()) as nat, decimal(a));
    lemma_zeros_add_nothing((9 - decimal(b).len()) as nat, decimal(b));
}

} // verus!
