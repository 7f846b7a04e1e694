//! Names of snapshots and of the files that hold them.
//!
//! A snapshot is kept as `<name>.toml` in the snapshots directory.

use vstd::prelude::*;
use vstd::string::*;

use crate::order::{
    comes_first, is_stable_order, lemma_order_is_injective, stable_order, text_before, NameKey,
    SortKey,
};
use crate::paths::{join_path, joined};
use crate::seqs::{lemma_filter_none, lemma_filter_take};
use crate::text::{debug_text, from_chars, is_alnum, is_alnum_char, quoted, to_chars, views};

verus! {

/// Why a name is refused.
#[derive(Debug)]
pub enum NameError {
    Empty,
    LeadingDot,
    /// The name, which holds a character that is not allowed.
    BadCharacter(String),
}

impl NameError {
    /// The text that the user is told.
    pub open spec fn text(&self) -> Seq<char> {
        match self {
            NameError::Empty => "snapshot name cannot be empty"@,
            NameError::LeadingDot => "snapshot name cannot start with '.'"@,
            NameError::BadCharacter(name) => "snapshot name "@ + debug_text(name@)
                + " contains characters outside [A-Za-z0-9_.-]"@,
        }
    }

    /// The text that the user is told.
    pub fn message(&self) -> (r: String)
        ensures
            r@ == self.text(),
    {
        match self {
            NameError::Empty => "snapshot name cannot be empty".to_owned(),
            NameError::LeadingDot => "snapshot name cannot start with '.'".to_owned(),
            NameError::BadCharacter(name) => {
                let mut s = "snapshot name ".to_owned();
                s.append(quoted(name.as_str()).as_str());
                s.append(" contains characters outside [A-Za-z0-9_.-]");
                s
            },
        }
    }
}

/// A character that a name may hold.
pub open spec fn is_name_char(c: char) -> bool {
    is_alnum(c) || c == '_' || c == '.' || c == '-'
}

/// Every character is one that a name may hold.
pub open spec fn all_name_chars(s: Seq<char>) -> bool {
    forall|i: int| 0 <= i < s.len() ==> is_name_char(#[trigger] s[i])
}

/// A name that a snapshot may have.
pub open spec fn is_valid_name(s: Seq<char>) -> bool {
    s.len() > 0 && s[0] != '.' && all_name_chars(s)
}

/// The error for a name that is refused.
pub open spec fn is_name_error(e: NameError, name: Seq<char>) -> bool {
    match e {
        NameError::Empty => name.len() == 0,
        NameError::LeadingDot => name.len() > 0 && name[0] == '.',
        NameError::BadCharacter(s) => name.len() > 0 && name[0] != '.' && !all_name_chars(name)
            && s@ == name,
    }
}

/// Refuses names that lead out of the snapshots directory or that a file
/// system may trip over.
pub fn validate_name(name: &str) -> (r: Result<(), NameError>)
    ensures
        r is Ok <==> is_valid_name(name@),
        r matches Err(e) ==> is_name_error(e, name@),
{
    let v = to_chars(name);
    if v.len() == 0 {
        return Err(NameError::Empty);
    }
    if v[0] == '.' {
        return Err(NameError::LeadingDot);
    }
    let mut i: usize = 0;
    while i < v.len()
        invariant
            v@ == name@,
            v@.len() > 0,
            v@[0] != '.',
            i <= v@.len(),
            forall|j: int| 0 <= j < i ==> is_name_char(#[trigger] v@[j]),
        decreases v@.len() - i,
    {
        let c = v[i];
        if !(is_alnum_char(c) || c == '_' || c == '.' || c == '-') {
            assert(!is_name_char(name@[i as int]));
            return Err(NameError::BadCharacter(name.to_owned()));
        }
        i += 1;
    }
    Ok(())
}

/// The file of a snapshot.
pub fn snapshot_file(name: &str) -> (r: Result<String, NameError>)
    ensures
        match r {
            Ok(file) => is_valid_name(name@) && file@ == name@ + ".toml"@,
            Err(e) => !is_valid_name(name@) && is_name_error(e, name@),
        },
{
    match validate_name(name) {
        Ok(_) => {
            let mut s = name.to_owned();
            s.append(".toml");
            Ok(s)
        },
        Err(e) => Err(e),
    }
}

/// The path of a snapshot's file.
pub fn snapshot_path(dir: &str, name: &str) -> (r: Result<String, NameError>)
    ensures
        match r {
            Ok(path) => is_valid_name(name@) && path@ == joined(dir@, name@ + ".toml"@),
            Err(e) => !is_valid_name(name@) && is_name_error(e, name@),
        },
{
    match snapshot_file(name) {
        Ok(file) => Ok(join_path(dir, file.as_str())),
        Err(e) => Err(e),
    }
}

// -------------------------------------------------------------------- listing

/// The file holds a snapshot: there is a name before the ending.
pub open spec fn is_snapshot_file(file: Seq<char>) -> bool {
    file.len() > 5 && file.skip(file.len() - 5) == ".toml"@
}

/// The file name without its ending.
pub open spec fn stem(file: Seq<char>) -> Seq<char> {
    file.take(file.len() - 5)
}

/// The names of the snapshots among some files, as they come.
pub open spec fn snapshot_stems(files: Seq<Seq<char>>) -> Seq<Seq<char>> {
    files.filter(|f: Seq<char>| is_snapshot_file(f)).map_values(|f: Seq<char>| stem(f))
}

/// `order` lists each of the first `n` numbers once.
pub open spec fn is_permutation(order: Seq<usize>, n: nat) -> bool {
    &&& order.len() == n
    &&& order.no_duplicates()
    &&& forall|i: int| 0 <= i < order.len() ==> (#[trigger] order[i]) < n
}

/// No text comes before one that stands in front of it.
pub open spec fn is_ascending(s: Seq<Seq<char>>) -> bool {
    forall|i: int, j: int| 0 <= i < j < s.len() ==> !text_before(#[trigger] s[j], #[trigger] s[i])
}

/// `r` is `s` in alphabetical order.
pub open spec fn is_sorted_text(s: Seq<Seq<char>>, r: Seq<Seq<char>>) -> bool {
    &&& is_ascending(r)
    &&& exists|order: Seq<usize>| #[trigger]
        is_permutation(order, s.len()) && r == order.map_values(|i: usize| s[i as int])
}

fn has_toml_ending(v: &Vec<char>) -> (r: bool)
    ensures
        r == is_snapshot_file(v@),
{
    proof {
        reveal_strlit(".toml");
    }
    let n: usize = v.len();
    if n <= 5 {
        return false;
    }
    let r = v[n - 5] == '.' && v[n - 4] == 't' && v[n - 3] == 'o' && v[n - 2] == 'm' && v[n - 1] == 'l';
    proof {
        let tail = v@.skip(n - 5);
        assert(tail[0] == v@[n - 5]);
        assert(tail[1] == v@[n - 4]);
        assert(tail[2] == v@[n - 3]);
        assert(tail[3] == v@[n - 2]);
        assert(tail[4] == v@[n - 1]);
        if r {
            assert(tail =~= ".toml"@);
        }
    }
    r
}

/// The names of the snapshots among the files of a directory, in alphabetical
/// order.
pub fn list_snapshots(files: &Vec<String>) -> (r: Vec<String>)
    ensures
        is_sorted_text(snapshot_stems(views(files@)), views(r@)),
{
    let ghost all = views(files@);
    let ghost p = |f: Seq<char>| is_snapshot_file(f);
    let ghost cut = |f: Seq<char>| stem(f);
    let mut keys: Vec<NameKey> = Vec::new();
    let mut i: usize = 0;
    proof {
        lemma_filter_none(all, p);
    }
    while i < files.len()
        invariant
            i <= files@.len(),
            all == views(files@),
            p == (|f: Seq<char>| is_snapshot_file(f)),
            cut == (|f: Seq<char>| stem(f)),
            keys@.len() == all.take(i as int).filter(p).len(),
            forall|k: int|
                0 <= k < keys@.len() ==> (#[trigger] keys@[k]).name@ == stem(
                    all.take(i as int).filter(p)[k],
                ),
        decreases files@.len() - i,
    {
        let v = to_chars(files[i].as_str());
        proof {
            lemma_filter_take(all, p, i as int);
        }
        if has_toml_ending(&v) {
            let name = from_chars(&v, 0, v.len() - 5);
            assert(name@ =~= stem(all[i as int]));
            keys.push(NameKey { name });
        }
        i += 1;
    }
    let ghost stems = snapshot_stems(all);
    assert(all.take(all.len() as int) =~= all);
    let order = stable_order(&keys);
    let mut r: Vec<String> = Vec::new();
    let mut k: usize = 0;
    assert(views(r@) =~= order@.take(0).map_values(|i: usize| stems[i as int]));
    while k < order.len()
        invariant
            k <= order@.len(),
            is_stable_order(keys@, order@),
            stems.len() == keys@.len(),
            forall|k: int| 0 <= k < keys@.len() ==> (#[trigger] keys@[k]).name@ == stems[k],
            views(r@) == order@.take(k as int).map_values(|i: usize| stems[i as int]),
        decreases order@.len() - k,
    {
        let ghost before = r@;
        r.push(keys[order[k]].name.clone());
        k += 1;
        proof {
            assert(views(r@) =~= views(before).push(stems[order@[k - 1] as int]));
            assert(order@.take(k as int).map_values(|i: usize| stems[i as int]) =~= order@.take(
                k - 1,
            ).map_values(|i: usize| stems[i as int]).push(stems[order@[k - 1] as int]));
        }
    }
    proof {
        assert(order@.take(order@.len() as int) =~= order@);
        lemma_order_is_injective(keys@, order@);
        assert(is_permutation(order@, stems.len()));
        assert forall|i: int, j: int| 0 <= i < j < views(r@).len() implies !text_before(
            #[trigger] views(r@)[j],
            #[trigger] views(r@)[i],
        ) by {
            assert(comes_first(keys@, order@[i] as int, order@[j] as int));
            NameKey::before_is_asymmetric(keys@[order@[i] as int], keys@[order@[j] as int]);
        }
    }
    r
}

// ------------------------------------------------------------------------ laws

/// A name that is accepted names a file in the directory itself: it holds no
/// slash, and it is neither of the names for the directory and its parent.
pub proof fn law_valid_name_stays_inside(name: Seq<char>)
    requires
        is_valid_name(name),
    ensures
        !name.contains('/'),
        name != seq!['.'],
        name != seq!['.', '.'],
        name[0] != '.',
{
    if name.contains('/') {
        let i = choose|i: int| 0 <= i < name.len() && name[i] == '/';
        assert(is_name_char(name[i]));
    }
}

/// The file of a snapshot is listed under the snapshot's name.
pub proof fn law_file_is_listed_by_name(name: Seq<char>)
    requires
        is_valid_name(name),
    ensures
        is_snapshot_file(name + ".toml"@),
        stem(name + ".toml"@) == name,
{
    reveal_strlit(".toml");
    let file = name + ".toml"@;
    assert(file.skip(file.len() - 5) =~= ".toml"@);
    assert(stem(file) =~= name);
}

} // verus!
