//! Directories, and which log files are given up.

use vstd::prelude::*;
use vstd::string::*;

use crate::order::{comes_first, is_stable_order, stable_order, AgeKey};
use crate::text::{has_prefix, starts_with, to_chars};

verus! {

/// A file in a directory: a slash stands between them, unless the directory
/// ends in one or is not named at all.
pub open spec fn joined(dir: Seq<char>, file: Seq<char>) -> Seq<char> {
    if dir.len() == 0 || dir.last() == '/' {
        dir + file
    } else {
        dir + "/"@ + file
    }
}

/// The path of a file in a directory.
pub fn join_path(dir: &str, file: &str) -> (r: String)
    ensures
        r@ == joined(dir@, file@),
{
    let d = to_chars(dir);
    let mut s = dir.to_owned();
    if d.len() > 0 && d[d.len() - 1] != '/' {
        s.append("/");
    }
    s.append(file);
    s
}

/// The directory for state: the platform's own, or else one among the data.
pub fn state_dir(platform: Option<String>, data_dir: String) -> (r: String)
    ensures
        match platform {
            Some(d) => r == d,
            None => r@ == joined(data_dir@, "logs"@),
        },
{
    match platform {
        Some(d) => d,
        None => join_path(data_dir.as_str(), "logs"),
    }
}

/// A file and when it was changed last, in nanoseconds.
#[derive(Debug)]
pub struct LogFile {
    pub name: String,
    pub modified: i128,
}

/// The file is a log.
pub open spec fn is_log(name: Seq<char>) -> bool {
    starts_with(name, "iris.log"@)
}

/// The positions of the logs among some files.
pub open spec fn log_positions(files: Seq<LogFile>) -> Seq<usize>
    decreases files.len(),
{
    if files.len() == 0 {
        Seq::empty()
    } else {
        let earlier = log_positions(files.drop_last());
        if is_log(files.last().name@) {
            earlier.push((files.len() - 1) as usize)
        } else {
            earlier
        }
    }
}

/// The files are told apart by the keys.
pub open spec fn are_keys(keys: Seq<AgeKey>, positions: Seq<usize>, files: Seq<LogFile>) -> bool {
    &&& keys.len() == positions.len()
    &&& forall|k: int|
        0 <= k < keys.len() ==> {
            &&& (#[trigger] keys[k]).modified == files[positions[k] as int].modified
            &&& keys[k].name == files[positions[k] as int].name
        }
}

/// `sorted` is the positions of the logs, the newest first.
pub open spec fn are_logs_by_age(sorted: Seq<usize>, files: Seq<LogFile>) -> bool {
    exists|keys: Seq<AgeKey>, order: Seq<usize>|
        {
            &&& #[trigger] are_keys(keys, log_positions(files), files)
            &&& #[trigger] is_stable_order(keys, order)
            &&& sorted == order.map_values(|i: usize| log_positions(files)[i as int])
        }
}

/// The logs that are given up, by position: all but the newest `keep`.
pub fn logs_to_prune(files: &Vec<LogFile>, keep: usize) -> (r: Vec<usize>)
    ensures
        exists|sorted: Seq<usize>| #[trigger]
            are_logs_by_age(sorted, files@) && r@ == (if keep < sorted.len() {
                sorted.skip(keep as int)
            } else {
                Seq::empty()
            }),
{
    let mut at: Vec<usize> = Vec::new();
    let mut keys: Vec<AgeKey> = Vec::new();
    let mut i: usize = 0;
    assert(at@ =~= log_positions(files@.take(0)));
    while i < files.len()
        invariant
            i <= files@.len(),
            at@ == log_positions(files@.take(i as int)),
            forall|k: int| 0 <= k < at@.len() ==> (#[trigger] at@[k]) < i,
            are_keys(keys@, at@, files@),
        decreases files@.len() - i,
    {
        let f = &files[i];
        assert(files@.take(i + 1).drop_last() =~= files@.take(i as int));
        if has_prefix(f.name.as_str(), "iris.log") {
            at.push(i);
            keys.push(AgeKey { modified: f.modified, name: f.name.clone() });
        }
        i += 1;
    }
    assert(files@.take(files@.len() as int) =~= files@);
    let order = stable_order(&keys);
    let ghost sorted = order@.map_values(|i: usize| log_positions(files@)[i as int]);
    assert(are_keys(keys@, log_positions(files@), files@));
    assert(are_logs_by_age(sorted, files@));
    let mut r: Vec<usize> = Vec::new();
    let mut k: usize = keep;
    while k < order.len()
        invariant
            keep <= k,
            k <= order@.len() || k == keep,
            at@ == log_positions(files@),
            is_stable_order(keys@, order@),
            keys@.len() == at@.len(),
            sorted == order@.map_values(|i: usize| log_positions(files@)[i as int]),
            keep < sorted.len() ==> r@ == sorted.subrange(keep as int, k as int),
            keep >= sorted.len() ==> r@.len() == 0,
        decreases order@.len() - k,
    {
        r.push(at[order[k]]);
        k += 1;
        assert(sorted.subrange(keep as int, k as int) =~= sorted.subrange(keep as int, k - 1).push(
            sorted[k - 1],
        ));
    }
    proof {
        if keep < sorted.len() {
            assert(r@ =~= sorted.skip(keep as int));
        } else {
            assert(r@ =~= Seq::empty());
        }
    }
    r
}

/// Of the logs in order of age, one that stands in front of another was not
/// changed before it: what is given up is never newer than what is kept.
pub proof fn law_newest_logs_are_kept(sorted: Seq<usize>, files: Seq<LogFile>, kept: int, given_up: int)
    requires
        are_logs_by_age(sorted, files),
        0 <= kept < given_up < sorted.len(),
    ensures
        files[sorted[given_up] as int].modified <= files[sorted[kept] as int].modified,
{
    let (keys, order) = choose|keys: Seq<AgeKey>, order: Seq<usize>|
        {
            &&& #[trigger] are_keys(keys, log_positions(files), files)
            &&& #[trigger] is_stable_order(keys, order)
            &&& sorted == order.map_values(|i: usize| log_positions(files)[i as int])
        };
    assert(comes_first(keys, order[kept] as int, order[given_up] as int));
    let a = keys[order[kept] as int];
    let b = keys[order[given_up] as int];
    assert(a.modified == files[sorted[kept] as int].modified);
    assert(b.modified == files[sorted[given_up] as int].modified);
}

proof fn lemma_log_positions(files: Seq<LogFile>)
    requires
        files.len() <= usize::MAX,
    ensures
        forall|k: int|
            0 <= k < log_positions(files).len() ==> {
                &&& (#[trigger] log_positions(files)[k]) < files.len()
                &&& is_log(files[log_positions(files)[k] as int].name@)
            },
    decreases files.len(),
{
    if files.len() > 0 {
        let front = files.drop_last();
        lemma_log_positions(front);
        assert forall|k: int| 0 <= k < log_positions(files).len() implies {
            &&& (#[trigger] log_positions(files)[k]) < files.len()
            &&& is_log(files[log_positions(files)[k] as int].name@)
        } by {
            if k < log_positions(front).len() {
                assert(log_positions(files)[k] == log_positions(front)[k]);
                assert(files[log_positions(front)[k] as int] == front[log_positions(
                    front,
                )[k] as int]);
            }
        }
    }
}

/// Nothing but logs is ever given up.
pub proof fn law_only_logs_are_pruned(sorted: Seq<usize>, files: Seq<LogFile>, i: int)
    requires
        files.len() <= usize::MAX,
        are_logs_by_age(sorted, files),
        0 <= i < sorted.len(),
    ensures
        sorted[i] < files.len(),
        is_log(files[sorted[i] as int].name@),
{
    lemma_log_positions(files);
    let (keys, order) = choose|keys: Seq<AgeKey>, order: Seq<usize>|
        {
            &&& #[trigger] are_keys(keys, log_positions(files), files)
            &&& #[trigger] is_stable_order(keys, order)
            &&& sorted == order.map_values(|i: usize| log_positions(files)[i as int])
        };
    assert(order[i] < keys.len());
    assert(sorted[i] == log_positions(files)[order[i] as int]);
}

} // verus!
