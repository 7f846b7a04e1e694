//! Names, files and settings: which are accepted, and what they come to.

use vstd::prelude::*;
use vstd::string::*;

use crate::bridge::{
    ensure_single_instance, law_pid_file_round_trip, pid_file_text, pid_path, recorded_pid,
    runtime_dir, socket_path, Warmup, WarmupInput,
};
use crate::client::default_socket_path;
use crate::config::{load, Config};
use crate::laws::starting::begins_with;
use crate::laws::texts::{
    blank, digit, lemma_digits, lemma_trimmed_is, lemma_trimmed_lies_between, lies_between_blanks,
    number, only_digits,
};
use crate::notify::{mode_from_flags, set_mode, should_emit, EmitMode};
use crate::order::{is_stable_order, lemma_order_is_injective, text_before, AgeKey};
use crate::paths::{
    are_keys, are_logs_by_age, is_log, join_path, law_newest_logs_are_kept, log_positions,
    logs_to_prune, state_dir, LogFile,
};
use crate::snapshot::schema::Snapshot;
use crate::snapshot::store::{
    is_permutation, is_snapshot_file, list_snapshots, snapshot_file, snapshot_path,
    snapshot_stems, stem, validate_name, NameError,
};
use crate::snapshot::{confirmed, law_setting_is_read_back, parse_var, resolve_editor};
use crate::text::{debug_text, decimal, signed_decimal, views};

verus! {

// ----------------------------------------------------------------------- names

/// An ASCII letter, an ASCII digit or an underscore.
pub open spec fn word_char(c: char) -> bool {
    ||| 'a' <= c && c <= 'z'
    ||| 'A' <= c && c <= 'Z'
    ||| '0' <= c && c <= '9'
    ||| c == '_'
}

/// A name of a snapshot: letters, digits, underscores, dots and hyphens, at
/// least one of them, and no dot in front.
pub open spec fn good_name(s: Seq<char>) -> bool {
    &&& s.len() > 0
    &&& s[0] != '.'
    &&& forall|i: int|
        0 <= i < s.len() ==> word_char(#[trigger] s[i]) || s[i] == '.' || s[i] == '-'
}

/// Exactly the good names are accepted, and what is refused is told apart.
pub proof fn law_good_names_are_accepted(name: &str, r: Result<(), NameError>)
    requires
        call_ensures(validate_name, (name,), r),
    ensures
        r is Ok <==> good_name(name@),
        r matches Err(e) ==> {
            &&& e is Empty <==> name@.len() == 0
            &&& e is LeadingDot <==> name@.len() > 0 && name@[0] == '.'
        },
{
    if r is Ok {
        assert forall|i: int| 0 <= i < name@.len() implies word_char(#[trigger] name@[i])
            || name@[i] == '.' || name@[i] == '-' by {
            assert(crate::snapshot::store::is_name_char(name@[i]));
        }
    }
    if good_name(name@) {
        assert forall|i: int| 0 <= i < name@.len() implies crate::snapshot::store::is_name_char(
            #[trigger] name@[i],
        ) by {
            assert(word_char(name@[i]) || name@[i] == '.' || name@[i] == '-');
        }
    }
}

/// A path is the directory, one slash unless it is there, and the file; no
/// directory at all stands for nothing.
pub proof fn law_paths_are_joined(dir: &str, file: &str, r: String)
    requires
        call_ensures(join_path, (dir, file), r),
    ensures
        dir@.len() == 0 ==> r@ == file@,
        dir@.len() > 0 && dir@.last() == '/' ==> r@ == dir@ + file@,
        dir@.len() > 0 && dir@.last() != '/' ==> r@ == dir@ + seq!['/'] + file@,
{
    reveal_strlit("/");
    assert("/"@ =~= seq!['/']);
    if dir@.len() == 0 {
        assert(dir@ + file@ =~= file@);
    }
}

/// A snapshot of a good name is kept in the directory, under its name with an
/// ending; one of another name is kept nowhere.
pub proof fn law_snapshot_has_its_file(
    dir: &str,
    name: &str,
    file: Result<String, NameError>,
    path: Result<String, NameError>,
)
    requires
        call_ensures(snapshot_file, (name,), file),
        call_ensures(snapshot_path, (dir, name), path),
        dir@.len() > 0 && dir@.last() != '/',
    ensures
        file is Ok <==> good_name(name@),
        path is Ok <==> good_name(name@),
        file matches Ok(f) ==> f@ == name@ + ".toml"@,
        path matches Ok(p) ==> p@ == dir@ + seq!['/'] + name@ + ".toml"@,
{
    reveal_strlit("/");
    assert("/"@ =~= seq!['/']);
    assert(dir@ + seq!['/'] + (name@ + ".toml"@) =~= dir@ + seq!['/'] + name@ + ".toml"@);
    lemma_good_name(name@);
}

proof fn lemma_good_name(name: Seq<char>)
    ensures
        crate::snapshot::store::is_valid_name(name) <==> good_name(name),
{
    if crate::snapshot::store::is_valid_name(name) {
        assert forall|i: int| 0 <= i < name.len() implies word_char(#[trigger] name[i])
            || name[i] == '.' || name[i] == '-' by {
            assert(crate::snapshot::store::is_name_char(name[i]));
        }
    }
    if good_name(name) {
        assert forall|i: int| 0 <= i < name.len() implies crate::snapshot::store::is_name_char(
            #[trigger] name[i],
        ) by {
            assert(word_char(name[i]) || name[i] == '.' || name[i] == '-');
        }
    }
}

// --------------------------------------------------------------------- listing

spec fn snapshot_positions(files: Seq<Seq<char>>) -> Seq<int>
    decreases files.len(),
{
    if files.len() == 0 {
        Seq::empty()
    } else {
        let earlier = snapshot_positions(files.drop_last());
        if is_snapshot_file(files.last()) {
            earlier.push(files.len() - 1)
        } else {
            earlier
        }
    }
}

proof fn lemma_snapshot_positions(files: Seq<Seq<char>>)
    ensures
        snapshot_positions(files).len() == snapshot_stems(files).len(),
        forall|k: int|
            0 <= k < snapshot_positions(files).len() ==> {
                let p = #[trigger] snapshot_positions(files)[k];
                &&& 0 <= p < files.len()
                &&& is_snapshot_file(files[p])
                &&& snapshot_stems(files)[k] == stem(files[p])
            },
        forall|j: int, k: int|
            0 <= j < k < snapshot_positions(files).len() ==> #[trigger] snapshot_positions(files)[j]
                < #[trigger] snapshot_positions(files)[k],
        forall|p: int|
            0 <= p < files.len() && is_snapshot_file(#[trigger] files[p]) ==> snapshot_positions(
                files,
            ).contains(p),
    decreases files.len(),
{
    reveal(Seq::filter);
    let test = |f: Seq<char>| is_snapshot_file(f);
    let cut = |f: Seq<char>| stem(f);
    if files.len() > 0 {
        let front = files.drop_last();
        lemma_snapshot_positions(front);
        let all = snapshot_positions(files);
        if is_snapshot_file(files.last()) {
            assert(front.filter(test).push(files.last()).map_values(cut) =~= snapshot_stems(
                front,
            ).push(stem(files.last())));
            assert(all[all.len() - 1] == files.len() - 1);
        }
        assert forall|p: int| 0 <= p < files.len() && is_snapshot_file(
            #[trigger] files[p],
        ) implies all.contains(p) by {
            if p < files.len() - 1 {
                assert(front[p] == files[p]);
                let k = choose|k: int|
                    0 <= k < snapshot_positions(front).len() && snapshot_positions(front)[k] == p;
                assert(all[k] == p);
            }
        }
    }
}

/// A file holds a snapshot of a name: the name with an ending.
pub open spec fn holds(file: Seq<char>, name: Seq<char>) -> bool {
    name.len() > 0 && file == name + ".toml"@
}

/// The names are those of the files at some positions, each position once,
/// and no file that holds a snapshot is left out.
pub open spec fn are_names_of(names: Seq<String>, files: Seq<String>, at: Seq<int>) -> bool {
    &&& at.len() == names.len()
    &&& at.no_duplicates()
    &&& forall|k: int|
        0 <= k < at.len() ==> 0 <= #[trigger] at[k] < files.len() && holds(
            files[at[k]]@,
            names[k]@,
        )
    &&& forall|p: int, name: Seq<char>|
        0 <= p < files.len() && #[trigger] holds(files[p]@, name) ==> at.contains(p)
}

/// The snapshots among some files are listed by their names, each file once,
/// in the order of their characters; other files are not listed.
pub proof fn law_snapshots_are_listed(files: Vec<String>, r: Vec<String>)
    requires
        call_ensures(list_snapshots, (&files,), r),
    ensures
        exists|at: Seq<int>| are_names_of(r@, files@, at),
        forall|i: int, j: int|
            0 <= i < j < r@.len() ==> !text_before((#[trigger] r@[j])@, (#[trigger] r@[i])@),
{
    reveal_strlit(".toml");
    let all = views(files@);
    let stems = snapshot_stems(all);
    let rows = snapshot_positions(all);
    lemma_snapshot_positions(all);
    let order = choose|order: Seq<usize>| #[trigger]
        is_permutation(order, stems.len()) && views(r@) == order.map_values(
            |i: usize| stems[i as int],
        );
    let at = Seq::new(order.len(), |k: int| rows[order[k] as int]);
    assert(views(r@).len() == r@.len());
    assert forall|k: int| 0 <= k < at.len() implies 0 <= #[trigger] at[k] < files@.len() && holds(
        files@[at[k]]@,
        r@[k]@,
    ) by {
        let p = rows[order[k] as int];
        assert(views(r@)[k] == stems[order[k] as int]);
        let file = all[p];
        assert(file =~= file.take(file.len() - 5) + file.skip(file.len() - 5));
    }
    assert(at.no_duplicates()) by {
        assert forall|j: int, k: int| 0 <= j < k < at.len() implies at[j] != at[k] by {
            assert(order[j] != order[k]);
            if order[j] < order[k] {
                assert(rows[order[j] as int] < rows[order[k] as int]);
            } else {
                assert(rows[order[k] as int] < rows[order[j] as int]);
            }
        }
    }
    assert forall|p: int, name: Seq<char>|
        0 <= p < files@.len() && #[trigger] holds(files@[p]@, name) implies at.contains(p) by {
        let file = all[p];
        assert(file.skip(file.len() - 5) =~= ".toml"@);
        assert(is_snapshot_file(all[p]));
        let k = choose|k: int| 0 <= k < rows.len() && rows[k] == p;
        lemma_permutation(order, stems.len(), k);
        let i = choose|i: int| 0 <= i < order.len() && #[trigger] order[i] == k;
        assert(at[i] == p);
    }
    assert(are_names_of(r@, files@, at));
    assert forall|i: int, j: int| 0 <= i < j < r@.len() implies !text_before(
        (#[trigger] r@[j])@,
        (#[trigger] r@[i])@,
    ) by {
        assert(views(r@)[i] == r@[i]@);
        assert(views(r@)[j] == r@[j]@);
    }
}

proof fn lemma_permutation(order: Seq<usize>, n: nat, k: int)
    requires
        is_permutation(order, n),
        0 <= k < n,
    ensures
        exists|i: int| 0 <= i < order.len() && #[trigger] order[i] == k,
{
    let s = order.map_values(|i: usize| i as int);
    assert forall|i: int, j: int| 0 <= i < s.len() && 0 <= j < s.len() && i != j implies s[i]
        != s[j] by {
        assert(order[i] != order[j]);
    }
    s.unique_seq_to_set();
    vstd::set_lib::lemma_int_range(0, n as int);
    assert(s.to_set().subset_of(vstd::set_lib::set_int_range(0, n as int))) by {
        assert forall|x: int| s.to_set().contains(x) implies 0 <= x < n by {
            let i = choose|i: int| 0 <= i < s.len() && s[i] == x;
            assert(order[i] < n);
        }
    }
    vstd::set_lib::lemma_subset_equality(s.to_set(), vstd::set_lib::set_int_range(0, n as int));
    assert(s.to_set().contains(k));
    let i = choose|i: int| 0 <= i < s.len() && s[i] == k;
    assert(order[i] == k);
}

// ------------------------------------------------------------------------ logs

/// The positions of the logs among some files.
pub open spec fn log_set(files: Seq<LogFile>) -> Set<int> {
    Set::new(|k: int| 0 <= k < files.len() && begins_with(files[k].name@, "iris.log"@))
}

proof fn lemma_log_set(files: Seq<LogFile>)
    requires
        files.len() <= usize::MAX,
    ensures
        log_positions(files).map_values(|i: usize| i as int).no_duplicates(),
        log_positions(files).map_values(|i: usize| i as int).to_set() == log_set(files),
        forall|k: int|
            0 <= k < log_positions(files).len() ==> (#[trigger] log_positions(files)[k])
                < files.len(),
    decreases files.len(),
{
    let cast = |i: usize| i as int;
    let rows = log_positions(files).map_values(cast);
    if files.len() > 0 {
        let front = files.drop_last();
        lemma_log_set(front);
        let before = log_positions(front).map_values(cast);
        let last = files.last().name@;
        assert(is_log(last) <==> begins_with(last, "iris.log"@)) by {
            let start = "iris.log"@;
            if is_log(last) {
                assert forall|i: int| 0 <= i < start.len() implies #[trigger] last[i]
                    == start[i] by {
                    assert(last.take(start.len() as int)[i] == start[i]);
                }
            }
            if begins_with(last, start) {
                assert(last.take(start.len() as int) =~= start);
            }
        }
        let n = files.len() - 1;
        if is_log(last) {
            assert(rows =~= before.push(n));
            assert(!before.contains(n)) by {
                if before.contains(n) {
                    assert(before.to_set().contains(n));
                    assert(log_set(front).contains(n));
                }
            }
            assert forall|x: int| #[trigger] rows.to_set().contains(x) == log_set(files).contains(
                x,
            ) by {
                if rows.contains(x) && x != n {
                    let i = choose|i: int| 0 <= i < rows.len() && rows[i] == x;
                    assert(before[i] == x);
                    assert(before.to_set().contains(x));
                    assert(log_set(front).contains(x));
                    assert(front[x] == files[x]);
                }
                if log_set(files).contains(x) && x != n {
                    assert(front[x] == files[x]);
                    assert(log_set(front).contains(x));
                    assert(before.to_set().contains(x));
                    let i = choose|i: int| 0 <= i < before.len() && before[i] == x;
                    assert(rows[i] == x);
                }
                assert(rows[rows.len() - 1] == n);
            }
        } else {
            assert(rows =~= before);
            assert forall|x: int| #[trigger] rows.to_set().contains(x) == log_set(files).contains(
                x,
            ) by {
                assert(rows.to_set().contains(x) == log_set(front).contains(x));
                if 0 <= x < n {
                    assert(front[x] == files[x]);
                }
            }
        }
        assert(rows.to_set() =~= log_set(files));
    } else {
        assert(rows =~= Seq::<int>::empty());
        assert(rows.to_set() =~= log_set(files));
    }
}

/// Only logs are given up, each once; so many are kept as were asked for, or
/// all where there are no more; and none that is kept is older than one that
/// is given up.
pub proof fn law_oldest_logs_are_given_up(files: Vec<LogFile>, keep: usize, r: Vec<usize>)
    requires
        call_ensures(logs_to_prune, (&files, keep), r),
    ensures
        r@.no_duplicates(),
        forall|i: int|
            0 <= i < r@.len() ==> log_set(files@).contains((#[trigger] r@[i]) as int),
        log_set(files@).len() > keep ==> r@.len() + keep == log_set(files@).len(),
        log_set(files@).len() <= keep ==> r@.len() == 0,
        forall|i: int, k: usize|
            0 <= i < r@.len() && #[trigger] log_set(files@).contains(k as int) && !r@.contains(k)
                ==> files@[(#[trigger] r@[i]) as int].modified <= files@[k as int].modified,
{
    assert(files.len() == files@.len());
    let sorted = choose|sorted: Seq<usize>| #[trigger]
        are_logs_by_age(sorted, files@) && r@ == (if keep < sorted.len() {
            sorted.skip(keep as int)
        } else {
            Seq::empty()
        });
    lemma_log_set(files@);
    let rows = log_positions(files@);
    let cast = |i: usize| i as int;
    let all = rows.map_values(cast);
    all.unique_seq_to_set();
    let (keys, order) = choose|keys: Seq<AgeKey>, order: Seq<usize>|
        {
            &&& #[trigger] are_keys(keys, rows, files@)
            &&& #[trigger] is_stable_order(keys, order)
            &&& sorted == order.map_values(|i: usize| rows[i as int])
        };
    lemma_order_is_injective(keys, order);
    assert forall|i: int, j: int| 0 <= i < sorted.len() && 0 <= j < sorted.len() && i != j implies sorted[i]
        != sorted[j] by {
        assert(order[i] != order[j]);
        assert(all[order[i] as int] != all[order[j] as int]);
    }
    assert forall|i: int| 0 <= i < sorted.len() implies log_set(files@).contains(
        (#[trigger] sorted[i]) as int,
    ) by {
        assert(all[order[i] as int] == sorted[i] as int);
        assert(all.to_set().contains(sorted[i] as int));
    }
    assert forall|i: int| 0 <= i < r@.len() implies log_set(files@).contains(
        (#[trigger] r@[i]) as int,
    ) by {
        assert(r@[i] == sorted[i + keep]);
    }
    assert forall|i: int, k: usize|
        0 <= i < r@.len() && #[trigger] log_set(files@).contains(k as int) && !r@.contains(
            k,
        ) implies files@[(#[trigger] r@[i]) as int].modified <= files@[k as int].modified by {
        assert(all.to_set().contains(k as int));
        let m = choose|m: int| 0 <= m < all.len() && all[m] == k as int;
        lemma_permutation(order, keys.len(), m);
        let p = choose|p: int| 0 <= p < order.len() && #[trigger] order[p] == m;
        assert(sorted[p] == k);
        if p >= keep {
            assert(r@[p - keep] == k);
        }
        law_newest_logs_are_kept(sorted, files@, p, i + keep);
    }
}

/// The platform's directory for state is used where there is one.
pub proof fn law_state_directory(platform: Option<String>, data: String, r: String)
    requires
        call_ensures(state_dir, (platform, data), r),
        data@.len() > 0 && data@.last() != '/',
    ensures
        platform matches Some(d) ==> r@ == d@,
        platform is None ==> r@ == data@ + "/logs"@,
{
    reveal_strlit("/");
    reveal_strlit("logs");
    reveal_strlit("/logs");
    assert("/"@ + "logs"@ =~= "/logs"@);
    assert(data@ + "/"@ + "logs"@ =~= data@ + "/logs"@);
}

// -------------------------------------------------------------------- settings

/// A name that a variable may have.
pub open spec fn good_key(s: Seq<char>) -> bool {
    s.len() > 0 && forall|i: int| 0 <= i < s.len() ==> word_char(#[trigger] s[i])
}

/// A setting is a name, an equals sign and a value; it is read as these, the
/// value being whatever follows the first equals sign.
pub proof fn law_settings_are_read(
    s: &str,
    key: Seq<char>,
    value: Seq<char>,
    r: Result<(String, String), String>,
)
    requires
        call_ensures(parse_var, (s,), r),
    ensures
        s@ == key + seq!['='] + value && good_key(key) ==> (r matches Ok(kv) && kv.0@ == key
            && kv.1@ == value),
        r matches Ok(kv) ==> s@ == kv.0@ + seq!['='] + kv.1@ && good_key(kv.0@),
        !s@.contains('=') ==> (r matches Err(e) && e@ == "--var value "@ + debug_text(s@)
            + " must be KEY=VALUE"@),
        s@.len() > 0 && s@[0] == '=' ==> (r matches Err(e) && e@ == "--var value "@ + debug_text(s@)
            + " has empty key"@),
{
    let sign = |c: char| c == '=';
    if !s@.contains('=') {
        crate::seqs::lemma_no_first_index(s@, sign);
    }
    if s@.len() > 0 && s@[0] == '=' {
        crate::seqs::lemma_first_index(s@, sign, 0);
    }
    if s@ == key + seq!['='] + value && good_key(key) {
        assert forall|i: int| 0 <= i < key.len() implies crate::snapshot::is_key_char(
            #[trigger] key[i],
        ) by {
            assert(word_char(key[i]));
        }
        law_setting_is_read_back(key, value);
    }
    if let Ok(kv) = r {
        let i = crate::snapshot::first_equals(s@)->0;
        crate::seqs::lemma_first_index_is_first(s@, |c: char| c == '=');
        assert(s@ =~= s@.take(i) + seq!['='] + s@.skip(i + 1));
        assert forall|k: int| 0 <= k < kv.0@.len() implies word_char(#[trigger] kv.0@[k]) by {
            assert(crate::snapshot::is_key_char(kv.0@[k]));
        }
    }
}

/// An answer means yes where, blanks aside, it is one of four words.
pub proof fn law_answers_that_mean_yes(line: &str, r: bool)
    requires
        call_ensures(confirmed, (line,), r),
    ensures
        r <==> lies_between_blanks(line@, "y"@) || lies_between_blanks(line@, "Y"@)
            || lies_between_blanks(line@, "yes"@) || lies_between_blanks(line@, "YES"@),
{
    reveal_strlit("y");
    reveal_strlit("Y");
    reveal_strlit("yes");
    reveal_strlit("YES");
    lemma_trimmed_lies_between(line@);
    if lies_between_blanks(line@, "y"@) {
        lemma_trimmed_is(line@, "y"@);
    }
    if lies_between_blanks(line@, "Y"@) {
        lemma_trimmed_is(line@, "Y"@);
    }
    if lies_between_blanks(line@, "yes"@) {
        lemma_trimmed_is(line@, "yes"@);
    }
    if lies_between_blanks(line@, "YES"@) {
        lemma_trimmed_is(line@, "YES"@);
    }
}

/// The editor that a variable names comes first, then the known ones in turn;
/// a variable that is set to nothing names none.
pub proof fn law_editor_is_chosen(
    editor: Option<String>,
    visual: Option<String>,
    nvim: bool,
    vim: bool,
    vi: bool,
    nano: bool,
    r: Result<String, String>,
)
    requires
        call_ensures(resolve_editor, (editor, visual, nvim, vim, vi, nano), r),
    ensures
        ({
            let first = editor matches Some(e) && e@.len() > 0;
            let second = visual matches Some(v) && v@.len() > 0;
            &&& first ==> (r matches Ok(e) && e@ == editor->0@)
            &&& !first && second ==> (r matches Ok(e) && e@ == visual->0@)
            &&& !first && !second ==> {
                &&& nvim ==> (r matches Ok(e) && e@ == "nvim"@)
                &&& !nvim && vim ==> (r matches Ok(e) && e@ == "vim"@)
                &&& !nvim && !vim && vi ==> (r matches Ok(e) && e@ == "vi"@)
                &&& !nvim && !vim && !vi && nano ==> (r matches Ok(e) && e@ == "nano"@)
                &&& !nvim && !vim && !vi && !nano ==> r is Err
            }
        }),
{
}

/// Snapshots of the first version are accepted as they are, and no others.
pub proof fn law_one_version_is_accepted(s: Snapshot, r: Result<Snapshot, String>)
    requires
        call_ensures(Snapshot::check_version, (s,), r),
    ensures
        r is Ok <==> s.version == 1,
        r matches Ok(t) ==> t == s,
        r matches Err(e) ==> e@ == "snapshot version "@ + decimal(s.version as nat)
            + " not supported (expected "@ + decimal(1) + ")"@,
{
}

/// The interval that was configured is used; an interval of zero is raised,
/// and without a configuration there is a default.
pub proof fn law_interval_is_used(read: Option<Config>, r: Config)
    requires
        call_ensures(load, (read,), r),
    ensures
        r.focus.sample_interval_ms > 0,
        read matches Some(c) ==> (c.focus.sample_interval_ms > 0 ==> r.focus.sample_interval_ms
            == c.focus.sample_interval_ms),
        read matches Some(c) ==> (c.focus.sample_interval_ms == 0 ==> r.focus.sample_interval_ms
            == 50),
        read is None ==> r.focus.sample_interval_ms == 300,
{
}

/// One switch forces notices and the other suppresses them; both or neither
/// leave it to the terminal: they are shown where it would not be seen.
pub proof fn law_switches_decide_about_notices(
    toast: bool,
    no_toast: bool,
    m: EmitMode,
    stored: u8,
    terminal: bool,
    r: bool,
)
    requires
        call_ensures(mode_from_flags, (toast, no_toast), m),
        exists|s: &mut u8| #[trigger] call_ensures(set_mode, (s, m), ()) && *final(s) == stored,
        call_ensures(should_emit, (stored, terminal), r),
    ensures
        toast && !no_toast ==> r,
        !toast && no_toast ==> !r,
        toast == no_toast ==> r == !terminal,
{
}

// ---------------------------------------------------------------------- bridge

/// A client looks for the bridge where the bridge listens.
pub proof fn law_client_finds_the_bridge(
    from_env: Option<String>,
    fallback: Option<String>,
    dir: Result<String, String>,
    d: &str,
    listens: String,
    looks: Result<String, String>,
)
    requires
        call_ensures(runtime_dir, (from_env, fallback), dir),
        dir matches Ok(s) ==> s@ == d@,
        call_ensures(socket_path, (d,), listens),
        call_ensures(default_socket_path, (from_env, fallback), looks),
    ensures
        dir is Ok <==> from_env is Some || fallback is Some,
        from_env matches Some(e) ==> (dir matches Ok(s) && s@ == e@),
        from_env is None ==> (fallback matches Some(e) ==> (dir matches Ok(s) && s@ == e@)),
        looks is Ok <==> dir is Ok,
        looks matches Ok(path) ==> path@ == listens@,
        d@.len() > 0 && d@.last() != '/' ==> listens@ == d@ + "/iris.sock"@,
{
    reveal_strlit("/");
    reveal_strlit("iris.sock");
    reveal_strlit("/iris.sock");
    assert("/"@ + "iris.sock"@ =~= "/iris.sock"@);
    assert(d@ + "/"@ + "iris.sock"@ =~= d@ + "/iris.sock"@);
}

/// A bridge finds the process id that another one wrote, and does not start
/// while that process is alive.
pub proof fn law_one_bridge_at_a_time(
    pid: u32,
    text: String,
    contents: &str,
    found: Option<i32>,
    alive: bool,
    r: Result<(), String>,
)
    requires
        0 < pid <= 0x7fff_ffff,
        call_ensures(pid_file_text, (pid,), text),
        contents@ == text@,
        call_ensures(recorded_pid, (Some(contents),), found),
        call_ensures(ensure_single_instance, (found, alive), r),
    ensures
        found == Some(pid as i32),
        r is Ok <==> !alive,
        r matches Err(e) ==> e@ == "another iris bridge is already running (pid "@ + signed_decimal(
            pid as int,
        ) + "); refusing to start"@,
{
    law_pid_file_round_trip(pid);
}

/// Without a recorded process the bridge starts.
pub proof fn law_first_bridge_starts(alive: bool, found: Option<i32>, r: Result<(), String>)
    requires
        call_ensures(recorded_pid, (None,), found),
        call_ensures(ensure_single_instance, (found, alive), r),
    ensures
        r is Ok,
{
}

/// The wait for the first report of windows goes on until it came or the
/// deadline did; after it the wait lasts until nothing comes any more. A
/// broken channel ends it at any time, and so does the deadline.
pub proof fn law_warmup(w: Warmup, input: WarmupInput, r: Warmup, empty: bool, start: Warmup)
    requires
        call_ensures(Warmup::start, (empty,), start),
        call_ensures(Warmup::step, (w, &input), r),
    ensures
        empty ==> start is Waiting,
        !empty ==> start is Settling,
        w is Done ==> r is Done,
        input is Broken || input is Deadline ==> r is Done,
        w is Waiting ==> (input matches WarmupInput::Event(t) ==> r == if t@ == "windows"@ {
            Warmup::Settling
        } else {
            Warmup::Waiting
        }),
        w is Waiting && input is Quiet ==> r is Waiting,
        w is Settling && input is Event ==> r is Settling,
        w is Settling && input is Quiet ==> r is Done,
{
}

/// The bridge leaves its process id beside its socket.
pub proof fn law_pid_file_lies_beside_the_socket(dir: &str, r: String)
    requires
        call_ensures(pid_path, (dir,), r),
        dir@.len() > 0 && dir@.last() != '/',
    ensures
        r@ == dir@ + "/iris.pid"@,
{
    reveal_strlit("/");
    reveal_strlit("iris.pid");
    reveal_strlit("/iris.pid");
    assert("/"@ + "iris.pid"@ =~= "/iris.pid"@);
    assert(dir@ + "/"@ + "iris.pid"@ =~= dir@ + "/iris.pid"@);
}

/// The process id in a file is read whatever blanks stand around it, and only
/// where it is a number.
pub proof fn law_process_id_is_read(contents: &str, t: Seq<char>, r: Option<i32>)
    requires
        call_ensures(recorded_pid, (Some(contents),), r),
        lies_between_blanks(contents@, t),
        t.len() > 0,
        forall|i: int| 0 <= i < t.len() ==> !blank(#[trigger] t[i]),
    ensures
        only_digits(t) && number(t) <= 0x7fff_ffff ==> r == Some(number(t) as i32),
        t[0] != '+' && t[0] != '-' && !only_digits(t) ==> r is None,
{
    assert(!blank(t[t.len() - 1]));
    lemma_trimmed_is(contents@, t);
    lemma_digits(t);
    if only_digits(t) {
        assert(digit(t[0]));
    }
}

} // verus!
