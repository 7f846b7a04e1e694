//! Named snapshots of a workspace: saving its windows and restoring them.

pub mod hooks;
pub mod load;
pub mod matcher;
pub mod save;
pub mod schema;
pub mod store;
pub mod template;

use vstd::prelude::*;
use vstd::string::*;

use crate::seqs::{first_index, lemma_first_index, lemma_no_first_index};
use crate::text::{
    debug_text, from_chars, is_alnum, is_alnum_char, quoted, str_eq, to_chars, trim, trimmed,
};

verus! {

/// Arguments of `iris snapshot`.
#[derive(Debug)]
pub struct SnapshotArgs {
    pub command: SnapshotCmd,
}

/// What `iris snapshot` can do.
#[allow(inconsistent_fields)]
#[derive(Debug)]
pub enum SnapshotCmd {
    /// Save a workspace under a name: the one that is named, or the focused.
    Save { name: String, workspace: Option<String>, force: bool },
    /// Load a snapshot into a workspace: the one that is named, or the one
    /// with the saved index.
    Load {
        name: String,
        workspace: Option<String>,
        clear: bool,
        no_respawn: bool,
        timeout: Option<u64>,
        vars: Vec<(String, String)>,
    },
    /// List the snapshots.
    List,
    /// Print a snapshot.
    Show { name: String },
    /// Open a snapshot in an editor.
    Edit { name: String },
    /// Delete a snapshot, after asking.
    Delete { name: String, yes: bool },
}

// ------------------------------------------------------------------ variables

/// Where the first equals sign stands.
pub open spec fn first_equals(s: Seq<char>) -> Option<int> {
    first_index(s, |c: char| c == '=')
}

/// A character that the name of a variable may hold.
pub open spec fn is_key_char(c: char) -> bool {
    is_alnum(c) || c == '_'
}

/// A name that a variable may have.
pub open spec fn is_key(s: Seq<char>) -> bool {
    s.len() > 0 && forall|i: int| 0 <= i < s.len() ==> is_key_char(#[trigger] s[i])
}

/// What is wrong with the setting of a variable, if anything is.
pub open spec fn var_refusal(s: Seq<char>) -> Option<Seq<char>> {
    match first_equals(s) {
        None => Some("--var value "@ + debug_text(s) + " must be KEY=VALUE"@),
        Some(i) => if i == 0 {
            Some("--var value "@ + debug_text(s) + " has empty key"@)
        } else if !is_key(s.take(i)) {
            Some(
                "--var key "@ + debug_text(s.take(i))
                    + " must match [A-Za-z0-9_]+ (template placeholders only recognize \\w+ keys; hyphens or dots silently fail to substitute)"@,
            )
        } else {
            None
        },
    }
}

/// Reads the setting of a variable: its name, the first equals sign, its
/// value. The value may be empty and may hold equals signs; the name may hold
/// only what a placeholder can name.
pub fn parse_var(s: &str) -> (r: Result<(String, String), String>)
    ensures
        match var_refusal(s@) {
            Some(text) => r matches Err(e) && e@ == text,
            None => r matches Ok(kv) && kv.0@ == s@.take(first_equals(s@)->0) && kv.1@ == s@.skip(
                first_equals(s@)->0 + 1,
            ),
        },
{
    let ghost p = |c: char| c == '=';
    let v = to_chars(s);
    let mut i: usize = 0;
    while i < v.len() && v[i] != '='
        invariant
            p == (|c: char| c == '='),
            i <= v@.len(),
            forall|j: int| 0 <= j < i ==> !p(#[trigger] v@[j]),
        decreases v@.len() - i,
    {
        i += 1;
    }
    if i == v.len() {
        proof {
            lemma_no_first_index(v@, p);
        }
        let mut e = "--var value ".to_owned();
        e.append(quoted(s).as_str());
        e.append(" must be KEY=VALUE");
        return Err(e);
    }
    proof {
        lemma_first_index(v@, p, i as int);
    }
    if i == 0 {
        let mut e = "--var value ".to_owned();
        e.append(quoted(s).as_str());
        e.append(" has empty key");
        return Err(e);
    }
    let key = from_chars(&v, 0, i);
    assert(key@ =~= v@.take(i as int));
    let mut k: usize = 0;
    while k < i
        invariant
            k <= i <= v@.len(),
            v@ == s@,
            first_equals(s@) == Some(i as int),
            i > 0,
            key@ == v@.take(i as int),
            forall|j: int| 0 <= j < k ==> is_key_char(#[trigger] v@[j]),
        decreases i - k,
    {
        let c = v[k];
        if !(is_alnum_char(c) || c == '_') {
            assert(!is_key_char(key@[k as int]));
            let mut e = "--var key ".to_owned();
            e.append(quoted(key.as_str()).as_str());
            e.append(
                " must match [A-Za-z0-9_]+ (template placeholders only recognize \\w+ keys; hyphens or dots silently fail to substitute)",
            );
            return Err(e);
        }
        k += 1;
    }
    assert forall|j: int| 0 <= j < key@.len() implies is_key_char(#[trigger] key@[j]) by {
        assert(is_key_char(v@[j]));
    }
    let value = from_chars(&v, i + 1, v.len());
    assert(value@ =~= v@.skip(i + 1));
    Ok((key, value))
}

/// A setting that is put together from a name and a value is read back as
/// they were, whatever the value holds.
pub proof fn law_setting_is_read_back(key: Seq<char>, value: Seq<char>)
    requires
        is_key(key),
    ensures
        var_refusal(key + seq!['='] + value) is None,
        first_equals(key + seq!['='] + value) == Some(key.len() as int),
        (key + seq!['='] + value).take(key.len() as int) == key,
        (key + seq!['='] + value).skip(key.len() as int + 1) == value,
{
    let s = key + seq!['='] + value;
    let p = |c: char| c == '=';
    assert forall|j: int| 0 <= j < key.len() implies !p(#[trigger] s[j]) by {
        assert(is_key_char(key[j]));
        assert(s[j] == key[j]);
    }
    assert(s[key.len() as int] == '=');
    lemma_first_index(s, p, key.len() as int);
    assert(s.take(key.len() as int) =~= key);
    assert(s.skip(key.len() as int + 1) =~= value);
}

// --------------------------------------------------------------------- asking

/// The answers that mean yes.
pub open spec fn is_yes(line: Seq<char>) -> bool {
    let t = trimmed(line);
    t == "y"@ || t == "Y"@ || t == "yes"@ || t == "YES"@
}

/// The answer to a question means yes.
pub fn confirmed(line: &str) -> (r: bool)
    ensures
        r == is_yes(line@),
{
    let t = trim(line);
    let s = from_chars(&t, 0, t.len());
    assert(t@.subrange(0, t@.len() as int) =~= t@);
    str_eq(s.as_str(), "y") || str_eq(s.as_str(), "Y") || str_eq(s.as_str(), "yes") || str_eq(
        s.as_str(),
        "YES",
    )
}

/// The variable is set, and not to nothing.
pub open spec fn is_set(o: Option<String>) -> bool {
    o matches Some(s) && s@.len() > 0
}

/// The editor to use: the one that the first variable names, or the second,
/// or the first of the known ones that is installed.
pub fn resolve_editor(
    editor: Option<String>,
    visual: Option<String>,
    has_nvim: bool,
    has_vim: bool,
    has_vi: bool,
    has_nano: bool,
) -> (r: Result<String, String>)
    ensures
        if is_set(editor) {
            r == Ok::<String, String>(editor->0)
        } else if is_set(visual) {
            r == Ok::<String, String>(visual->0)
        } else if has_nvim {
            r matches Ok(e) && e@ == "nvim"@
        } else if has_vim {
            r matches Ok(e) && e@ == "vim"@
        } else if has_vi {
            r matches Ok(e) && e@ == "vi"@
        } else if has_nano {
            r matches Ok(e) && e@ == "nano"@
        } else {
            r matches Err(e) && e@
                == "no editor found: set $EDITOR or install one of nvim/vim/vi/nano on PATH"@
        },
{
    match editor {
        Some(e) => if e.as_str().unicode_len() > 0 {
            return Ok(e);
        },
        None => {},
    }
    match visual {
        Some(v) => if v.as_str().unicode_len() > 0 {
            return Ok(v);
        },
        None => {},
    }
    if has_nvim {
        Ok("nvim".to_owned())
    } else if has_vim {
        Ok("vim".to_owned())
    } else if has_vi {
        Ok("vi".to_owned())
    } else if has_nano {
        Ok("nano".to_owned())
    } else {
        Err("no editor found: set $EDITOR or install one of nvim/vim/vi/nano on PATH".to_owned())
    }
}

} // verus!
