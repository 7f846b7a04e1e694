//! The hook of last resort: it matches anything. The record is the command
//! line and the working directory of the process.

use vstd::prelude::*;
use vstd::string::*;
use vstd::utf8::*;

use crate::bridge::proto::Window;
use crate::snapshot::hooks::{
    three, wrong_variant, AppHook, Facts, HookError, HookView, Need, Outcome,
};
use crate::snapshot::schema::HookData;
use crate::text::{clone_strings, opt_view, signed_decimal, to_chars, views};

verus! {

/// The hook of last resort.
pub struct GenericHook;

// --------------------------------------------------------------- command lines

/// The text that lossy decoding gives for bytes.
pub uninterp spec fn lossy_text(bytes: Seq<u8>) -> Seq<char>;

/// `String::from_utf8_lossy`: bytes that are valid UTF-8 are decoded; what is
/// not valid is replaced. The text depends on the bytes alone; what exactly a
/// replacement covers is not stated.
#[verifier::external_body]
fn decode_lossy(bytes: &[u8]) -> (r: String)
    ensures
        r@ == lossy_text(bytes@),
        valid_utf8(bytes@) ==> r@ == decode_utf8(bytes@),
{
    String::from_utf8_lossy(bytes).into_owned()
}

/// The arguments of a command line, each of which ends in a zero byte, and
/// what follows the last zero byte. An argument may be empty.
pub open spec fn scanned(bytes: Seq<u8>) -> (Seq<Seq<u8>>, Seq<u8>)
    decreases bytes.len(),
{
    if bytes.len() == 0 {
        (Seq::empty(), Seq::empty())
    } else {
        let (done, open) = scanned(bytes.drop_last());
        if bytes.last() != 0 {
            (done, open.push(bytes.last()))
        } else {
            (done.push(open), Seq::empty())
        }
    }
}

/// The arguments of a command line: what stands in front of each zero byte,
/// and what follows the last one, unless nothing does.
pub open spec fn arguments(bytes: Seq<u8>) -> Seq<Seq<u8>> {
    let (done, open) = scanned(bytes);
    if open.len() > 0 {
        done.push(open)
    } else {
        done
    }
}

/// The texts of the arguments of a command line.
pub open spec fn argument_texts(bytes: Seq<u8>) -> Seq<Seq<char>> {
    arguments(bytes).map_values(|a: Seq<u8>| lossy_text(a))
}

/// Arguments that are valid UTF-8 are decoded as they are.
pub open spec fn are_decoded(args: Seq<Seq<u8>>, texts: Seq<String>) -> bool {
    forall|i: int|
        0 <= i < args.len() && valid_utf8(#[trigger] args[i]) ==> texts[i]@ == decode_utf8(args[i])
}

/// Splits a command line into its arguments. An argument that is valid UTF-8
/// is read as it is.
pub fn parse_cmdline(bytes: &Vec<u8>) -> (r: Vec<String>)
    ensures
        views(r@) == argument_texts(bytes@),
        are_decoded(arguments(bytes@), r@),
{
    let mut done: Vec<String> = Vec::new();
    let mut open: Vec<u8> = Vec::new();
    let mut i: usize = 0;
    let ghost text = |a: Seq<u8>| lossy_text(a);
    assert(bytes@.take(0).len() == 0);
    assert(views(done@) =~= scanned(bytes@.take(0)).0.map_values(text));
    while i < bytes.len()
        invariant
            i <= bytes@.len(),
            text == (|a: Seq<u8>| lossy_text(a)),
            views(done@) == scanned(bytes@.take(i as int)).0.map_values(text),
            are_decoded(scanned(bytes@.take(i as int)).0, done@),
            done@.len() == scanned(bytes@.take(i as int)).0.len(),
            open@ == scanned(bytes@.take(i as int)).1,
        decreases bytes@.len() - i,
    {
        let ghost before = done@;
        let ghost piece = open@;
        assert(bytes@.take(i + 1).drop_last() =~= bytes@.take(i as int));
        let b: u8 = bytes[i];
        if b != 0 {
            open.push(b);
        } else {
            done.push(decode_lossy(open.as_slice()));
            open = Vec::new();
            proof {
                let parts = scanned(bytes@.take(i as int)).0;
                assert(views(done@) =~= views(before).push(lossy_text(piece)));
                assert(parts.push(piece).map_values(text) =~= parts.map_values(text).push(
                    lossy_text(piece),
                ));
                assert(open@ =~= Seq::empty());
            }
        }
        i += 1;
    }
    assert(bytes@.take(bytes@.len() as int) =~= bytes@);
    if open.len() > 0 {
        let ghost before = done@;
        let ghost piece = open@;
        done.push(decode_lossy(open.as_slice()));
        proof {
            let parts = scanned(bytes@).0;
            assert(views(done@) =~= views(before).push(lossy_text(piece)));
            assert(parts.push(piece).map_values(text) =~= parts.map_values(text).push(
                lossy_text(piece),
            ));
        }
    }
    done
}

// --------------------------------------------------------------------- quoting

/// A text as it stands between single quotes of a shell: a single quote ends
/// the quotes, is written with a backslash, and opens them again.
pub open spec fn shell_escaped(s: Seq<char>) -> Seq<char>
    decreases s.len(),
{
    if s.len() == 0 {
        Seq::empty()
    } else if s.last() == '\'' {
        shell_escaped(s.drop_last()) + seq!['\'', '\\', '\'', '\'']
    } else {
        shell_escaped(s.drop_last()).push(s.last())
    }
}

/// A text as one word of a shell script.
pub open spec fn shell_word(s: Seq<char>) -> Seq<char> {
    seq!['\''] + shell_escaped(s) + seq!['\'']
}

/// A text as one word of a shell script.
pub fn shell_quote(s: &str) -> (r: String)
    ensures
        r@ == shell_word(s@),
{
    let v = to_chars(s);
    let mut out = String::new();
    out.push('\'');
    let mut i: usize = 0;
    assert(out@ =~= seq!['\''] + shell_escaped(v@.take(0)));
    while i < v.len()
        invariant
            i <= v@.len(),
            out@ == seq!['\''] + shell_escaped(v@.take(i as int)),
        decreases v@.len() - i,
    {
        assert(v@.take(i + 1).drop_last() =~= v@.take(i as int));
        if v[i] == '\'' {
            out.push('\'');
            out.push('\\');
            out.push('\'');
            out.push('\'');
        } else {
            out.push(v[i]);
        }
        i += 1;
        assert(out@ =~= seq!['\''] + shell_escaped(v@.take(i as int)));
    }
    assert(v@.take(v@.len() as int) =~= v@);
    out.push('\'');
    assert(out@ =~= shell_word(s@));
    out
}

/// The words of a command line, with blanks between them.
pub open spec fn shell_words(argv: Seq<Seq<char>>) -> Seq<char>
    decreases argv.len(),
{
    if argv.len() == 0 {
        Seq::empty()
    } else if argv.len() == 1 {
        shell_word(argv[0])
    } else {
        shell_words(argv.drop_last()) + seq![' '] + shell_word(argv.last())
    }
}

fn join_words(argv: &Vec<String>) -> (r: String)
    ensures
        r@ == shell_words(views(argv@)),
{
    let mut out = String::new();
    let mut i: usize = 0;
    assert(out@ =~= shell_words(views(argv@).take(0)));
    while i < argv.len()
        invariant
            i <= argv@.len(),
            out@ == shell_words(views(argv@).take(i as int)),
        decreases argv@.len() - i,
    {
        if i > 0 {
            out.push(' ');
        }
        out.append(shell_quote(argv[i].as_str()).as_str());
        i += 1;
        proof {
            let more = views(argv@).take(i as int);
            assert(more.drop_last() =~= views(argv@).take(i - 1));
            assert(out@ =~= shell_words(more));
        }
    }
    assert(views(argv@).take(argv@.len() as int) =~= views(argv@));
    out
}

/// The script that enters a directory and becomes the command.
pub open spec fn script(cwd: Seq<char>, argv: Seq<Seq<char>>) -> Seq<char> {
    "cd "@ + shell_word(cwd) + " && exec "@ + shell_words(argv)
}

impl AppHook for GenericHook {
    open spec fn label(&self) -> Seq<char> {
        "generic"@
    }

    open spec fn handles(&self, app_id: Option<Seq<char>>) -> bool {
        true
    }

    open spec fn need(&self, w: Window) -> Outcome<Need> {
        match w.pid {
            None => Outcome::Failed("window has no pid; can't capture argv"@),
            Some(pid) => Outcome::Done(Need::Process(pid)),
        }
    }

    open spec fn record(&self, w: Window, facts: Facts) -> Outcome<HookView> {
        let argv = argument_texts(facts->cmdline@);
        if argv.len() == 0 {
            Outcome::Failed(
                "/proc/"@ + signed_decimal(w.pid->0 as int)
                    + "/cmdline is empty (kernel thread or zombie?)"@,
            )
        } else {
            Outcome::Done(HookView::Generic { argv, cwd: opt_view(facts->cwd) })
        }
    }

    open spec fn argv(&self, data: HookView) -> Outcome<Seq<Seq<char>>> {
        match data {
            HookView::Generic { argv, cwd } => if argv.len() == 0 {
                Outcome::Failed("HookData::Generic has empty argv; nothing to spawn"@)
            } else {
                match cwd {
                    Some(cwd) => Outcome::Done(seq!["sh"@, "-lc"@, script(cwd, argv)]),
                    None => Outcome::Done(argv),
                }
            },
            _ => Outcome::Failed(wrong_variant("GenericHook"@, "non-Generic"@)),
        }
    }

    fn name(&self) -> &'static str {
        "generic"
    }

    fn matches(&self, app_id: Option<&str>) -> bool {
        true
    }

    fn plan_capture(&self, w: &Window) -> Result<Need, HookError> {
        match w.pid {
            None => Err(HookError::NoPid("window has no pid; can't capture argv".to_owned())),
            Some(pid) => Ok(Need::Process(pid)),
        }
    }

    fn finish_capture(&self, w: &Window, facts: Facts) -> Result<HookData, HookError> {
        match (w.pid, facts) {
            (Some(pid), Facts::Process { cmdline, cwd }) => {
                let argv = parse_cmdline(&cmdline);
                if argv.len() == 0 {
                    return Err(HookError::EmptyCmdline(pid));
                }
                Ok(HookData::Generic { argv, cwd })
            },
            _ => Err(HookError::Outside("GenericHook needs the process".to_owned())),
        }
    }

    fn build_argv(&self, data: &HookData) -> Result<Vec<String>, HookError> {
        match data {
            HookData::Generic { argv, cwd } => {
                if argv.len() == 0 {
                    return Err(
                        HookError::EmptyArgv("HookData::Generic has empty argv; nothing to spawn"),
                    );
                }
                match cwd {
                    Some(cwd) => {
                        let mut s = "cd ".to_owned();
                        s.append(shell_quote(cwd.as_str()).as_str());
                        s.append(" && exec ");
                        s.append(join_words(argv).as_str());
                        Ok(three("sh", "-lc", s.as_str()))
                    },
                    None => Ok(clone_strings(argv)),
                }
            },
            _ => Err(HookError::WrongVariant { hook: "GenericHook", expects: "non-Generic" }),
        }
    }
}

// ------------------------------------------------------------------------ laws

/// How a shell takes the next character.
pub ghost enum ShellMode {
    /// Outside of quotes.
    Plain,
    /// Between single quotes.
    Quoted,
    /// After a backslash.
    Escaped,
    /// A character stood outside of quotes that may mean something else than
    /// itself.
    Unread,
}

/// What a shell has read: whole words, and the word that it is in.
pub ghost struct ShellRead {
    pub words: Seq<Seq<char>>,
    pub word: Option<Seq<char>>,
    pub mode: ShellMode,
}

/// The word so far.
pub open spec fn word_so_far(r: ShellRead) -> Seq<char> {
    match r.word {
        Some(w) => w,
        None => Seq::empty(),
    }
}

/// Reads one character, by the shell's rules for single quotes, backslashes
/// and blanks.
pub open spec fn shell_step(r: ShellRead, c: char) -> ShellRead {
    let w = word_so_far(r);
    match r.mode {
        ShellMode::Plain => if c == '\'' {
            ShellRead { word: Some(w), mode: ShellMode::Quoted, ..r }
        } else if c == '\\' {
            ShellRead { word: Some(w), mode: ShellMode::Escaped, ..r }
        } else if c == ' ' {
            match r.word {
                Some(_) => ShellRead { words: r.words.push(w), word: None, ..r },
                None => r,
            }
        } else {
            ShellRead { mode: ShellMode::Unread, ..r }
        },
        ShellMode::Quoted => if c == '\'' {
            ShellRead { mode: ShellMode::Plain, ..r }
        } else {
            ShellRead { word: Some(w.push(c)), ..r }
        },
        ShellMode::Escaped => ShellRead { word: Some(w.push(c)), mode: ShellMode::Plain, ..r },
        ShellMode::Unread => r,
    }
}

/// Reads a text.
pub open spec fn shell_read(s: Seq<char>) -> ShellRead
    decreases s.len(),
{
    if s.len() == 0 {
        ShellRead { words: Seq::empty(), word: None, mode: ShellMode::Plain }
    } else {
        shell_step(shell_read(s.drop_last()), s.last())
    }
}

proof fn lemma_read_push(s: Seq<char>, c: char)
    ensures
        shell_read(s.push(c)) == shell_step(shell_read(s), c),
{
    assert(s.push(c).drop_last() =~= s);
}

proof fn lemma_read_quoted(before: Seq<char>, s: Seq<char>)
    requires
        shell_read(before).mode is Plain,
        shell_read(before).word is None,
    ensures
        shell_read(before + seq!['\''] + shell_escaped(s)) == (ShellRead {
            words: shell_read(before).words,
            word: Some(s),
            mode: ShellMode::Quoted,
        }),
    decreases s.len(),
{
    let head = before + seq!['\''];
    if s.len() == 0 {
        assert(head + shell_escaped(s) =~= before.push('\''));
        lemma_read_push(before, '\'');
        assert(s =~= Seq::empty());
    } else {
        let front = s.drop_last();
        lemma_read_quoted(before, front);
        let x = head + shell_escaped(front);
        if s.last() == '\'' {
            assert(head + shell_escaped(s) =~= x.push('\'').push('\\').push('\'').push('\''));
            lemma_read_push(x, '\'');
            lemma_read_push(x.push('\''), '\\');
            lemma_read_push(x.push('\'').push('\\'), '\'');
            lemma_read_push(x.push('\'').push('\\').push('\''), '\'');
        } else {
            assert(head + shell_escaped(s) =~= x.push(s.last()));
            lemma_read_push(x, s.last());
        }
        assert(front.push(s.last()) =~= s);
    }
}

proof fn lemma_read_word(before: Seq<char>, s: Seq<char>)
    requires
        shell_read(before).mode is Plain,
        shell_read(before).word is None,
    ensures
        shell_read(before + shell_word(s)) == (ShellRead {
            words: shell_read(before).words,
            word: Some(s),
            mode: ShellMode::Plain,
        }),
{
    lemma_read_quoted(before, s);
    let x = before + seq!['\''] + shell_escaped(s);
    assert(before + shell_word(s) =~= x.push('\''));
    lemma_read_push(x, '\'');
}

/// A shell reads a quoted text as one word: the text.
pub proof fn law_quoted_text_is_read_back(s: Seq<char>)
    ensures
        shell_read(shell_word(s)) == (ShellRead {
            words: Seq::empty(),
            word: Some(s),
            mode: ShellMode::Plain,
        }),
{
    lemma_read_word(Seq::empty(), s);
    assert(Seq::empty() + shell_word(s) =~= shell_word(s));
}

/// A shell reads a quoted command line as its arguments, one word for each.
pub proof fn law_quoted_argv_is_read_back(argv: Seq<Seq<char>>)
    requires
        argv.len() > 0,
    ensures
        shell_read(shell_words(argv)) == (ShellRead {
            words: argv.drop_last(),
            word: Some(argv.last()),
            mode: ShellMode::Plain,
        }),
    decreases argv.len(),
{
    if argv.len() == 1 {
        law_quoted_text_is_read_back(argv[0]);
        assert(argv.drop_last() =~= Seq::empty());
    } else {
        let front = argv.drop_last();
        law_quoted_argv_is_read_back(front);
        let x = shell_words(front);
        lemma_read_push(x, ' ');
        assert(front.drop_last().push(front.last()) =~= front);
        assert(x + seq![' '] =~= x.push(' '));
        lemma_read_word(x.push(' '), argv.last());
    }
}

proof fn lemma_scanned(bytes: Seq<u8>)
    ensures
        forall|i: int|
            0 <= i < scanned(bytes).0.len() ==> !(#[trigger] scanned(bytes).0[i]).contains(0u8),
        !scanned(bytes).1.contains(0u8),
        terminated(scanned(bytes).0) + scanned(bytes).1 == bytes,
    decreases bytes.len(),
{
    if bytes.len() > 0 {
        lemma_scanned(bytes.drop_last());
        let (done, open) = scanned(bytes.drop_last());
        assert(!open.push(bytes.last()).contains(0u8) || bytes.last() == 0) by {
            if open.push(bytes.last()).contains(0u8) {
                let k = choose|k: int|
                    0 <= k < open.push(bytes.last()).len() && open.push(bytes.last())[k] == 0u8;
                if k < open.len() {
                    assert(open[k] == 0u8);
                }
            }
        }
        assert(done.push(open).drop_last() =~= done);
        assert(bytes.drop_last().push(bytes.last()) =~= bytes);
    }
    assert(terminated(scanned(bytes).0) + scanned(bytes).1 =~= bytes);
}

/// No argument of a command line holds a zero byte.
pub proof fn law_arguments_are_whole(bytes: Seq<u8>)
    ensures
        forall|i: int|
            0 <= i < arguments(bytes).len() ==> !(#[trigger] arguments(bytes)[i]).contains(0u8),
{
    lemma_scanned(bytes);
}

/// Arguments as a command line: with a zero byte behind each.
pub open spec fn terminated(args: Seq<Seq<u8>>) -> Seq<u8>
    decreases args.len(),
{
    if args.len() == 0 {
        Seq::empty()
    } else {
        terminated(args.drop_last()) + args.last().push(0u8)
    }
}

/// Nothing of a command line is lost: its arguments, with a zero byte behind
/// each, are the command line again. A last zero byte that is missing is
/// supplied.
pub proof fn law_arguments_make_up_the_line(bytes: Seq<u8>)
    ensures
        bytes.len() == 0 || bytes.last() == 0u8 ==> terminated(arguments(bytes)) == bytes,
        bytes.len() > 0 && bytes.last() != 0u8 ==> terminated(arguments(bytes)) == bytes.push(0u8),
{
    lemma_scanned(bytes);
    let (done, open) = scanned(bytes);
    if open.len() > 0 {
        assert(done.push(open).drop_last() =~= done);
        assert(bytes.last() == open.last());
        assert(open.contains(open.last()));
        assert(terminated(arguments(bytes)) =~= bytes.push(0u8));
    } else {
        assert(terminated(done) + open =~= terminated(done));
    }
}

proof fn lemma_scan_run(before: Seq<u8>, run: Seq<u8>)
    requires
        scanned(before).1.len() == 0,
        !run.contains(0u8),
    ensures
        scanned(before + run) == (scanned(before).0, run),
    decreases run.len(),
{
    if run.len() == 0 {
        assert(before + run =~= before);
        assert(scanned(before).1 =~= run);
    } else {
        let front = run.drop_last();
        assert(!front.contains(0u8)) by {
            if front.contains(0u8) {
                let k = choose|k: int| 0 <= k < front.len() && front[k] == 0u8;
                assert(run[k] == 0u8);
            }
        }
        assert(run[run.len() - 1] != 0u8);
        lemma_scan_run(before, front);
        assert((before + run).drop_last() =~= before + front);
        assert(front.push(run.last()) =~= run);
    }
}

/// Splitting a command line undoes putting a zero byte behind each argument.
pub proof fn law_split_undoes_terminating(args: Seq<Seq<u8>>)
    requires
        forall|i: int| 0 <= i < args.len() ==> !(#[trigger] args[i]).contains(0u8),
    ensures
        arguments(terminated(args)) == args,
{
    lemma_terminated(args);
}

proof fn lemma_terminated(args: Seq<Seq<u8>>)
    requires
        forall|i: int| 0 <= i < args.len() ==> !(#[trigger] args[i]).contains(0u8),
    ensures
        scanned(terminated(args)).0 == args,
        scanned(terminated(args)).1.len() == 0,
    decreases args.len(),
{
    if args.len() == 0 {
        assert(args =~= Seq::empty());
    } else {
        let front = args.drop_last();
        assert forall|i: int| 0 <= i < front.len() implies !(#[trigger] front[i]).contains(
            0u8,
        ) by {
            assert(front[i] == args[i]);
        }
        lemma_terminated(front);
        let last = args[args.len() - 1];
        lemma_scan_run(terminated(front), last);
        let whole = terminated(args);
        assert(whole.drop_last() =~= terminated(front) + last);
        assert(whole.last() == 0u8);
        assert(front.push(last) =~= args);
    }
}

} // verus!
