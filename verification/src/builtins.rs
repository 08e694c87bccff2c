//! The built-in commands. Each reads its arguments, writes to the output
//! and error texts that the caller hands it, and says what is left to do
//! outside the shell's own state.

use vstd::prelude::*;
use crate::command::Builtin;
use crate::history::{listing, listing_start, History};
use crate::number::{parse_i32, parse_usize, signed_spec, unsigned_spec};
use crate::text::{chars_of, join_words, push_joined, push_text, same_text, texts};

verus! {

/// What is left to do after a built-in command ran.
#[derive(Debug, Clone, PartialEq, Eq)]
pub enum Outcome {
    /// Nothing.
    Done,
    /// Change the working directory to this path.
    ChangeDir(String),
    /// Flush the history and leave the shell with this status.
    Exit(i32),
    /// Write the working directory to the output.
    WorkingDir,
    /// Read this file and add its lines to the history.
    ReadHistory(String),
    /// Rewrite this file with every entry of the history.
    WriteHistory(String),
    /// Append to this file the entries that are not written yet.
    AppendHistory(String),
}

/// An outcome over character sequences.
pub enum OutcomeModel {
    Done,
    ChangeDir(Seq<char>),
    Exit(i32),
    WorkingDir,
    ReadHistory(Seq<char>),
    WriteHistory(Seq<char>),
    AppendHistory(Seq<char>),
}

impl View for Outcome {
    type V = OutcomeModel;

    open spec fn view(&self) -> OutcomeModel {
        match *self {
            Outcome::Done => OutcomeModel::Done,
            Outcome::ChangeDir(path) => OutcomeModel::ChangeDir(path@),
            Outcome::Exit(status) => OutcomeModel::Exit(status),
            Outcome::WorkingDir => OutcomeModel::WorkingDir,
            Outcome::ReadHistory(path) => OutcomeModel::ReadHistory(path@),
            Outcome::WriteHistory(path) => OutcomeModel::WriteHistory(path@),
            Outcome::AppendHistory(path) => OutcomeModel::AppendHistory(path@),
        }
    }
}

/// What a built-in command does: the text it writes to the output and to
/// the error sink, whether it empties the history, and what is left to do.
pub struct Effect {
    pub out: Seq<char>,
    pub err: Seq<char>,
    pub clears: bool,
    pub outcome: OutcomeModel,
}

/// The effect of writing nothing and leaving `outcome` to do.
pub open spec fn leaves(outcome: OutcomeModel) -> Effect {
    Effect { out: Seq::empty(), err: Seq::empty(), clears: false, outcome }
}

/// The effect of writing `text` to the output.
pub open spec fn prints(text: Seq<char>) -> Effect {
    Effect { out: text, err: Seq::empty(), clears: false, outcome: OutcomeModel::Done }
}

/// The effect of writing `text` to the error sink.
pub open spec fn reports(text: Seq<char>) -> Effect {
    Effect { out: Seq::empty(), err: text, clears: false, outcome: OutcomeModel::Done }
}

/// `echo`: the arguments joined by single spaces, and a newline.
pub open spec fn echo_effect(args: Seq<Seq<char>>) -> Effect {
    prints(join_words(args) + seq!['\n'])
}

/// `type`: nothing without an argument; else whether the first argument
/// names a built-in command, or the path found for it, or that none was
/// found.
pub open spec fn type_effect(args: Seq<Seq<char>>, found: Option<Seq<char>>) -> Effect {
    if args.len() == 0 {
        leaves(OutcomeModel::Done)
    } else if Builtin::named(args[0]) is Some {
        prints(args[0] + " is a shell builtin\n"@)
    } else {
        match found {
            Some(path) => prints(args[0] + " is "@ + path + seq!['\n']),
            None => reports(args[0] + ": not found\n"@),
        }
    }
}

/// The directory that `cd` changes to: its first argument, or the home
/// directory where that is `~` or missing, or `/` where no home is known.
pub open spec fn cd_target(args: Seq<Seq<char>>, home: Option<Seq<char>>) -> Seq<char> {
    if args.len() == 0 || args[0] == seq!['~'] {
        match home {
            Some(dir) => dir,
            None => seq!['/'],
        }
    } else {
        args[0]
    }
}

/// The status that `exit` leaves with: its first argument where that is a
/// number, else 0.
pub open spec fn exit_status(args: Seq<Seq<char>>) -> i32 {
    if args.len() == 0 {
        0
    } else {
        match signed_spec(args[0]) {
            Some(n) => n as i32,
            None => 0,
        }
    }
}

/// `history` with a flag that names a file: the file is left to read, to
/// rewrite or to append to; without the file's name the flag is refused.
pub open spec fn history_file_effect(args: Seq<Seq<char>>) -> Effect {
    if args.len() < 2 {
        reports("history: "@ + args[0] + ": option requires an argument\n"@)
    } else if args[0] == "-r"@ {
        leaves(OutcomeModel::ReadHistory(args[1]))
    } else if args[0] == "-w"@ {
        leaves(OutcomeModel::WriteHistory(args[1]))
    } else {
        leaves(OutcomeModel::AppendHistory(args[1]))
    }
}

/// `history`: without arguments the listing of every entry; `-c` empties
/// the history; `-r`, `-w` and `-a` name a file; any other flag is refused;
/// a number lists that many of the newest entries; anything else is
/// refused as no number.
pub open spec fn history_effect(args: Seq<Seq<char>>, entries: Seq<Seq<char>>) -> Effect {
    if args.len() == 0 {
        prints(listing(entries, 0, entries.len() as int))
    } else if args[0] == "-c"@ {
        Effect { out: Seq::empty(), err: Seq::empty(), clears: true, outcome: OutcomeModel::Done }
    } else if args[0] == "-r"@ || args[0] == "-w"@ || args[0] == "-a"@ {
        history_file_effect(args)
    } else if args[0].len() > 0 && args[0][0] == '-' {
        reports("history: "@ + args[0] + ": invalid option\n"@)
    } else {
        match unsigned_spec(args[0], usize::MAX as nat) {
            Some(n) => prints(
                listing(
                    entries,
                    listing_start(entries.len(), Some(n as usize)) as int,
                    entries.len() as int,
                ),
            ),
            None => reports("history: "@ + args[0] + ": numeric argument required\n"@),
        }
    }
}

/// What the built-in command `b` does with the given arguments, where the
/// history holds `entries`, the home directory is `home`, and the search
/// for the first argument among the executables gave `found`.
pub open spec fn builtin_effect(
    b: Builtin,
    args: Seq<Seq<char>>,
    entries: Seq<Seq<char>>,
    home: Option<Seq<char>>,
    found: Option<Seq<char>>,
) -> Effect {
    match b {
        Builtin::Cd => leaves(OutcomeModel::ChangeDir(cd_target(args, home))),
        Builtin::Echo => echo_effect(args),
        Builtin::Exit => leaves(OutcomeModel::Exit(exit_status(args))),
        Builtin::History => history_effect(args, entries),
        Builtin::Pwd => leaves(OutcomeModel::WorkingDir),
        Builtin::Type => type_effect(args, found),
    }
}

/// The view of an optional string.
pub open spec fn text_of(s: Option<String>) -> Option<Seq<char>> {
    match s {
        Some(t) => Some(t@),
        None => None,
    }
}

/// The names of the built-in commands.
pub fn all() -> (names: Vec<&'static str>)
    ensures
        names@.len() == 6,
        names@[0]@ == Builtin::Cd.spec_name(),
        names@[1]@ == Builtin::Echo.spec_name(),
        names@[2]@ == Builtin::Exit.spec_name(),
        names@[3]@ == Builtin::History.spec_name(),
        names@[4]@ == Builtin::Pwd.spec_name(),
        names@[5]@ == Builtin::Type.spec_name(),
{
    let mut names: Vec<&'static str> = Vec::new();
    names.push("cd");
    names.push("echo");
    names.push("exit");
    names.push("history");
    names.push("pwd");
    names.push("type");
    names
}

/// `echo`: writes the arguments, joined by single spaces, and a newline.
pub fn echo(args: &Vec<String>, stdout: &mut String, stderr: &mut String)
    ensures
        final(stdout)@ == old(stdout)@ + echo_effect(texts(args@)).out,
        final(stderr)@ == old(stderr)@,
{
    let ghost before = stdout@;
    push_joined(stdout, args);
    stdout.push('\n');
    assert(stdout@ =~= before + (join_words(texts(args@)) + seq!['\n']));
}

/// `type`: says of its first argument whether it names a built-in
/// command, or the path `found` that the search among the executables gave
/// for it, or that none was found.
pub fn type_of(args: &Vec<String>, found: Option<String>, stdout: &mut String, stderr: &mut String)
    ensures
        final(stdout)@ == old(stdout)@ + type_effect(texts(args@), text_of(found)).out,
        final(stderr)@ == old(stderr)@ + type_effect(texts(args@), text_of(found)).err,
{
    let ghost out = stdout@;
    let ghost err = stderr@;
    if args.len() == 0 {
        assert(stdout@ =~= out + Seq::<char>::empty());
        assert(stderr@ =~= err + Seq::<char>::empty());
        return ;
    }
    let s = args[0].as_str();
    assert(texts(args@)[0] == s@);
    if Builtin::from_name(s).is_some() {
        push_text(stdout, s);
        push_text(stdout, " is a shell builtin\n");
        assert(stdout@ =~= out + (s@ + " is a shell builtin\n"@));
        assert(stderr@ =~= err + Seq::<char>::empty());
        return ;
    }
    match found {
        Some(path) => {
            push_text(stdout, s);
            push_text(stdout, " is ");
            push_text(stdout, path.as_str());
            stdout.push('\n');
            assert(stdout@ =~= out + (s@ + " is "@ + path@ + seq!['\n']));
            assert(stderr@ =~= err + Seq::<char>::empty());
        },
        None => {
            push_text(stderr, s);
            push_text(stderr, ": not found\n");
            assert(stderr@ =~= err + (s@ + ": not found\n"@));
            assert(stdout@ =~= out + Seq::<char>::empty());
        },
    }
}

/// `cd`: the directory to change to. Changing to it is left to the caller.
pub fn cd(args: &Vec<String>, home: Option<String>) -> (target: String)
    ensures
        target@ == cd_target(texts(args@), text_of(home)),
{
    if args.len() > 0 {
        assert(texts(args@)[0] == args@[0]@);
        let first = chars_of(args[0].as_str());
        if !(first.len() == 1 && first[0] == '~') {
            assert(first@ != seq!['~']) by {
                if first@.len() == 1 {
                    assert(seq!['~'][0] == '~');
                } else {
                    assert(seq!['~'].len() == 1);
                }
            }
            return args[0].clone();
        }
        assert(first@ =~= seq!['~']);
    }
    match home {
        Some(dir) => dir,
        None => {
            let mut root = String::new();
            root.push('/');
            assert(root@ =~= seq!['/']);
            root
        },
    }
}

/// The report of a `cd` that failed.
pub fn cd_failure(target: &str) -> (report: String)
    ensures
        report@ == "cd: "@ + target@ + ": No such file or directory\n"@,
{
    let mut report = String::new();
    push_text(&mut report, "cd: ");
    push_text(&mut report, target);
    push_text(&mut report, ": No such file or directory\n");
    assert(report@ =~= "cd: "@ + target@ + ": No such file or directory\n"@);
    report
}

/// `exit`: the status to leave with.
pub fn exit(args: &Vec<String>) -> (status: i32)
    ensures
        status == exit_status(texts(args@)),
{
    if args.len() == 0 {
        return 0;
    }
    assert(texts(args@)[0] == args@[0]@);
    let first = chars_of(args[0].as_str());
    match parse_i32(&first) {
        Some(n) => n,
        None => 0,
    }
}

fn push_report(stderr: &mut String, subject: &str, complaint: &str)
    ensures
        final(stderr)@ == old(stderr)@ + ("history: "@ + subject@ + complaint@),
{
    let ghost before = stderr@;
    push_text(stderr, "history: ");
    push_text(stderr, subject);
    push_text(stderr, complaint);
    assert(stderr@ =~= before + ("history: "@ + subject@ + complaint@));
}

/// `history`: lists, empties or names a file to exchange the history with,
/// as its arguments ask.
pub fn history(
    args: &Vec<String>,
    store: &mut History,
    stdout: &mut String,
    stderr: &mut String,
) -> (outcome: Outcome)
    ensures
        final(stdout)@ == old(stdout)@ + history_effect(texts(args@), old(store)@.entries).out,
        final(stderr)@ == old(stderr)@ + history_effect(texts(args@), old(store)@.entries).err,
        outcome@ == history_effect(texts(args@), old(store)@.entries).outcome,
        final(store)@.boundary == old(store)@.boundary,
        final(store)@.entries == if history_effect(texts(args@), old(store)@.entries).clears {
            Seq::<Seq<char>>::empty()
        } else {
            old(store)@.entries
        },
{
    let ghost out = stdout@;
    let ghost err = stderr@;
    assert(out + Seq::<char>::empty() =~= out);
    assert(err + Seq::<char>::empty() =~= err);
    if args.len() == 0 {
        store.print(stdout, None);
        return Outcome::Done;
    }
    assert(texts(args@)[0] == args@[0]@);
    let first = args[0].as_str();
    if same_text(first, "-c") {
        store.clear();
        return Outcome::Done;
    }
    let reads = same_text(first, "-r");
    let writes = same_text(first, "-w");
    let appends = same_text(first, "-a");
    if reads || writes || appends {
        if args.len() < 2 {
            push_report(stderr, first, ": option requires an argument\n");
            return Outcome::Done;
        }
        assert(texts(args@)[1] == args@[1]@);
        let file = args[1].clone();
        return if reads {
            Outcome::ReadHistory(file)
        } else if writes {
            Outcome::WriteHistory(file)
        } else {
            Outcome::AppendHistory(file)
        };
    }
    let word = chars_of(first);
    if word.len() > 0 && word[0] == '-' {
        push_report(stderr, first, ": invalid option\n");
        return Outcome::Done;
    }
    match parse_usize(&word) {
        Some(n) => {
            store.print(stdout, Some(n));
        },
        None => {
            push_report(stderr, first, ": numeric argument required\n");
        },
    }
    Outcome::Done
}

/// Runs the built-in command `b` and says what is left to do. `home` is
/// the home directory where one is known, `found` the path that the search
/// among the executables gave for the first argument.
pub fn run(
    b: Builtin,
    args: &Vec<String>,
    store: &mut History,
    home: Option<String>,
    found: Option<String>,
    stdout: &mut String,
    stderr: &mut String,
) -> (outcome: Outcome)
    ensures
        ({
            let effect = builtin_effect(
                b,
                texts(args@),
                old(store)@.entries,
                text_of(home),
                text_of(found),
            );
            &&& outcome@ == effect.outcome
            &&& final(stdout)@ == old(stdout)@ + effect.out
            &&& final(stderr)@ == old(stderr)@ + effect.err
            &&& final(store)@.boundary == old(store)@.boundary
            &&& final(store)@.entries == if effect.clears {
                Seq::<Seq<char>>::empty()
            } else {
                old(store)@.entries
            }
        }),
{
    let ghost out = stdout@;
    let ghost err = stderr@;
    assert(out + Seq::<char>::empty() =~= out);
    assert(err + Seq::<char>::empty() =~= err);
    match b {
        Builtin::Cd => Outcome::ChangeDir(cd(args, home)),
        Builtin::Echo => {
            echo(args, stdout, stderr);
            Outcome::Done
        },
        Builtin::Exit => Outcome::Exit(exit(args)),
        Builtin::History => history(args, store, stdout, stderr),
        Builtin::Pwd => Outcome::WorkingDir,
        Builtin::Type => {
            type_of(args, found, stdout, stderr);
            Outcome::Done
        },
    }
}

/// Runs the built-in command called `cmd`, if there is one, and says what
/// is left to do; see `run`. Any other name gives `None` and changes
/// nothing.
pub fn run_builtin(
    cmd: &str,
    args: &Vec<String>,
    store: &mut History,
    home: Option<String>,
    found: Option<String>,
    stdout: &mut String,
    stderr: &mut String,
) -> (r: Option<Outcome>)
    ensures
        match Builtin::named(cmd@) {
            None => r is None && final(stdout)@ == old(stdout)@ && final(stderr)@ == old(stderr)@
                && final(store)@ == old(store)@,
            Some(b) => {
                let effect = builtin_effect(
                    b,
                    texts(args@),
                    old(store)@.entries,
                    text_of(home),
                    text_of(found),
                );
                &&& r is Some
                &&& r->0@ == effect.outcome
                &&& final(stdout)@ == old(stdout)@ + effect.out
                &&& final(stderr)@ == old(stderr)@ + effect.err
                &&& final(store)@.boundary == old(store)@.boundary
                &&& final(store)@.entries == if effect.clears {
                    Seq::<Seq<char>>::empty()
                } else {
                    old(store)@.entries
                }
            },
        },
{
    match Builtin::from_name(cmd) {
        None => None,
        Some(b) => Some(run(b, args, store, home, found, stdout, stderr)),
    }
}

} // verus!
